//! The hypersynth chord table: sixteen voicings of one chord, each widened
//! from the last by raising one note an octave, with a mask of the active
//! slots.

use vstd::prelude::*;
use vstd::arithmetic::div_mod::{lemma_fundamental_div_mod, lemma_mod_multiples_basic, lemma_mod_pos_bound, lemma_small_mod};
use crate::chord::Chord;
use crate::pitch::two_pow;
use crate::preset::{standard_voice, standard_voice_spec, VoiceParams};

verus! {

/// The number of entries of a chord table.
pub const TABLE_ENTRIES: usize = 16;

/// The number of offset slots of one entry.
pub const ENTRY_SLOTS: usize = 7;

/// The value the mutation cursor starts from: past the end of any chord, so
/// that the first entry keeps the base voicing.
pub const CURSOR_START: usize = 8;

/// One voicing of a chord table: seven offsets and the mask of the active
/// slots (bits 6 and 7 always set).
#[derive(Clone, Copy, Debug, PartialEq, Eq)]
pub struct ChordTableEntry {
    pub mask: u8,
    pub offsets: [u8; 7],
}

/// A hypersynth instrument: a default chord and a table of sixteen voicings.
pub struct HyperSynthPreset {
    pub number: u8,
    pub name: String,
    pub transpose: bool,
    pub table_tick: u8,
    pub voice: VoiceParams,
    pub scale: u8,
    pub default_chord: [u8; 7],
    pub shift: u8,
    pub swarm: u8,
    pub width: u8,
    pub subosc: u8,
    pub chords: Vec<ChordTableEntry>,
}

/// Where the mutation cursor of a chord of `len` notes stands after `n`
/// steps.
pub open spec fn cursor_after(len: nat, n: nat) -> int
    decreases n,
{
    if n == 0 {
        CURSOR_START as int
    } else {
        let c = cursor_after(len, (n - 1) as nat);
        if c >= len {
            0
        } else {
            c + 1
        }
    }
}

/// How many octaves the note at position `j` has been raised after `n` steps.
pub open spec fn bumps_after(len: nat, n: nat, j: int) -> nat
    decreases n,
{
    if n == 0 {
        0
    } else {
        let c = cursor_after(len, (n - 1) as nat);
        bumps_after(len, (n - 1) as nat, j) + if c < len && c == j { 1nat } else { 0nat }
    }
}

/// The note at position `j` after `n` steps.
pub open spec fn widened(base: Seq<usize>, n: nat, j: int) -> int {
    base[j] + 12 * bumps_after(base.len(), n, j)
}

/// The number of slots an entry fills: the largest multiple of the chord's
/// length that fits in seven.
pub open spec fn filled_slots(len: nat) -> nat {
    if len == 0 { 0 } else { ((ENTRY_SLOTS as nat / len) * len) as nat }
}

/// Bits 6 and 7, and one bit for each of the first `filled` slots.
pub open spec fn entry_mask(filled: nat) -> int {
    if filled >= 6 {
        0xFF
    } else {
        0xC0 + two_pow(filled) - 1
    }
}

/// Slot `j` of entry `i` of the table of `base`: the widened notes repeated
/// over the filled slots, as bytes, and zero beyond them.
pub open spec fn entry_slot(base: Seq<usize>, i: nat, j: int) -> int {
    if j < filled_slots(base.len()) {
        widened(base, i + 1, j % base.len() as int) % 256
    } else {
        0
    }
}

/// Slot `j` of the default chord: zero for the root, then the base notes.
pub open spec fn default_slot(base: Seq<usize>, j: int) -> int {
    if 1 <= j <= base.len() {
        base[j - 1] as int % 256
    } else {
        0
    }
}

/// `h` is the hypersynth preset of the chord `name` with notes `base`: its
/// default chord, its sixteen table entries and the shared settings.
pub open spec fn is_hypersynth_of(h: HyperSynthPreset, name: Seq<char>, base: Seq<usize>) -> bool {
    &&& h.number == 0
    &&& h.name@ == name
    &&& h.transpose
    &&& h.table_tick == 1
    &&& h.voice == standard_voice_spec()
    &&& h.scale == 0 && h.shift == 0x80 && h.swarm == 0 && h.width == 0 && h.subosc == 0x80
    &&& forall|j: int| 0 <= j < 7 ==> #[trigger] h.default_chord@[j] == default_slot(base, j)
    &&& h.chords@.len() == TABLE_ENTRIES
    &&& forall|i: int| 0 <= i < TABLE_ENTRIES ==> (#[trigger] h.chords@[i]).mask == entry_mask(filled_slots(base.len()))
    &&& forall|i: int, j: int|
        0 <= i < TABLE_ENTRIES && 0 <= j < 7 ==> #[trigger] h.chords@[i].offsets@[j] == entry_slot(base, i as nat, j)
}

/// Between one step and the next, the note under the cursor is raised one
/// octave when the cursor is within the chord, and no note otherwise; no
/// note is ever lowered. A cursor past the chord goes back to the start.
pub proof fn lemma_mutation_is_cumulative(len: nat, n: nat, j: int)
    ensures
        bumps_after(len, n + 1, j) == bumps_after(len, n, j) + if cursor_after(len, n) < len
            && cursor_after(len, n) == j { 1nat } else { 0nat },
        bumps_after(len, n, j) <= bumps_after(len, n + 1, j),
        cursor_after(len, n) >= len ==> cursor_after(len, n + 1) == 0,
        cursor_after(len, n) < len ==> cursor_after(len, n + 1) == cursor_after(len, n) + 1,
{
}

proof fn lemma_bumps_bounded(len: nat, n: nat, j: int)
    ensures
        bumps_after(len, n, j) <= n,
        0 <= cursor_after(len, n),
    decreases n,
{
    if n > 0 {
        lemma_bumps_bounded(len, (n - 1) as nat, j);
    }
}

/// The working state of the table encoder: the widened notes and the
/// mutation cursor.
pub struct TableCursor {
    pub offsets: Vec<usize>,
    pub cursor: usize,
}

impl TableCursor {
    /// `self` is the state after `n` steps from `base`.
    pub open spec fn is_after(&self, base: Seq<usize>, n: nat) -> bool {
        &&& self.offsets@.len() == base.len()
        &&& self.cursor == cursor_after(base.len(), n)
        &&& forall|j: int| 0 <= j < base.len() ==> self.offsets@[j] == #[trigger] widened(base, n, j)
    }

    /// The state before the first step.
    pub fn start(base: &Vec<usize>) -> (r: TableCursor)
        ensures
            r.is_after(base@, 0),
    {
        TableCursor { offsets: base.clone(), cursor: CURSOR_START }
    }

    /// One step: raise the note under the cursor an octave and move on, or,
    /// with the cursor past the chord, go back to its start and raise
    /// nothing.
    pub fn advance(&mut self, base: Ghost<Seq<usize>>, n: Ghost<nat>)
        requires
            old(self).is_after(base@, n@),
            forall|j: int| 0 <= j < base@.len() ==> base@[j] + 12 * (n@ + 1) <= usize::MAX,
        ensures
            final(self).is_after(base@, n@ + 1),
    {
        let ghost prev = self.offsets@;
        proof {
            lemma_bumps_bounded(base@.len(), n@, self.cursor as int);
        }
        if self.cursor >= self.offsets.len() {
            self.cursor = 0;
        } else {
            let c = self.cursor;
            assert(self.offsets@[c as int] == widened(base@, n@, c as int));
            assert(12 * bumps_after(base@.len(), n@, c as int) <= 12 * n@) by (nonlinear_arith)
                requires bumps_after(base@.len(), n@, c as int) <= n@;
            let v = self.offsets[c] + 12;
            self.offsets.set(c, v);
            self.cursor = c + 1;
        }
        assert forall|j: int| 0 <= j < base@.len() implies self.offsets@[j] == #[trigger] widened(base@, n@ + 1, j) by {
            lemma_mutation_is_cumulative(base@.len(), n@, j);
            assert(prev[j] == widened(base@, n@, j));
        }
    }

    /// The table entry of the current notes.
    pub fn entry(&self) -> (r: ChordTableEntry)
        requires
            1 <= self.offsets@.len(),
        ensures
            r.mask == entry_mask(filled_slots(self.offsets@.len())),
            forall|j: int| 0 <= j < 7 ==> #[trigger] r.offsets@[j] == if j < filled_slots(self.offsets@.len()) {
                self.offsets@[j % self.offsets@.len() as int] as int % 256
            } else {
                0
            },
    {
        let len = self.offsets.len();
        proof {
            lemma_fundamental_div_mod(ENTRY_SLOTS as int, len as int);
            lemma_mod_pos_bound(ENTRY_SLOTS as int, len as int);
            assert(len * (ENTRY_SLOTS as int / len as int) == (ENTRY_SLOTS as int / len as int) * len) by (nonlinear_arith);
        }
        let max = (ENTRY_SLOTS / len) * len;
        let offsets = [
            self.slot(max, 0),
            self.slot(max, 1),
            self.slot(max, 2),
            self.slot(max, 3),
            self.slot(max, 4),
            self.slot(max, 5),
            self.slot(max, 6),
        ];
        let mut low: u8 = 0;
        let mut w: usize = 0;
        while w < max
            invariant
                max <= 7,
                w <= max,
                low as int == two_pow(w as nat) - 1,
            decreases max - w,
        {
            assert(two_pow((w + 1) as nat) == 2 * two_pow(w as nat));
            proof {
                reveal_with_fuel(two_pow, 8);
                assert(two_pow(w as nat) <= 64) by {
                    if w == 0 {} else if w == 1 {} else if w == 2 {} else if w == 3 {}
                    else if w == 4 {} else if w == 5 {} else {}
                }
            }
            low = low * 2 + 1;
            w = w + 1;
        }
        proof {
            reveal_with_fuel(two_pow, 8);
        }
        let mask: u8 = 0xC0 | low;
        assert(mask == entry_mask(max as nat)) by {
            if max == 0 {
                assert(0xC0u8 | 0u8 == 0xC0u8) by (bit_vector);
            } else if max == 1 {
                assert(0xC0u8 | 1u8 == 0xC1u8) by (bit_vector);
            } else if max == 2 {
                assert(0xC0u8 | 3u8 == 0xC3u8) by (bit_vector);
            } else if max == 3 {
                assert(0xC0u8 | 7u8 == 0xC7u8) by (bit_vector);
            } else if max == 4 {
                assert(0xC0u8 | 15u8 == 0xCFu8) by (bit_vector);
            } else if max == 5 {
                assert(0xC0u8 | 31u8 == 0xDFu8) by (bit_vector);
            } else if max == 6 {
                assert(0xC0u8 | 63u8 == 0xFFu8) by (bit_vector);
            } else {
                assert(0xC0u8 | 127u8 == 0xFFu8) by (bit_vector);
            }
        }
        let r = ChordTableEntry { mask, offsets };
        assert forall|j: int| 0 <= j < 7 implies #[trigger] r.offsets@[j] == if j < filled_slots(self.offsets@.len()) {
            self.offsets@[j % self.offsets@.len() as int] as int % 256
        } else {
            0
        } by {
            if j == 0 {} else if j == 1 {} else if j == 2 {} else if j == 3 {}
            else if j == 4 {} else if j == 5 {} else {}
        }
        r
    }

    /// Slot `j` of an entry that fills `max` slots.
    fn slot(&self, max: usize, j: usize) -> (r: u8)
        requires
            1 <= self.offsets@.len(),
        ensures
            r == if j < max { self.offsets@[(j as int) % (self.offsets@.len() as int)] as int % 256 } else { 0 },
    {
        if j < max {
            (self.offsets[j % self.offsets.len()] % 256) as u8
        } else {
            0
        }
    }
}

impl Chord {
    /// The default chord: the root at slot 0, then the chord's notes as
    /// given, then zeros.
    pub fn default_chord(&self) -> (r: [u8; 7])
        requires
            self.offsets@.len() <= 6,
        ensures
            forall|j: int| 0 <= j < 7 ==> #[trigger] r@[j] == default_slot(self.offsets@, j),
    {
        let r = [
            0,
            self.default_slot(1),
            self.default_slot(2),
            self.default_slot(3),
            self.default_slot(4),
            self.default_slot(5),
            self.default_slot(6),
        ];
        assert forall|j: int| 0 <= j < 7 implies #[trigger] r@[j] == default_slot(self.offsets@, j) by {
            if j == 0 {} else if j == 1 {} else if j == 2 {} else if j == 3 {}
            else if j == 4 {} else if j == 5 {} else {}
        }
        r
    }

    fn default_slot(&self, j: usize) -> (r: u8)
        requires
            1 <= j,
        ensures
            r == default_slot(self.offsets@, j as int),
    {
        if j <= self.offsets.len() {
            (self.offsets[j - 1] % 256) as u8
        } else {
            0
        }
    }

    /// The sixteen voicings of the chord table. The first keeps the chord
    /// as given; each later one has one more note raised an octave, the
    /// cursor that picks it moving up the chord and starting over, with one
    /// entry left unchanged, each time it passes the last note.
    pub fn chord_table(&self) -> (r: Vec<ChordTableEntry>)
        requires
            1 <= self.offsets@.len(),
            forall|j: int| 0 <= j < self.offsets@.len() ==> self.offsets@[j] + 12 * TABLE_ENTRIES <= usize::MAX,
        ensures
            r@.len() == TABLE_ENTRIES,
            forall|i: int|
                0 <= i < TABLE_ENTRIES ==> (#[trigger] r@[i]).mask == entry_mask(filled_slots(self.offsets@.len())),
            forall|i: int, j: int|
                0 <= i < TABLE_ENTRIES && 0 <= j < 7 ==> #[trigger] r@[i].offsets@[j] == entry_slot(self.offsets@, i as nat, j),
    {
        let ghost base = self.offsets@;
        let mut state = TableCursor::start(&self.offsets);
        let mut r: Vec<ChordTableEntry> = Vec::new();
        let mut i: usize = 0;
        while i < TABLE_ENTRIES
            invariant
                base == self.offsets@,
                1 <= base.len(),
                forall|j: int| 0 <= j < base.len() ==> base[j] + 12 * TABLE_ENTRIES <= usize::MAX,
                i <= TABLE_ENTRIES,
                state.is_after(base, i as nat),
                r@.len() == i,
                forall|k: int|
                    0 <= k < i ==> (#[trigger] r@[k]).mask == entry_mask(filled_slots(base.len())),
                forall|k: int, j: int|
                    0 <= k < i && 0 <= j < 7 ==> #[trigger] r@[k].offsets@[j] == entry_slot(base, k as nat, j),
            decreases TABLE_ENTRIES - i,
        {
            assert forall|j: int| 0 <= j < base.len() implies base[j] + 12 * (i + 1) <= usize::MAX by {
                assert(12 * (i + 1) <= 12 * TABLE_ENTRIES) by (nonlinear_arith)
                    requires i < TABLE_ENTRIES;
            }
            state.advance(Ghost(base), Ghost(i as nat));
            let e = state.entry();
            assert forall|j: int| 0 <= j < 7 implies #[trigger] e.offsets@[j] == entry_slot(base, i as nat, j) by {
                if j < filled_slots(base.len()) {
                    let p = j % base.len() as int;
                    assert(0 <= p < base.len());
                    assert(state.offsets@[p] == widened(base, (i + 1) as nat, p));
                }
            }
            let ghost before = r@;
            r.push(e);
            assert forall|k: int, j: int| 0 <= k < i + 1 && 0 <= j < 7 implies #[trigger] r@[k].offsets@[j] == entry_slot(base, k as nat, j) by {
                if k < i {
                    assert(r@[k] == before[k]);
                }
            }
            i = i + 1;
        }
        r
    }

    /// The hypersynth preset of a chord of two to six notes: its default
    /// chord and its sixteen-entry chord table, whose seventh slot stays
    /// empty.
    pub fn as_hypersynth(&self) -> (r: HyperSynthPreset)
        requires
            2 <= self.offsets@.len() <= 6,
            forall|j: int| 0 <= j < self.offsets@.len() ==> self.offsets@[j] + 12 * TABLE_ENTRIES <= usize::MAX,
        ensures
            is_hypersynth_of(r, self.name@, self.offsets@),
            forall|i: int| 0 <= i < TABLE_ENTRIES ==> #[trigger] r.chords@[i].offsets@[6] == 0,
    {
        let r = HyperSynthPreset {
            number: 0,
            name: self.name.clone(),
            transpose: true,
            table_tick: 1,
            voice: standard_voice(),
            scale: 0,
            default_chord: self.default_chord(),
            shift: 0x80,
            swarm: 0,
            width: 0,
            subosc: 0x80,
            chords: self.chord_table(),
        };
        proof {
            lemma_filled_slots_bound(self.offsets@.len());
        }
        assert forall|i: int| 0 <= i < TABLE_ENTRIES implies #[trigger] r.chords@[i].offsets@[6] == 0 by {
            assert(r.chords@[i].offsets@[6] == entry_slot(self.offsets@, i as nat, 6));
        }
        r
    }
}

proof fn lemma_filled_slots_bound(len: nat)
    requires
        1 <= len,
    ensures
        filled_slots(len) <= 7,
        2 <= len <= 6 ==> filled_slots(len) <= 6,
{
    lemma_fundamental_div_mod(7, len as int);
    lemma_mod_pos_bound(7, len as int);
    assert(len * (7int / len as int) == (7int / len as int) * len) by (nonlinear_arith);
    if len == 2 {
        assert(filled_slots(2) == 6);
    } else if len == 3 {
        assert(filled_slots(3) == 6);
    } else if len == 4 {
        assert(filled_slots(4) == 4);
    } else if len == 5 {
        assert(filled_slots(5) == 5);
    } else if len == 6 {
        assert(filled_slots(6) == 6);
    }
}

/// With a chord of `len` notes, from the first step on, the cursor runs
/// through `0, 1, ..., len` and starts over: after `n` steps it stands at
/// `(n - 1) % (len + 1)`.
pub proof fn lemma_cursor_cycle(len: nat, n: nat)
    requires
        1 <= len <= CURSOR_START,
        n >= 1,
    ensures
        cursor_after(len, n) == (n - 1) % (len + 1) as int,
    decreases n,
{
    if n == 1 {
        assert(cursor_after(len, 0) == CURSOR_START);
    } else {
        lemma_cursor_cycle(len, (n - 1) as nat);
        let m = len + 1;
        let c = (n - 2) % m as int;
        lemma_fundamental_div_mod(n - 2, m as int);
        lemma_mod_pos_bound(n - 2, m as int);
        lemma_fundamental_div_mod(n - 1, m as int);
        lemma_mod_pos_bound(n - 1, m as int);
        let q = (n - 2) / m as int;
        assert(q >= 0) by (nonlinear_arith)
            requires n - 2 == m * q + c, 0 <= c < m, m > 0, n >= 2;
        if c >= len {
            assert(n - 1 == (q + 1) * m) by (nonlinear_arith)
                requires n - 2 == m * q + c, c == len, m == len + 1;
            lemma_mod_multiples_basic(q + 1, m as int);
        } else {
            assert(n - 1 == q * m + (c + 1)) by (nonlinear_arith)
                requires n - 2 == m * q + c;
            lemma_mod_add_multiples_vanish_q(c + 1, q, m as int);
        }
    }
}

proof fn lemma_mod_add_multiples_vanish_q(r: int, q: int, m: int)
    requires
        0 <= r < m,
        0 <= q,
    ensures
        (q * m + r) % m == r,
{
    lemma_fundamental_div_mod(q * m + r, m);
    lemma_mod_pos_bound(q * m + r, m);
    let d = (q * m + r) / m;
    let s = (q * m + r) % m;
    assert(d == q && s == r) by (nonlinear_arith)
        requires m * d + s == q * m + r, 0 <= s < m, 0 <= r < m;
}

proof fn lemma_bumps_grow(len: nat, n: nat, m: nat, p: int)
    requires
        n <= m,
    ensures
        bumps_after(len, n, p) <= bumps_after(len, m, p),
    decreases m - n,
{
    if n < m {
        lemma_bumps_grow(len, n, (m - 1) as nat, p);
        lemma_mutation_is_cumulative(len, (m - 1) as nat, p);
    }
}

/// Over the sixteen steps of a table of two to eight notes, no note is
/// raised more than five times.
proof fn lemma_bumps_at_most_five(len: nat, n: nat, p: int)
    requires
        2 <= len <= CURSOR_START,
        n <= TABLE_ENTRIES,
    ensures
        bumps_after(len, n, p) <= 5,
{
    lemma_bumps_grow(len, n, 16, p);
    assert(cursor_after(len, 0) == CURSOR_START);
    assert(bumps_after(len, 0, p) == 0);
    lemma_mutation_is_cumulative(len, 0, p);
    lemma_mutation_is_cumulative(len, 1, p);
    lemma_mutation_is_cumulative(len, 2, p);
    lemma_mutation_is_cumulative(len, 3, p);
    lemma_mutation_is_cumulative(len, 4, p);
    lemma_mutation_is_cumulative(len, 5, p);
    lemma_mutation_is_cumulative(len, 6, p);
    lemma_mutation_is_cumulative(len, 7, p);
    lemma_mutation_is_cumulative(len, 8, p);
    lemma_mutation_is_cumulative(len, 9, p);
    lemma_mutation_is_cumulative(len, 10, p);
    lemma_mutation_is_cumulative(len, 11, p);
    lemma_mutation_is_cumulative(len, 12, p);
    lemma_mutation_is_cumulative(len, 13, p);
    lemma_mutation_is_cumulative(len, 14, p);
    lemma_mutation_is_cumulative(len, 15, p);
    if len == 2 {
    } else if len == 3 {
    } else if len == 4 {
    } else if len == 5 {
    } else if len == 6 {
    } else if len == 7 {
    } else {
    }
}

/// From one table entry to the next, a slot keeps its note or has it
/// raised one octave: raised exactly when the cursor stands, within the
/// chord, on the note the slot repeats; before entry `i` it stands at
/// `(i - 1) % (len + 1)`. A note is raised at most five times over the
/// table of a chord of two to six notes, so with notes up to 195 no entry
/// wraps past a byte and the entries never go down.
pub proof fn lemma_table_entries_widen(h: HyperSynthPreset, name: Seq<char>, base: Seq<usize>, i: int, j: int)
    requires
        is_hypersynth_of(h, name, base),
        2 <= base.len() <= 6,
        forall|p: int| 0 <= p < base.len() ==> base[p] + 60 <= 255,
        1 <= i < TABLE_ENTRIES,
        0 <= j < filled_slots(base.len()),
    ensures
        h.chords@[i].offsets@[j] == h.chords@[i - 1].offsets@[j] + if cursor_after(base.len(), i as nat) < base.len()
            && j % base.len() as int == cursor_after(base.len(), i as nat) { 12int } else { 0int },
        h.chords@[i - 1].offsets@[j] <= h.chords@[i].offsets@[j],
        cursor_after(base.len(), i as nat) == (i - 1) % (base.len() + 1) as int,
{
    lemma_cursor_cycle(base.len(), i as nat);
    let len = base.len();
    let p = j % len as int;
    lemma_mod_pos_bound(j, len as int);
    lemma_filled_slots_bound(len);
    lemma_bumps_at_most_five(len, (i + 1) as nat, p);
    lemma_mutation_is_cumulative(len, i as nat, p);
    assert(h.chords@[i].offsets@[j] == entry_slot(base, i as nat, j));
    assert(h.chords@[i - 1].offsets@[j] == entry_slot(base, (i - 1) as nat, j));
    assert(12 * bumps_after(len, (i + 1) as nat, p) <= 60) by (nonlinear_arith)
        requires bumps_after(len, (i + 1) as nat, p) <= 5;
    assert(12 * bumps_after(len, i as nat, p) <= 60) by (nonlinear_arith)
        requires bumps_after(len, i as nat, p) <= bumps_after(len, (i + 1) as nat, p), bumps_after(len, (i + 1) as nat, p) <= 5;
    lemma_small_mod(widened(base, (i + 1) as nat, p) as nat, 256);
    lemma_small_mod(widened(base, i as nat, p) as nat, 256);
}

/// The first entry of a three-note chord repeats the chord as given twice
/// over its six filled slots, leaves the seventh empty, and has every mask
/// bit set.
pub proof fn lemma_triad_first_entry(h: HyperSynthPreset, name: Seq<char>, base: Seq<usize>)
    requires
        is_hypersynth_of(h, name, base),
        base.len() == 3,
    ensures
        filled_slots(3) == 6,
        forall|s: int| 0 <= s < 6 ==> #[trigger] h.chords@[0].offsets@[s] == base[s % 3] as int % 256,
        h.chords@[0].offsets@[6] == 0,
        h.chords@[0].mask == 0xFF,
{
    assert(filled_slots(3) == 6);
    assert forall|s: int| 0 <= s < 6 implies #[trigger] h.chords@[0].offsets@[s] == base[s % 3] as int % 256 by {
        assert(h.chords@[0].offsets@[s] == entry_slot(base, 0, s));
        assert(cursor_after(3, 0) == 8);
        assert(bumps_after(3, 0, s % 3) == 0);
        assert(bumps_after(3, 1, s % 3) == 0);
    }
    assert(h.chords@[0].offsets@[6] == entry_slot(base, 0, 6));
}

/// Generation is deterministic: two hypersynth presets of the same chord
/// agree in every field.
pub proof fn lemma_hypersynth_determined(name: Seq<char>, base: Seq<usize>, g: HyperSynthPreset, h: HyperSynthPreset)
    requires
        is_hypersynth_of(g, name, base),
        is_hypersynth_of(h, name, base),
    ensures
        g.number == h.number && g.name@ == h.name@ && g.transpose == h.transpose,
        g.table_tick == h.table_tick && g.voice == h.voice,
        g.scale == h.scale && g.shift == h.shift && g.swarm == h.swarm,
        g.width == h.width && g.subosc == h.subosc,
        g.default_chord@ == h.default_chord@,
        g.chords@.len() == h.chords@.len(),
        forall|i: int| 0 <= i < g.chords@.len() ==> (#[trigger] g.chords@[i]).mask == h.chords@[i].mask
            && g.chords@[i].offsets@ == h.chords@[i].offsets@,
{
    assert(g.default_chord@ =~= h.default_chord@);
    assert forall|i: int| 0 <= i < g.chords@.len() implies (#[trigger] g.chords@[i]).mask == h.chords@[i].mask
        && g.chords@[i].offsets@ == h.chords@[i].offsets@ by {
        assert forall|j: int| 0 <= j < 7 implies g.chords@[i].offsets@[j] == h.chords@[i].offsets@[j] by {
            assert(g.chords@[i].offsets@[j] == entry_slot(base, i as nat, j));
        }
        assert(g.chords@[i].offsets@ =~= h.chords@[i].offsets@);
    }
}

} // verus!

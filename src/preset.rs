//! FM presets: one operator per chord note, a routing topology chosen by the
//! number of notes, and the synthesis parameters shared by every preset.

use vstd::prelude::*;
use crate::chord::Chord;
use crate::pitch::{is_hundredths_ratio, lemma_hundredths_ratio_unique, quantize_ratio};

verus! {

/// The waveform of an FM operator.
#[derive(Clone, Copy, Debug, PartialEq, Eq, Structural)]
pub enum OperatorShape {
    Sine,
    Saw,
}

/// The parameters of one FM operator.
#[derive(Clone, Copy, Debug, PartialEq, Eq, Structural)]
pub struct OperatorParams {
    pub shape: OperatorShape,
    pub ratio: u8,
    pub ratio_fine: u8,
    pub level: u8,
    pub feedback: u8,
    pub retrigger: u8,
    pub mod_a: u8,
    pub mod_b: u8,
}

/// The waveform of a low-frequency oscillator.
#[derive(Clone, Copy, Debug, PartialEq, Eq, Structural)]
pub enum LfoWave {
    Triangle,
}

/// When a low-frequency oscillator restarts.
#[derive(Clone, Copy, Debug, PartialEq, Eq, Structural)]
pub enum LfoTrigger {
    Free,
}

/// An attack-hold-decay envelope modulator.
#[derive(Clone, Copy, Debug, PartialEq, Eq, Structural)]
pub struct EnvelopeParams {
    pub dest: u8,
    pub amount: u8,
    pub attack: u8,
    pub hold: u8,
    pub decay: u8,
}

/// A low-frequency oscillator modulator.
#[derive(Clone, Copy, Debug, PartialEq, Eq, Structural)]
pub struct LfoParams {
    pub shape: LfoWave,
    pub dest: u8,
    pub trigger: LfoTrigger,
    pub freq: u8,
    pub amount: u8,
    pub retrigger: u8,
}

/// Volume, filter and mixer settings and the four modulators of a preset:
/// two envelopes, then two oscillators.
#[derive(Clone, Copy, Debug, PartialEq, Eq, Structural)]
pub struct VoiceParams {
    pub volume: u8,
    pub pitch: u8,
    pub fine_tune: u8,
    pub filter_type: u8,
    pub filter_cutoff: u8,
    pub filter_res: u8,
    pub amp: u8,
    pub limit: u8,
    pub mixer_pan: u8,
    pub mixer_dry: u8,
    pub mixer_mfx: u8,
    pub mixer_delay: u8,
    pub mixer_reverb: u8,
    pub associated_eq: u8,
    /// The synth-dependent extra parameter, unused by these presets.
    pub shape: u8,
    pub env_1: EnvelopeParams,
    pub env_2: EnvelopeParams,
    pub lfo_1: LfoParams,
    pub lfo_2: LfoParams,
}

/// An FM instrument: four operators, listed from the fourth note down to the
/// root, with a routing topology.
pub struct FmPreset {
    pub number: u8,
    pub name: String,
    pub transpose: bool,
    pub table_tick: u8,
    pub voice: VoiceParams,
    pub algo: u8,
    pub operators: [OperatorParams; 4],
    pub mod1: u8,
    pub mod2: u8,
    pub mod3: u8,
    pub mod4: u8,
}

/// The envelope of every generated preset.
pub open spec fn standard_envelope() -> EnvelopeParams {
    EnvelopeParams { dest: 0, amount: 0xFF, attack: 0, hold: 0, decay: 0x80 }
}

/// The oscillator of every generated preset.
pub open spec fn standard_lfo() -> LfoParams {
    LfoParams {
        shape: LfoWave::Triangle,
        dest: 0,
        trigger: LfoTrigger::Free,
        freq: 0x10,
        amount: 0xFF,
        retrigger: 0,
    }
}

/// The settings that every generated preset shares.
pub open spec fn standard_voice_spec() -> VoiceParams {
    VoiceParams {
        volume: 0,
        pitch: 0,
        fine_tune: 0x80,
        filter_type: 0,
        filter_cutoff: 0xFF,
        filter_res: 0,
        amp: 0,
        limit: 0,
        mixer_pan: 0x80,
        mixer_dry: 0xC0,
        mixer_mfx: 0,
        mixer_delay: 0,
        mixer_reverb: 0,
        associated_eq: 0x80,
        shape: 0,
        env_1: standard_envelope(),
        env_2: standard_envelope(),
        lfo_1: standard_lfo(),
        lfo_2: standard_lfo(),
    }
}

/// The inert operator that fills a slot with no chord note.
pub open spec fn fallback_operator_spec() -> OperatorParams {
    OperatorParams {
        shape: OperatorShape::Sine,
        ratio: 1,
        ratio_fine: 0,
        level: 0x80,
        feedback: 0,
        retrigger: 0,
        mod_a: 0,
        mod_b: 0,
    }
}

/// `op` sounds the note `o` semitones above the root: a saw at the truncated
/// equal-tempered ratio.
pub open spec fn is_note_operator(op: OperatorParams, o: nat) -> bool {
    &&& op.shape == OperatorShape::Saw
    &&& is_hundredths_ratio(o, 100 * op.ratio + op.ratio_fine)
    &&& op.ratio_fine < 100
    &&& op.level == 0x80
    &&& op.feedback == 0
    &&& op.retrigger == 0
    &&& op.mod_a == 0
    &&& op.mod_b == 0
}

/// The routing topology for a number of voices.
pub open spec fn algorithm_spec(voices: nat) -> u8 {
    if voices == 4 {
        0xB
    } else if voices == 3 {
        0x8
    } else if voices == 2 {
        0x7
    } else {
        0x0
    }
}

/// The character of a decimal digit.
pub open spec fn digit_char(d: nat) -> char {
    if d == 0 { '0' }
    else if d == 1 { '1' }
    else if d == 2 { '2' }
    else if d == 3 { '3' }
    else if d == 4 { '4' }
    else if d == 5 { '5' }
    else if d == 6 { '6' }
    else if d == 7 { '7' }
    else if d == 8 { '8' }
    else { '9' }
}

/// `n` written in decimal, without leading zeros.
pub open spec fn decimal(n: nat) -> Seq<char>
    decreases n,
{
    if n < 10 {
        seq![digit_char(n)]
    } else {
        decimal(n / 10) + seq![digit_char(n % 10)]
    }
}

/// The name of an FM preset: the chord's name, and for an inversion
/// `_INV` and its number.
pub open spec fn fm_name(chord_name: Seq<char>, inversion: nat) -> Seq<char> {
    if inversion > 0 {
        chord_name + "_INV"@ + decimal(inversion)
    } else {
        chord_name
    }
}

/// The operator of the `i`-th note of `offsets`, or the fallback operator
/// where the chord has fewer notes.
pub open spec fn is_slot_operator(op: OperatorParams, offsets: Seq<usize>, i: int) -> bool {
    if i < offsets.len() {
        is_note_operator(op, offsets[i] as nat)
    } else {
        op == fallback_operator_spec()
    }
}

/// `p` is the FM preset of the chord `name` with notes `offsets`, named for
/// inversion `inversion`: operators from the fourth note down to the root,
/// the topology of its number of notes, and the shared settings.
pub open spec fn is_fm_preset_of(p: FmPreset, name: Seq<char>, offsets: Seq<usize>, inversion: nat) -> bool {
    &&& p.number == 0
    &&& p.name@ == fm_name(name, inversion)
    &&& forall|i: int| 0 <= i < 4 ==> is_slot_operator(#[trigger] p.operators@[3 - i], offsets, i)
    &&& p.algo == algorithm_spec(offsets.len())
    &&& p.voice == standard_voice_spec()
    &&& p.transpose
    &&& p.table_tick == 1
    &&& p.mod1 == 0 && p.mod2 == 0 && p.mod3 == 0 && p.mod4 == 0
}

/// The settings that every generated preset shares.
pub fn standard_voice() -> (r: VoiceParams)
    ensures
        r == standard_voice_spec(),
{
    VoiceParams {
        volume: 0,
        pitch: 0,
        fine_tune: 0x80,
        filter_type: 0,
        filter_cutoff: 0xFF,
        filter_res: 0,
        amp: 0,
        limit: 0,
        mixer_pan: 0x80,
        mixer_dry: 0xC0,
        mixer_mfx: 0,
        mixer_delay: 0,
        mixer_reverb: 0,
        associated_eq: 0x80,
        shape: 0,
        env_1: EnvelopeParams { dest: 0, amount: 0xFF, attack: 0, hold: 0, decay: 0x80 },
        env_2: EnvelopeParams { dest: 0, amount: 0xFF, attack: 0, hold: 0, decay: 0x80 },
        lfo_1: LfoParams {
            shape: LfoWave::Triangle,
            dest: 0,
            trigger: LfoTrigger::Free,
            freq: 0x10,
            amount: 0xFF,
            retrigger: 0,
        },
        lfo_2: LfoParams {
            shape: LfoWave::Triangle,
            dest: 0,
            trigger: LfoTrigger::Free,
            freq: 0x10,
            amount: 0xFF,
            retrigger: 0,
        },
    }
}

/// The routing topology for a number of voices: a fixed lookup.
pub fn algorithm_for(voices: usize) -> (r: u8)
    ensures
        r == algorithm_spec(voices as nat),
{
    match voices {
        4 => 0xB,
        3 => 0x8,
        2 => 0x7,
        _ => 0x0,
    }
}

/// The text of one decimal digit.
fn digit_text(d: u8) -> (r: &'static str)
    requires
        d < 10,
    ensures
        r@ == seq![digit_char(d as nat)],
{
    proof {
        reveal_strlit("0");
        reveal_strlit("1");
        reveal_strlit("2");
        reveal_strlit("3");
        reveal_strlit("4");
        reveal_strlit("5");
        reveal_strlit("6");
        reveal_strlit("7");
        reveal_strlit("8");
        reveal_strlit("9");
    }
    match d {
        0 => "0",
        1 => "1",
        2 => "2",
        3 => "3",
        4 => "4",
        5 => "5",
        6 => "6",
        7 => "7",
        8 => "8",
        _ => "9",
    }
}

/// Appends `n` in decimal to `s`.
pub fn push_decimal(s: String, n: u8) -> (r: String)
    ensures
        r@ == s@ + decimal(n as nat),
{
    reveal_with_fuel(decimal, 3);
    if n < 10 {
        s.concat(digit_text(n))
    } else if n < 100 {
        assert(decimal(n as nat) == decimal((n / 10) as nat) + seq![digit_char((n % 10) as nat)]);
        let t = s.concat(digit_text(n / 10));
        let r = t.concat(digit_text(n % 10));
        assert(r@ =~= s@ + decimal(n as nat));
        r
    } else {
        assert(decimal(n as nat) == decimal((n / 10) as nat) + seq![digit_char((n % 10) as nat)]);
        assert(decimal((n / 10) as nat) == decimal((n / 100) as nat) + seq![digit_char(((n / 10) % 10) as nat)]);
        let t = s.concat(digit_text(n / 100));
        let u = t.concat(digit_text((n / 10) % 10));
        let r = u.concat(digit_text(n % 10));
        assert(r@ =~= s@ + decimal(n as nat));
        r
    }
}

impl Chord {
    /// The inert operator for a slot with no chord note: a sine at unit
    /// ratio, whatever the chord.
    pub fn make_mod_op(&self) -> (r: OperatorParams)
        ensures
            r == fallback_operator_spec(),
    {
        OperatorParams {
            shape: OperatorShape::Sine,
            ratio: 1,
            ratio_fine: 0,
            level: 0x80,
            feedback: 0,
            retrigger: 0,
            mod_a: 0,
            mod_b: 0,
        }
    }

    /// The operator that sounds the `ix`-th note of the chord.
    pub fn make_op(&self, ix: usize) -> (r: OperatorParams)
        requires
            ix < self.offsets@.len(),
            self.offsets@[ix as int] < 96,
        ensures
            is_note_operator(r, self.offsets@[ix as int] as nat),
    {
        let (ratio, fine) = quantize_ratio(self.offsets[ix]);
        OperatorParams {
            shape: OperatorShape::Saw,
            ratio,
            ratio_fine: fine,
            level: 0x80,
            feedback: 0,
            retrigger: 0,
            mod_a: 0,
            mod_b: 0,
        }
    }

    /// The operator of note `i`, or the fallback where there is none.
    fn slot_op(&self, i: usize) -> (r: OperatorParams)
        requires
            i < self.offsets@.len() ==> self.offsets@[i as int] < 96,
        ensures
            is_slot_operator(r, self.offsets@, i as int),
    {
        if i < self.offsets.len() {
            self.make_op(i)
        } else {
            self.make_mod_op()
        }
    }

    /// The FM preset of the chord, named for the given inversion (0 for the
    /// root position). Its operators run from the fourth note down to the
    /// root; slots past the last note hold the fallback operator.
    pub fn as_fm(&self, inversion: u8) -> (r: FmPreset)
        requires
            forall|i: int| 0 <= i < 4 && i < self.offsets@.len() ==> self.offsets@[i] < 96,
        ensures
            is_fm_preset_of(r, self.name@, self.offsets@, inversion as nat),
    {
        let operators = [self.slot_op(3), self.slot_op(2), self.slot_op(1), self.slot_op(0)];
        let name = if inversion > 0 {
            let base = self.name.clone().concat("_INV");
            push_decimal(base, inversion)
        } else {
            self.name.clone()
        };
        let r = FmPreset {
            number: 0,
            name,
            transpose: true,
            table_tick: 1,
            voice: standard_voice(),
            algo: algorithm_for(self.offsets.len()),
            operators,
            mod1: 0,
            mod2: 0,
            mod3: 0,
            mod4: 0,
        };
        assert forall|i: int| 0 <= i < 4 implies is_slot_operator(#[trigger] r.operators@[3 - i], self.offsets@, i) by {
            if i == 0 {} else if i == 1 {} else if i == 2 {} else {}
        }
        r
    }
}

/// The operator of a slot with no chord note is the same for every chord:
/// a sine at unit ratio, no fine part, the fixed level.
pub proof fn lemma_fallback_independent_of_chord(
    a: Seq<usize>,
    b: Seq<usize>,
    i: int,
    op_a: OperatorParams,
    op_b: OperatorParams,
)
    requires
        a.len() <= i,
        b.len() <= i,
        is_slot_operator(op_a, a, i),
        is_slot_operator(op_b, b, i),
    ensures
        op_a == op_b,
        op_a.shape == OperatorShape::Sine,
        op_a.ratio == 1,
        op_a.ratio_fine == 0,
        op_a.level == 0x80,
{
}

/// An operator slot holds one value only: two operators that both meet its
/// description are equal.
pub proof fn lemma_slot_operator_unique(
    offsets: Seq<usize>,
    i: int,
    op_a: OperatorParams,
    op_b: OperatorParams,
)
    requires
        0 <= i,
        is_slot_operator(op_a, offsets, i),
        is_slot_operator(op_b, offsets, i),
    ensures
        op_a == op_b,
{
    if i < offsets.len() {
        let o = offsets[i] as nat;
        lemma_hundredths_ratio_unique(o, 100 * op_a.ratio + op_a.ratio_fine, 100 * op_b.ratio + op_b.ratio_fine);
        assert(op_a.ratio == op_b.ratio && op_a.ratio_fine == op_b.ratio_fine) by (nonlinear_arith)
            requires
                100 * op_a.ratio + op_a.ratio_fine == 100 * op_b.ratio + op_b.ratio_fine,
                op_a.ratio_fine < 100,
                op_b.ratio_fine < 100,
                op_a.ratio >= 0,
                op_b.ratio >= 0;
    }
}

/// Generation is deterministic: two FM presets of the same chord and
/// inversion agree in name, operators, topology and settings.
pub proof fn lemma_fm_preset_determined(
    name: Seq<char>,
    offsets: Seq<usize>,
    inversion: nat,
    p: FmPreset,
    q: FmPreset,
)
    requires
        is_fm_preset_of(p, name, offsets, inversion),
        is_fm_preset_of(q, name, offsets, inversion),
    ensures
        p.name@ == q.name@,
        p.operators@ == q.operators@,
        p.algo == q.algo,
        p.voice == q.voice,
        p.transpose == q.transpose && p.table_tick == q.table_tick,
        p.mod1 == q.mod1 && p.mod2 == q.mod2 && p.mod3 == q.mod3 && p.mod4 == q.mod4,
{
    assert forall|k: int| 0 <= k < 4 implies p.operators@[k] == q.operators@[k] by {
        let i = 3 - k;
        assert(p.operators@[3 - i] == p.operators@[k]);
        lemma_slot_operator_unique(offsets, i, p.operators@[3 - i], q.operators@[3 - i]);
    }
    assert(p.operators@ =~= q.operators@);
}

/// The topology follows the number of notes: B for four, 8 for three, 7 for
/// two, 0 otherwise, whatever the inversion.
pub proof fn lemma_topology_by_voice_count(p: FmPreset, name: Seq<char>, offsets: Seq<usize>, inversion: nat)
    requires
        is_fm_preset_of(p, name, offsets, inversion),
    ensures
        offsets.len() == 4 ==> p.algo == 0xB,
        offsets.len() == 3 ==> p.algo == 0x8,
        offsets.len() == 2 ==> p.algo == 0x7,
        offsets.len() != 2 && offsets.len() != 3 && offsets.len() != 4 ==> p.algo == 0,
{
}

/// In the FM preset of a chord with fewer than four notes, every operator
/// slot past the last note holds the fallback operator: a sine at unit
/// ratio, no fine part, the fixed level, whatever the chord.
pub proof fn lemma_fallback_slots(p: FmPreset, name: Seq<char>, offsets: Seq<usize>, inversion: nat, j: int)
    requires
        is_fm_preset_of(p, name, offsets, inversion),
        offsets.len() <= j < 4,
    ensures
        p.operators@[3 - j] == fallback_operator_spec(),
        p.operators@[3 - j].shape == OperatorShape::Sine,
        p.operators@[3 - j].ratio == 1 && p.operators@[3 - j].ratio_fine == 0,
        p.operators@[3 - j].level == 0x80,
{
    assert(is_slot_operator(p.operators@[3 - j], offsets, j));
}

} // verus!

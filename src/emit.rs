//! The presets of each chord and the files they go to: the root position,
//! each inversion, and the chord table.

use vstd::prelude::*;
use crate::chord::{build_chords, catalog_len, catalog_name, catalog_offsets, inversion_offsets, Chord};
use crate::preset::{fm_name, is_fm_preset_of, FmPreset};
use crate::table::{is_hypersynth_of, HyperSynthPreset, TABLE_ENTRIES};

verus! {

/// An instrument record, ready to be encoded.
pub enum PresetRecord {
    Fm(FmPreset),
    Hyper(HyperSynthPreset),
}

/// A record and the name of the file, inside the chord's folder, that holds it.
pub struct PresetFile {
    pub file_name: String,
    pub record: PresetRecord,
}

/// The chords the catalog may hold: two to six notes, each low enough that
/// its inversions keep an operator ratio below 256 and its chord table
/// cannot overflow.
pub open spec fn is_generable(offsets: Seq<usize>) -> bool {
    &&& 2 <= offsets.len() <= 6
    &&& forall|j: int| 0 <= j < offsets.len() ==> offsets[j] < 84
}

/// The folder of a chord's presets, under the top-level folder.
pub open spec fn folder_spec(name: Seq<char>) -> Seq<char> {
    "FM_CHORDS/"@ + name
}

/// The name of the `k`-th file of an FM preset: the preset's name and the
/// instrument extension.
pub open spec fn fm_file_name(name: Seq<char>, k: nat) -> Seq<char> {
    fm_name(name, k) + ".m8i"@
}

/// The name of the chord-table file.
pub open spec fn hypersynth_file_name(name: Seq<char>) -> Seq<char> {
    name + "_HS.m8i"@
}

/// `r` holds the files of the chord `name` with notes `offsets`: the root
/// position and its `N - 1` inversions as FM presets, then the chord table.
pub open spec fn are_chord_files(r: Seq<PresetFile>, name: Seq<char>, offsets: Seq<usize>) -> bool {
    &&& r.len() == offsets.len() + 1
    &&& forall|k: int|
        0 <= k < offsets.len() ==> {
            &&& (#[trigger] r[k]).file_name@ == fm_file_name(name, k as nat)
            &&& r[k].record matches PresetRecord::Fm(p)
                && is_fm_preset_of(p, name, inversion_offsets(offsets, k as nat), k as nat)
        }
    &&& r[offsets.len() as int].file_name@ == hypersynth_file_name(name)
    &&& r[offsets.len() as int].record matches PresetRecord::Hyper(h) && is_hypersynth_of(h, name, offsets)
}

/// The folder of a chord's presets.
pub fn chord_folder(chord: &Chord) -> (r: String)
    ensures
        r@ == folder_spec(chord.name@),
{
    let s = "FM_CHORDS/".to_owned();
    s.concat(chord.name.as_str())
}

/// The files of one chord, in the order they are written: the root position,
/// the inversions from the first, then the chord table.
pub fn preset_files(chord: &Chord) -> (r: Vec<PresetFile>)
    requires
        is_generable(chord.offsets@),
    ensures
        are_chord_files(r@, chord.name@, chord.offsets@),
{
    let n = chord.len();
    let mut r: Vec<PresetFile> = Vec::new();
    let root_name = chord.name.clone().concat(".m8i");
    assert(inversion_offsets(chord.offsets@, 0) =~= chord.offsets@);
    r.push(PresetFile { file_name: root_name, record: PresetRecord::Fm(chord.as_fm(0)) });
    let inversions = chord.inversions();
    let mut k: usize = 0;
    while k < n - 1
        invariant
            n == chord.offsets@.len(),
            is_generable(chord.offsets@),
            k <= n - 1,
            inversions@.len() == n - 1,
            forall|i: int|
                0 <= i < inversions@.len() ==> (#[trigger] inversions@[i]).name@ == chord.name@
                    && inversions@[i].offsets@ == inversion_offsets(chord.offsets@, (i + 1) as nat),
            r@.len() == k + 1,
            forall|i: int|
                0 <= i < k + 1 ==> {
                    &&& (#[trigger] r@[i]).file_name@ == fm_file_name(chord.name@, i as nat)
                    &&& r@[i].record matches PresetRecord::Fm(p)
                        && is_fm_preset_of(p, chord.name@, inversion_offsets(chord.offsets@, i as nat), i as nat)
                },
        decreases n - 1 - k,
    {
        let inv = &inversions[k];
        let number = (k + 1) as u8;
        let fm = inv.as_fm(number);
        let file_name = fm.name.clone().concat(".m8i");
        let ghost before = r@;
        r.push(PresetFile { file_name, record: PresetRecord::Fm(fm) });
        assert forall|i: int| 0 <= i < k + 2 implies {
            &&& (#[trigger] r@[i]).file_name@ == fm_file_name(chord.name@, i as nat)
            &&& r@[i].record matches PresetRecord::Fm(p)
                && is_fm_preset_of(p, chord.name@, inversion_offsets(chord.offsets@, i as nat), i as nat)
        } by {
            if i < k + 1 {
                assert(r@[i] == before[i]);
            }
        }
        k = k + 1;
    }
    let hs_name = chord.name.clone().concat("_HS.m8i");
    r.push(PresetFile { file_name: hs_name, record: PresetRecord::Hyper(chord.as_hypersynth()) });
    r
}

/// The folder of one chord and the files that go in it.
pub struct ChordPlan {
    pub folder: String,
    pub files: Vec<PresetFile>,
}

/// Every chord of the catalog can be generated.
proof fn lemma_catalog_generable(i: int)
    requires
        0 <= i < catalog_len(),
    ensures
        is_generable(catalog_offsets(i)),
{
    let s = catalog_offsets(i);
    assert(2 <= s.len() <= 6);
    assert forall|j: int| 0 <= j < s.len() implies s[j] < 84 by {
        assert(s[j] <= 12);
    }
}

/// What the whole catalog writes: for each chord, in catalog order, its
/// folder and its files.
pub fn catalog_plan() -> (r: Vec<ChordPlan>)
    ensures
        r@.len() == catalog_len(),
        forall|i: int|
            0 <= i < catalog_len() ==> {
                &&& (#[trigger] r@[i]).folder@ == folder_spec(catalog_name(i))
                &&& are_chord_files(r@[i].files@, catalog_name(i), catalog_offsets(i))
            },
{
    let chords = build_chords();
    let mut r: Vec<ChordPlan> = Vec::new();
    let mut i: usize = 0;
    while i < chords.len()
        invariant
            chords@.len() == catalog_len(),
            forall|k: int|
                0 <= k < chords@.len() ==> (#[trigger] chords@[k]).name@ == catalog_name(k)
                    && chords@[k].offsets@ == catalog_offsets(k),
            i <= chords@.len(),
            r@.len() == i,
            forall|k: int|
                0 <= k < i ==> {
                    &&& (#[trigger] r@[k]).folder@ == folder_spec(catalog_name(k))
                    &&& are_chord_files(r@[k].files@, catalog_name(k), catalog_offsets(k))
                },
        decreases chords@.len() - i,
    {
        let c = &chords[i];
        proof {
            lemma_catalog_generable(i as int);
        }
        let plan = ChordPlan { folder: chord_folder(c), files: preset_files(c) };
        let ghost before = r@;
        r.push(plan);
        assert forall|k: int| 0 <= k < i + 1 implies {
            &&& (#[trigger] r@[k]).folder@ == folder_spec(catalog_name(k))
            &&& are_chord_files(r@[k].files@, catalog_name(k), catalog_offsets(k))
        } by {
            if k < i {
                assert(r@[k] == before[k]);
            }
        }
        i = i + 1;
    }
    r
}

} // verus!

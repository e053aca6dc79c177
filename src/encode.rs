//! Instrument files: the records handed to the M8 file parser's writer.

use vstd::prelude::*;
use crate::emit::PresetRecord;
use crate::preset::{
    is_fm_preset_of, lemma_fm_preset_determined,
    EnvelopeParams, FmPreset, LfoParams, LfoTrigger, LfoWave, OperatorParams, OperatorShape, VoiceParams,
};
use crate::table::{is_hypersynth_of, lemma_hypersynth_determined, ChordTableEntry, HyperSynthPreset};
use m8_file_parser::writer::Writer;
use m8_file_parser::{
    AHDEnv, FMSynth, FMWave, FmAlgo, HyperSynth, Instrument, InstrumentWithEq, LfoShape,
    LfoTriggerMode, LimitType, Mod, Operator, SynthParams, Table, Version, LFO,
    Chord as TableChord,
};

verus! {

/// The size of an instrument file without an EQ, as the writer lays it out.
pub const INSTRUMENT_FILE_BYTES: usize = 357;

/// The format version the files are written under: 4.2.0.
pub const FORMAT_MAJOR: u8 = 4;
pub const FORMAT_MINOR: u8 = 2;
pub const FORMAT_PATCH: u8 = 0;

#[verifier::external_type_specification]
#[verifier::external_body]
pub struct ExOperator(m8_file_parser::Operator);

#[verifier::external_type_specification]
#[verifier::external_body]
pub struct ExMod(m8_file_parser::Mod);

#[verifier::external_type_specification]
#[verifier::external_body]
pub struct ExSynthParams(m8_file_parser::SynthParams);

#[verifier::external_type_specification]
#[verifier::external_body]
pub struct ExTableChord(TableChord);

#[verifier::external_type_specification]
#[verifier::external_body]
pub struct ExInstrument(m8_file_parser::Instrument);

/// A name the writer can store: at most twelve bytes, all ASCII.
pub open spec fn name_fits(name: &String) -> bool {
    name.is_ascii() && name@.len() <= 12
}

/// The name of the record fits the file.
pub open spec fn record_name_fits(record: &PresetRecord) -> bool {
    match record {
        PresetRecord::Fm(p) => name_fits(&p.name),
        PresetRecord::Hyper(h) => name_fits(&h.name),
    }
}

/// The table has sixteen entries, each with its seventh slot empty.
pub open spec fn is_six_slot_table(h: &HyperSynthPreset) -> bool {
    h.chords@.len() == 16 && forall|i: int| 0 <= i < 16 ==> #[trigger] h.chords@[i].offsets@[6] == 0
}

/// A record the writer can take: its name fits, and a chord table has
/// sixteen entries whose seventh slot is empty (the file holds six).
pub open spec fn is_encodable(record: &PresetRecord) -> bool {
    &&& record_name_fits(record)
    &&& match record {
        PresetRecord::Hyper(h) => is_six_slot_table(h),
        PresetRecord::Fm(_) => true,
    }
}

/// The instrument file that m8_file_parser's writer produces for an
/// instrument of the given kind, name and fields, under a format version.
pub uninterp spec fn instrument_file(kind: u8, name: Seq<char>, fields: Seq<u8>, major: u8, minor: u8, patch: u8) -> Seq<u8>;

/// The code of the FM kind of instrument.
pub const FM_KIND: u8 = 4;

/// The code of the hypersynth kind of instrument.
pub const HYPER_KIND: u8 = 5;

/// The fixed layout of an instrument file: 357 bytes that open with
/// `M8VERSION`, the version, the kind and the name padded to twelve bytes.
pub open spec fn has_file_layout(r: Seq<u8>, kind: u8, name: Seq<char>, major: u8, minor: u8, patch: u8) -> bool {
    &&& r.len() == INSTRUMENT_FILE_BYTES
    &&& r.subrange(0, 10) == seq![77u8, 56, 86, 69, 82, 83, 73, 79, 78, 0]
    &&& r[10] == minor * 16 + patch
    &&& r[11] == major
    &&& r[14] == kind
    &&& forall|j: int| 0 <= j < 12 ==> #[trigger] r[15 + j] as u32 == if j < name.len() { name[j] as u32 } else { 0 }
}

/// The fields of an operator: its shape (0 for a sine, 1 for a saw), then
/// its bytes in declaration order.
pub open spec fn operator_fields(o: OperatorParams) -> Seq<u8> {
    seq![
        if o.shape == OperatorShape::Sine { 0u8 } else { 1u8 },
        o.ratio, o.ratio_fine, o.level, o.feedback, o.retrigger, o.mod_a, o.mod_b,
    ]
}

/// The fields of an envelope, in declaration order.
pub open spec fn envelope_fields(e: EnvelopeParams) -> Seq<u8> {
    seq![e.dest, e.amount, e.attack, e.hold, e.decay]
}

/// The fields of an oscillator, in declaration order (its one wave and one
/// trigger mode are left out).
pub open spec fn lfo_fields(l: LfoParams) -> Seq<u8> {
    seq![l.dest, l.freq, l.amount, l.retrigger]
}

/// The fields of the shared settings, in declaration order.
pub open spec fn voice_fields(v: VoiceParams) -> Seq<u8> {
    seq![
        v.volume, v.pitch, v.fine_tune, v.filter_type, v.filter_cutoff, v.filter_res, v.amp,
        v.limit, v.mixer_pan, v.mixer_dry, v.mixer_mfx, v.mixer_delay, v.mixer_reverb,
        v.associated_eq, v.shape,
    ] + envelope_fields(v.env_1) + envelope_fields(v.env_2) + lfo_fields(v.lfo_1) + lfo_fields(v.lfo_2)
}

/// Every field of an FM preset but its name.
pub open spec fn fm_fields(p: FmPreset) -> Seq<u8> {
    seq![
        p.number, if p.transpose { 1u8 } else { 0u8 }, p.table_tick, p.algo,
        p.mod1, p.mod2, p.mod3, p.mod4,
    ] + voice_fields(p.voice) + operator_fields(p.operators@[0]) + operator_fields(p.operators@[1])
        + operator_fields(p.operators@[2]) + operator_fields(p.operators@[3])
}

/// Every field of a hypersynth preset but its name: the table as the mask
/// and first six slots of each of its sixteen entries.
pub open spec fn hyper_fields(h: HyperSynthPreset) -> Seq<u8> {
    seq![
        h.number, if h.transpose { 1u8 } else { 0u8 }, h.table_tick, h.scale, h.shift,
        h.swarm, h.width, h.subosc,
    ] + voice_fields(h.voice) + h.default_chord@ + Seq::new(
        112,
        |k: int| if k % 7 == 0 { h.chords@[k / 7].mask } else { h.chords@[k / 7].offsets@[k % 7 - 1] },
    )
}

/// The file of a record under the fixed format version.
pub open spec fn preset_file_bytes(record: &PresetRecord) -> Seq<u8> {
    match record {
        PresetRecord::Fm(p) => instrument_file(FM_KIND, p.name@, fm_fields(*p), FORMAT_MAJOR, FORMAT_MINOR, FORMAT_PATCH),
        PresetRecord::Hyper(h) => instrument_file(HYPER_KIND, h.name@, hyper_fields(*h), FORMAT_MAJOR, FORMAT_MINOR, FORMAT_PATCH),
    }
}

/// The name of the record.
pub open spec fn record_name(record: &PresetRecord) -> Seq<char> {
    match record {
        PresetRecord::Fm(p) => p.name@,
        PresetRecord::Hyper(h) => h.name@,
    }
}

/// The kind code of the record.
pub open spec fn record_kind(record: &PresetRecord) -> u8 {
    match record {
        PresetRecord::Fm(_) => FM_KIND,
        PresetRecord::Hyper(_) => HYPER_KIND,
    }
}

/// Relies on m8_file_parser's `Operator` struct: a field-by-field copy.
#[verifier::external_body]
fn m8_operator(op: &OperatorParams) -> Operator {
    let shape = match op.shape {
        OperatorShape::Sine => FMWave::SIN,
        OperatorShape::Saw => FMWave::SAW,
    };
    Operator {
        shape, ratio: op.ratio, ratio_fine: op.ratio_fine, level: op.level,
        feedback: op.feedback, retrigger: op.retrigger, mod_a: op.mod_a, mod_b: op.mod_b,
    }
}

/// Relies on m8_file_parser's `AHDEnv` modulator: a field-by-field copy.
#[verifier::external_body]
fn m8_envelope(e: &EnvelopeParams) -> Mod {
    Mod::AHDEnv(AHDEnv {
        dest: e.dest, amount: e.amount, attack: e.attack, hold: e.hold, decay: e.decay,
    })
}

/// Relies on m8_file_parser's `LFO` modulator: a field-by-field copy.
#[verifier::external_body]
fn m8_lfo(l: &LfoParams) -> Mod {
    let shape = match l.shape {
        LfoWave::Triangle => LfoShape::TRI,
    };
    let trigger_mode = match l.trigger {
        LfoTrigger::Free => LfoTriggerMode::FREE,
    };
    Mod::LFO(LFO {
        shape, dest: l.dest, trigger_mode, freq: l.freq, amount: l.amount, retrigger: l.retrigger,
    })
}

/// Relies on m8_file_parser's `SynthParams` struct: a field-by-field copy,
/// the four modulators converted by `m8_envelope` and `m8_lfo`.
#[verifier::external_body]
fn m8_synth_params(v: &VoiceParams) -> SynthParams {
    let mods = [m8_envelope(&v.env_1), m8_envelope(&v.env_2), m8_lfo(&v.lfo_1), m8_lfo(&v.lfo_2)];
    SynthParams {
        volume: v.volume, pitch: v.pitch, fine_tune: v.fine_tune,
        filter_type: v.filter_type, filter_cutoff: v.filter_cutoff, filter_res: v.filter_res,
        amp: v.amp, limit: LimitType(v.limit), shape: v.shape, mixer_pan: v.mixer_pan,
        mixer_dry: v.mixer_dry, mixer_mfx: v.mixer_mfx, mixer_delay: v.mixer_delay,
        mixer_reverb: v.mixer_reverb, associated_eq: v.associated_eq, mods,
    }
}

/// Relies on m8_file_parser's hypersynth `Chord`: the mask and the first
/// six slots of an entry.
#[verifier::external_body]
fn m8_table_chord(e: &ChordTableEntry) -> TableChord {
    let o = e.offsets;
    TableChord { mask: e.mask, offsets: [o[0], o[1], o[2], o[3], o[4], o[5]] }
}

/// Relies on m8_file_parser's `FMSynth` struct: a field-by-field copy, the
/// operators and settings converted by `m8_operator` and `m8_synth_params`.
#[verifier::external_body]
fn m8_fm(p: &FmPreset) -> Instrument {
    let o = &p.operators;
    let operators = [m8_operator(&o[0]), m8_operator(&o[1]), m8_operator(&o[2]), m8_operator(&o[3])];
    Instrument::FMSynth(FMSynth {
        number: p.number, name: p.name.clone(), transpose: p.transpose, table_tick: p.table_tick,
        synth_params: m8_synth_params(&p.voice), algo: FmAlgo(p.algo), operators,
        mod1: p.mod1, mod2: p.mod2, mod3: p.mod3, mod4: p.mod4,
    })
}

/// Relies on m8_file_parser's `HyperSynth` struct: a field-by-field copy,
/// the entries converted by `m8_table_chord`; the oscillator shape, which
/// the library does not model, is left unset.
#[verifier::external_body]
fn m8_hyper(h: &HyperSynthPreset) -> Instrument
    requires
        h.chords@.len() == 16,
{
    let chords: [TableChord; 16] = std::array::from_fn(|i| m8_table_chord(&h.chords[i]));
    Instrument::HyperSynth(HyperSynth {
        number: h.number, name: h.name.clone(), transpose: h.transpose, table_tick: h.table_tick,
        synth_params: m8_synth_params(&h.voice), scale: h.scale, default_chord: h.default_chord,
        shift: h.shift, swarm: h.swarm, width: h.width, subosc: h.subosc, chords, shape: None,
    })
}

/// Relies on m8_file_parser's `InstrumentWithEq::write` into
/// `Writer::new_instrument_writer(false)`: the result depends on the
/// record alone; the writer fills a zeroed buffer of `INSTRUMENT_FILE_SIZE`
/// (357) bytes by index, which `finish` returns. `Version::write` puts
/// `M8VERSION`, a zero, `minor << 4 | patch` and `major` first,
/// `Instrument::write` the kind (4 for FM, 5 for hypersynth) at byte 14 and
/// `write_string` the name at byte 15, padded with zeros to twelve bytes (it
/// fails on a longer one).
#[verifier::external_body]
fn write_instrument(record: &PresetRecord, major: u8, minor: u8, patch: u8) -> (r: Vec<u8>)
    requires
        is_encodable(record),
        minor < 16,
        patch < 16,
    ensures
        r@ == match record {
            PresetRecord::Fm(p) => instrument_file(FM_KIND, p.name@, fm_fields(*p), major, minor, patch),
            PresetRecord::Hyper(h) => instrument_file(HYPER_KIND, h.name@, hyper_fields(*h), major, minor, patch),
        },
        has_file_layout(r@, record_kind(record), record_name(record), major, minor, patch),
{
    let instrument = match record {
        PresetRecord::Fm(p) => m8_fm(p),
        PresetRecord::Hyper(h) => m8_hyper(h),
    };
    let version = Version { major, minor, patch };
    let file = InstrumentWithEq { instrument, table: Table::default_ver(version), eq: None, version };
    let mut w = Writer::new_instrument_writer(false);
    file.write(&mut w);
    w.finish()
}

/// Whether the record's name fits the file.
pub fn name_fits_file(record: &PresetRecord) -> (r: bool)
    ensures
        r == record_name_fits(record),
{
    let name = match record {
        PresetRecord::Fm(p) => &p.name,
        PresetRecord::Hyper(h) => &h.name,
    };
    name.is_ascii() && name.as_str().unicode_len() <= 12
}

/// The instrument file of a record, under the fixed format version 4.2.0:
/// the writer's file of the record's kind, name and fields.
pub fn encode_preset(record: &PresetRecord) -> (r: Vec<u8>)
    requires
        is_encodable(record),
    ensures
        r@ == preset_file_bytes(record),
        has_file_layout(r@, record_kind(record), record_name(record), FORMAT_MAJOR, FORMAT_MINOR, FORMAT_PATCH),
{
    write_instrument(record, FORMAT_MAJOR, FORMAT_MINOR, FORMAT_PATCH)
}

/// Whether the table has sixteen entries with the seventh slot empty.
fn six_slot_table(h: &HyperSynthPreset) -> (r: bool)
    ensures
        r == is_six_slot_table(h),
{
    if h.chords.len() != 16 {
        return false;
    }
    let mut i: usize = 0;
    while i < 16
        invariant
            h.chords@.len() == 16,
            i <= 16,
            forall|k: int| 0 <= k < i ==> #[trigger] h.chords@[k].offsets@[6] == 0,
        decreases 16 - i,
    {
        let e = h.chords[i];
        if e.offsets[6] != 0 {
            assert(h.chords@[i as int].offsets@[6] != 0);
            return false;
        }
        i = i + 1;
    }
    true
}

/// Whether the writer can take the record.
pub fn encodable(record: &PresetRecord) -> (r: bool)
    ensures
        r == is_encodable(record),
{
    let table_ok = match record {
        PresetRecord::Fm(_) => true,
        PresetRecord::Hyper(h) => six_slot_table(h),
    };
    name_fits_file(record) && table_ok
}

/// Files are deterministic: the files of two FM presets of the same chord
/// and inversion are the same bytes.
pub proof fn lemma_fm_file_determined(name: Seq<char>, offsets: Seq<usize>, inversion: nat, p: FmPreset, q: FmPreset)
    requires
        is_fm_preset_of(p, name, offsets, inversion),
        is_fm_preset_of(q, name, offsets, inversion),
    ensures
        preset_file_bytes(&PresetRecord::Fm(p)) == preset_file_bytes(&PresetRecord::Fm(q)),
{
    lemma_fm_preset_determined(name, offsets, inversion, p, q);
    assert(fm_fields(p) =~= fm_fields(q));
}

/// Files are deterministic: the files of two hypersynth presets of the
/// same chord are the same bytes.
pub proof fn lemma_hyper_file_determined(name: Seq<char>, base: Seq<usize>, g: HyperSynthPreset, h: HyperSynthPreset)
    requires
        is_hypersynth_of(g, name, base),
        is_hypersynth_of(h, name, base),
    ensures
        preset_file_bytes(&PresetRecord::Hyper(g)) == preset_file_bytes(&PresetRecord::Hyper(h)),
{
    lemma_hypersynth_determined(name, base, g, h);
    let tg = Seq::new(112, |k: int| if k % 7 == 0 { g.chords@[k / 7].mask } else { g.chords@[k / 7].offsets@[k % 7 - 1] });
    let th = Seq::new(112, |k: int| if k % 7 == 0 { h.chords@[k / 7].mask } else { h.chords@[k / 7].offsets@[k % 7 - 1] });
    assert forall|k: int| 0 <= k < 112 implies tg[k] == th[k] by {
        assert(0 <= k / 7 < 16);
        assert(g.chords@[k / 7].offsets@ == h.chords@[k / 7].offsets@);
    }
    assert(tg =~= th);
    assert(hyper_fields(g) =~= hyper_fields(h));
}

} // verus!

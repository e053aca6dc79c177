use m8_chords::chord::{build_chords, Chord};
use m8_chords::emit::{catalog_plan, chord_folder, preset_files, PresetRecord};
use m8_chords::encode::{encodable, encode_preset, name_fits_file, INSTRUMENT_FILE_BYTES};
use m8_chords::pitch::quantize_ratio;
use m8_chords::preset::{algorithm_for, push_decimal, OperatorParams, OperatorShape};
use m8_chords::table::{ChordTableEntry, TableCursor};

fn fallback() -> OperatorParams {
    OperatorParams {
        shape: OperatorShape::Sine,
        ratio: 1,
        ratio_fine: 0,
        level: 0x80,
        feedback: 0,
        retrigger: 0,
        mod_a: 0,
        mod_b: 0,
    }
}

fn chord(name: &str, offsets: Vec<usize>) -> Chord {
    Chord::make(name, offsets)
}

#[test]
fn quantize_fifth_root_and_third() {
    assert_eq!(quantize_ratio(7), (1, 49));
    assert_eq!(quantize_ratio(0), (1, 0));
    assert_eq!(quantize_ratio(4), (1, 25));
}

#[test]
fn quantize_octaves_and_beyond() {
    assert_eq!(quantize_ratio(12), (2, 0));
    assert_eq!(quantize_ratio(19), (2, 99));
    assert_eq!(quantize_ratio(23), (3, 77));
    assert_eq!(quantize_ratio(84), (128, 0));
    assert_eq!(quantize_ratio(95), (241, 63));
}

#[test]
fn algorithm_by_voice_count() {
    assert_eq!(algorithm_for(4), 0xB);
    assert_eq!(algorithm_for(3), 0x8);
    assert_eq!(algorithm_for(2), 0x7);
    assert_eq!(algorithm_for(1), 0x0);
    assert_eq!(algorithm_for(5), 0x0);
    assert_eq!(chord("DOM7", vec![0, 4, 7, 10]).as_fm(0).algo, 0xB);
    assert_eq!(chord("MAJ", vec![0, 4, 7]).as_fm(0).algo, 0x8);
    assert_eq!(chord("POW", vec![0, 7]).as_fm(0).algo, 0x7);
}

#[test]
fn fm_operators_run_from_fourth_note_down() {
    let p = chord("DOM7", vec![0, 4, 7, 10]).as_fm(0);
    assert_eq!(p.name, "DOM7");
    let ratios: Vec<(u8, u8)> = p.operators.iter().map(|o| (o.ratio, o.ratio_fine)).collect();
    assert_eq!(ratios, vec![(1, 78), (1, 49), (1, 25), (1, 0)]);
    assert!(p.operators.iter().all(|o| o.shape == OperatorShape::Saw && o.level == 0x80));
}

#[test]
fn fallback_operator_is_the_same_for_every_short_chord() {
    for c in build_chords() {
        if c.len() < 4 {
            let p = c.as_fm(0);
            assert_eq!(p.operators[0], fallback());
            if c.len() < 3 {
                assert_eq!(p.operators[1], fallback());
            }
        }
    }
}

#[test]
fn inversion_names_and_offsets() {
    let c = chord("MAJ", vec![0, 4, 7]);
    let inv = c.inversions();
    assert_eq!(inv.len(), 2);
    assert_eq!(inv[0].offsets, vec![12, 4, 7]);
    assert_eq!(inv[1].offsets, vec![12, 16, 7]);
    assert_eq!(inv[1].name, "MAJ");
    assert_eq!(c.offsets, vec![0, 4, 7]);
    assert_eq!(inv[1].as_fm(2).name, "MAJ_INV2");
}

#[test]
fn maj_gives_four_files() {
    let c = chord("MAJ", vec![0, 4, 7]);
    let files = preset_files(&c);
    let names: Vec<String> = files.iter().map(|f| f.file_name.clone()).collect();
    assert_eq!(names, vec!["MAJ.m8i", "MAJ_INV1.m8i", "MAJ_INV2.m8i", "MAJ_HS.m8i"]);
    assert_eq!(chord_folder(&c), "FM_CHORDS/MAJ");
    match &files[2].record {
        PresetRecord::Fm(p) => {
            assert_eq!(p.name, "MAJ_INV2");
            assert_eq!((p.operators[3].ratio, p.operators[3].ratio_fine), (2, 0));
            assert_eq!((p.operators[2].ratio, p.operators[2].ratio_fine), (2, 51));
        }
        PresetRecord::Hyper(_) => panic!("an FM preset was expected"),
    }
    assert!(matches!(files[3].record, PresetRecord::Hyper(_)));
}

#[test]
fn inversion_count_over_the_catalog() {
    for c in build_chords() {
        let files = preset_files(&c);
        assert_eq!(files.len(), c.len() + 1);
        let fm = files.iter().filter(|f| matches!(f.record, PresetRecord::Fm(_))).count();
        assert_eq!(fm, c.len());
    }
}

#[test]
fn catalog_contents() {
    let cat = build_chords();
    assert_eq!(cat.len(), 15);
    assert_eq!(cat[0].name, "MAJ");
    assert_eq!(cat[0].offsets, vec![0, 4, 7]);
    assert_eq!(cat[14].name, "POW_AUG");
    assert_eq!(cat[14].offsets, vec![0, 7, 12]);
    assert_eq!(cat[13].len(), 2);
}

#[test]
fn chord_table_first_entry_of_a_triad() {
    let h = chord("MAJ", vec![0, 4, 7]).as_hypersynth();
    assert_eq!(h.chords.len(), 16);
    assert_eq!(h.chords[0], ChordTableEntry { mask: 0xFF, offsets: [0, 4, 7, 0, 4, 7, 0] });
    assert_eq!(h.chords[1], ChordTableEntry { mask: 0xFF, offsets: [12, 4, 7, 12, 4, 7, 0] });
    assert_eq!(h.chords[3].offsets, [12, 16, 19, 12, 16, 19, 0]);
    assert_eq!(h.chords[4].offsets, [12, 16, 19, 12, 16, 19, 0]);
    assert_eq!(h.chords[5].offsets, [24, 16, 19, 24, 16, 19, 0]);
    assert_eq!(h.default_chord, [0, 0, 4, 7, 0, 0, 0]);
    assert_eq!(h.name, "MAJ");
}

#[test]
fn chord_table_masks_by_length() {
    let four = chord("DOM7", vec![0, 4, 7, 10]).as_hypersynth();
    assert_eq!(four.chords[0], ChordTableEntry { mask: 0xCF, offsets: [0, 4, 7, 10, 0, 0, 0] });
    let two = chord("POW", vec![0, 7]).as_hypersynth();
    assert_eq!(two.chords[0], ChordTableEntry { mask: 0xFF, offsets: [0, 7, 0, 7, 0, 7, 0] });
    let five = chord("NINE", vec![0, 4, 7, 10, 14]).as_hypersynth();
    assert_eq!(five.chords[0].mask, 0xDF);
    let one = chord("ONE", vec![5]).chord_table();
    assert_eq!(one[0], ChordTableEntry { mask: 0xFF, offsets: [5, 5, 5, 5, 5, 5, 5] });
    assert_eq!(one[1].offsets, [17; 7]);
}

#[test]
fn chord_table_mutation_is_cumulative() {
    for c in build_chords() {
        let h = c.as_hypersynth();
        let n = c.len();
        for i in 1..16 {
            for j in 0..n {
                let before = h.chords[i - 1].offsets[j];
                let after = h.chords[i].offsets[j];
                assert!(after == before || after == before + 12);
            }
        }
    }
}

#[test]
fn table_cursor_wraps_after_the_last_note() {
    let base = vec![0usize, 4, 7];
    let start = TableCursor::start(&base);
    assert_eq!(start.cursor, 8);
    assert_eq!(start.offsets, base);
    let e = start.entry();
    assert_eq!(e.offsets, [0, 4, 7, 0, 4, 7, 0]);
}

#[test]
fn generation_is_deterministic() {
    let a = build_chords();
    let b = build_chords();
    for (x, y) in a.iter().zip(b.iter()) {
        let fa = preset_files(x);
        let fb = preset_files(y);
        assert_eq!(fa.len(), fb.len());
        for (p, q) in fa.iter().zip(fb.iter()) {
            assert_eq!(p.file_name, q.file_name);
            match (&p.record, &q.record) {
                (PresetRecord::Fm(r), PresetRecord::Fm(s)) => {
                    assert_eq!(r.name, s.name);
                    assert_eq!(r.operators, s.operators);
                    assert_eq!(r.algo, s.algo);
                    assert_eq!(r.voice, s.voice);
                }
                (PresetRecord::Hyper(r), PresetRecord::Hyper(s)) => {
                    assert_eq!(r.chords, s.chords);
                    assert_eq!(r.default_chord, s.default_chord);
                }
                _ => panic!("records of different kinds"),
            }
        }
    }
}

#[test]
fn decimal_suffixes() {
    assert_eq!(push_decimal(String::from("X"), 7), "X7");
    assert_eq!(push_decimal(String::from("X"), 42), "X42");
    assert_eq!(push_decimal(String::from("X"), 205), "X205");
    assert_eq!(chord("MIN", vec![0, 3, 7]).as_fm(10).name, "MIN_INV10");
}

fn contains(hay: &[u8], needle: &[u8]) -> bool {
    hay.windows(needle.len()).any(|w| w == needle)
}

#[test]
fn encoded_files_hold_the_records() {
    let files = preset_files(&chord("MAJ", vec![0, 4, 7]));
    for f in &files {
        assert!(name_fits_file(&f.record));
        let bytes = encode_preset(&f.record);
        assert_eq!(bytes.len(), INSTRUMENT_FILE_BYTES);
        assert_eq!(&bytes[..9], b"M8VERSION");
    }
    let inv = encode_preset(&files[1].record);
    assert!(contains(&inv, b"MAJ_INV1"));
    let root = encode_preset(&files[0].record);
    let hs = encode_preset(&files[3].record);
    assert_ne!(root, hs);
    assert!(contains(&hs, &[0xFF, 0, 4, 7, 0, 4, 7]));
}

#[test]
fn encoding_is_deterministic_over_the_catalog() {
    for c in build_chords() {
        let a = preset_files(&c);
        let b = preset_files(&c);
        for (x, y) in a.iter().zip(b.iter()) {
            assert!(name_fits_file(&x.record));
            assert_eq!(encode_preset(&x.record), encode_preset(&y.record));
        }
    }
}

#[test]
fn long_names_do_not_fit() {
    let p = chord("ABCDEFGHIJKLM", vec![0, 7]).as_fm(0);
    assert!(!name_fits_file(&PresetRecord::Fm(p)));
}

#[test]
fn catalog_plan_lists_every_chord() {
    let plan = catalog_plan();
    assert_eq!(plan.len(), 15);
    assert_eq!(plan[0].folder, "FM_CHORDS/MAJ");
    assert_eq!(plan[0].files.len(), 4);
    assert_eq!(plan[1].folder, "FM_CHORDS/MAJ6");
    let names: Vec<String> = plan[1].files.iter().map(|f| f.file_name.clone()).collect();
    assert_eq!(names, vec!["MAJ6.m8i", "MAJ6_INV1.m8i", "MAJ6_INV2.m8i", "MAJ6_INV3.m8i", "MAJ6_HS.m8i"]);
    assert_eq!(plan[13].folder, "FM_CHORDS/POW");
    assert_eq!(plan[13].files.len(), 3);
    let total: usize = plan.iter().map(|p| p.files.len()).sum();
    assert_eq!(total, 5 * 4 + 9 * 5 + 3);
}

#[test]
fn encoded_header_layout() {
    let files = preset_files(&chord("MIN7", vec![0, 3, 7, 10]));
    let fm = encode_preset(&files[2].record);
    assert_eq!(&fm[..10], b"M8VERSION\0");
    assert_eq!(fm[10], 2 * 16);
    assert_eq!(fm[11], 4);
    assert_eq!(fm[14], 4);
    assert_eq!(&fm[15..27], b"MIN7_INV2\0\0\0");
    let hs = encode_preset(&files[4].record);
    assert_eq!(hs[14], 5);
    assert_eq!(&hs[15..27], b"MIN7\0\0\0\0\0\0\0\0");
}

#[test]
fn encodable_records() {
    for plan in catalog_plan() {
        for f in &plan.files {
            assert!(encodable(&f.record));
        }
    }
    let p = chord("ABCDEFGHIJKLM", vec![0, 7]).as_fm(0);
    assert!(!encodable(&PresetRecord::Fm(p)));
    let mut h = chord("MAJ", vec![0, 4, 7]).as_hypersynth();
    h.chords[3].offsets[6] = 1;
    assert!(!encodable(&PresetRecord::Hyper(h)));
}

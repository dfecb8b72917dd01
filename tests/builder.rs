use dos_cp::builder::{build, CodePageGenExt, PLACEHOLDER};
use dos_cp::code_page::CodePage;
use dos_cp::hash::hash;
use dos_cp::round_trip::is_one_to_one;
use dos_cp::tables::{base_table_and_hash_param, table_from_text, CP437, CP857, KNOWN_CODE_PAGES};

#[test]
fn hash_folds_sum_onto_low_seven_bits() {
    assert_eq!(hash(0x03B1, 0x9F8D), 29);
    assert_eq!(hash(0, 0), 0);
    assert_eq!(hash(0xFFFF, 1), 0);
    assert_eq!(hash(0x0100, 0), 1);
    assert_eq!(hash(0x00FF, 0), 0x7F);
}

#[test]
fn every_known_code_page_is_generated() {
    for &n in KNOWN_CODE_PAGES.iter() {
        assert!(CodePage::generate(n).is_some(), "{}", n);
    }
}

#[test]
fn every_known_code_page_has_a_table() {
    assert_eq!(KNOWN_CODE_PAGES.len(), 19);
    for &n in KNOWN_CODE_PAGES.iter() {
        let (table, _) = base_table_and_hash_param(n).unwrap();
        assert!(table.iter().all(|&c| c == PLACEHOLDER || (c as u32) >= 0x80));
    }
}

#[test]
fn known_code_page_table_and_parameter() {
    let (table, param) = base_table_and_hash_param(437).unwrap();
    assert_eq!(param, 0x9F8D);
    assert_eq!(table[0], '\u{00C7}');
    let (table, param) = base_table_and_hash_param(857).unwrap();
    assert_eq!(param, 0x80EE);
    assert_eq!(table[85], PLACEHOLDER);
}

#[test]
fn layout_of_code_page_437() {
    let cp = build(&table_from_text(CP437).unwrap(), 0x9F8D).unwrap();
    assert_eq!(&cp.0[0..2], &[0x00, 0xC7]);
    assert_eq!(&cp.0[2 * 0x60..2 * 0x60 + 2], &[0x03, 0xB1]);
    assert_eq!(cp.0[510], 0x8D);
    assert_eq!(cp.0[511], 0x9F);
    let bucket = hash(0x03B1, 0x9F8D) as usize;
    let slots = [cp.0[256 + 2 * bucket], cp.0[256 + 2 * bucket + 1]];
    assert!(slots.contains(&0x60));
}

#[test]
fn placeholders_are_stored_as_zero() {
    let cp = build(&table_from_text(CP857).unwrap(), 0x80EE).unwrap();
    assert_eq!(&cp.0[2 * 85..2 * 85 + 2], &[0, 0]);
}

#[test]
fn reverse_region_holds_every_symbol_in_its_bucket() {
    for &n in KNOWN_CODE_PAGES.iter() {
        let (table, param) = base_table_and_hash_param(n).unwrap();
        let cp = build(&table, param).unwrap();
        for (i, &c) in table.iter().enumerate() {
            if c == PLACEHOLDER {
                continue;
            }
            let h = hash(c as u32 as u16, param) as usize;
            assert!(h < 127);
            let slots = [cp.0[256 + 2 * h], cp.0[256 + 2 * h + 1]];
            assert!(slots.contains(&(i as u8)));
        }
        for b in 0..127 {
            for s in 0..2 {
                let x = cp.0[256 + 2 * b + s];
                if x < 128 {
                    let c = table[x as usize];
                    assert_ne!(c, PLACEHOLDER);
                    assert_eq!(hash(c as u32 as u16, param) as usize, b);
                } else {
                    assert_eq!(x, 0x80);
                }
            }
            let first = cp.0[256 + 2 * b];
            let second = cp.0[256 + 2 * b + 1];
            assert!(first < 128 || second >= 128);
        }
    }
}

#[test]
fn building_twice_gives_identical_bytes() {
    for &n in KNOWN_CODE_PAGES.iter() {
        let (table, param) = base_table_and_hash_param(n).unwrap();
        let a = build(&table, param).unwrap();
        let b = build(&table, param).unwrap();
        assert_eq!(a.0, b.0);
        assert_eq!(CodePage::generate(n).unwrap().0, a.0);
    }
}

#[test]
fn symbol_above_sixteen_bits_is_refused() {
    let mut table = table_from_text(CP437).unwrap();
    table[5] = '\u{1F600}';
    assert!(build(&table, 0x9F8D).is_none());
}

#[test]
fn third_symbol_in_a_bucket_is_refused() {
    let mut table = ['?'; 128];
    table[0] = '\u{0101}';
    table[1] = '\u{0202}';
    table[2] = '\u{0303}';
    assert_eq!(hash(0x0101, 0), 0);
    assert_eq!(hash(0x0202, 0), 0);
    assert_eq!(hash(0x0303, 0), 0);
    assert!(build(&table, 0).is_none());
    table[2] = PLACEHOLDER;
    let cp = build(&table, 0).unwrap();
    assert_eq!(&cp.0[256..258], &[0, 1]);
    assert_eq!(&cp.0[258..260], &[0x80, 0x80]);
}

#[test]
fn symbol_in_reserved_bucket_is_refused() {
    let mut table = ['?'; 128];
    table[0] = '\u{00FF}';
    assert_eq!(hash(0x00FF, 0), 127);
    assert!(build(&table, 0).is_none());
    assert!(build(&table, 1).is_some());
}

#[test]
fn table_text_must_hold_128_characters() {
    assert!(table_from_text("abc").is_none());
    let table = table_from_text(CP857).unwrap();
    assert_eq!(table[0], '\u{00C7}');
    assert_eq!(table[127], '\u{00A0}');
    for text in [CP437, CP857] {
        assert_eq!(text.chars().count(), 128);
    }
}

#[test]
fn known_tables_are_one_to_one() {
    for &n in KNOWN_CODE_PAGES.iter() {
        let (table, _) = base_table_and_hash_param(n).unwrap();
        assert!(is_one_to_one(&table), "{}", n);
    }
}

#[test]
fn repeated_or_ascii_symbol_is_not_one_to_one() {
    let mut table = ['?'; 128];
    table[0] = '\u{00E9}';
    table[1] = '\u{00E9}';
    assert!(!is_one_to_one(&table));
    table[1] = 'A';
    assert!(!is_one_to_one(&table));
    table[1] = '\u{00E8}';
    assert!(is_one_to_one(&table));
}

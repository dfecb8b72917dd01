use dos_cp::builder::{build, CodePageGenExt};
use dos_cp::code_page::CodePage;
use dos_cp::tables::{base_table_and_hash_param, KNOWN_CODE_PAGES};

fn known_code_pages() -> Vec<(u16, [char; 128], CodePage)> {
    KNOWN_CODE_PAGES
        .iter()
        .map(|&n| {
            let (table, param) = base_table_and_hash_param(n).unwrap();
            (n, table, build(&table, param).unwrap())
        })
        .collect()
}

#[test]
fn low_half_transform_is_trivial() {
    for (_, _, cp) in known_code_pages() {
        for a in 0u8..128 {
            let u = a as char;
            assert_eq!(cp.to_char(a), Some(u));
            assert_eq!(cp.from_char(u), Some(a));
        }
    }
}

#[test]
fn from_char_is_to_char_inverse() {
    for (_, _, cp) in known_code_pages() {
        for b in 0u8..=255 {
            if let Some(u) = cp.to_char(b) {
                assert_eq!(cp.from_char(u), Some(b));
            }
        }
    }
}

#[test]
fn to_char_is_from_char_inverse() {
    let samples = (0u32..0x1_0400).chain([0x1_F600, 0x10_FFFF]);
    let cps = known_code_pages();
    for v in samples {
        if let Some(c) = char::from_u32(v) {
            for (_, _, cp) in &cps {
                if let Some(b) = cp.from_char(c) {
                    assert_eq!(cp.to_char(b), Some(c));
                }
            }
        }
    }
}

#[test]
fn symbols_outside_the_table_are_not_found() {
    for (_, table, cp) in known_code_pages() {
        for v in 0x80u32..0x1_0000 {
            if let Some(c) = char::from_u32(v) {
                if !table.contains(&c) {
                    assert_eq!(cp.from_char(c), None, "{:X}", v);
                }
            }
        }
    }
}

#[test]
fn greek_alpha_in_code_page_437() {
    let cp = CodePage::generate(437).unwrap();
    assert_eq!(cp.to_char(0xE0), Some('\u{03B1}'));
    assert_eq!(cp.from_char('\u{03B1}'), Some(0xE0));
}

#[test]
fn upper_half_byte_decodes_from_table() {
    let cp = CodePage::generate(437).unwrap();
    assert_eq!(cp.to_char(0x80), Some('\u{00C7}'));
    assert_eq!(cp.to_char(0xFF), Some('\u{00A0}'));
    assert_eq!(cp.from_char('\u{00C7}'), Some(0x80));
}

#[test]
fn placeholder_byte_has_no_character() {
    let cp = CodePage::generate(857).unwrap();
    assert_eq!(cp.to_char(0x80 + 85), None);
    assert_eq!(cp.to_char(0x80 + 103), None);
    assert_eq!(cp.to_char(0x80 + 114), None);
    assert_eq!(cp.to_char(0x80 + 84), Some('\u{00C8}'));
}

#[test]
fn chars_above_sixteen_bits_are_never_found() {
    for (_, _, cp) in known_code_pages() {
        assert_eq!(cp.from_char('\u{10000}'), None);
        assert_eq!(cp.from_char('\u{1F600}'), None);
        assert_eq!(cp.from_char('\u{10FFFF}'), None);
    }
}

#[test]
fn empty_first_slot_does_not_end_reverse_search() {
    let mut bytes = [0u8; 512];
    for b in &mut bytes[256..510] {
        *b = 0x80;
    }
    bytes[0] = 0x00;
    bytes[1] = 0xC7;
    let bucket = 0xC7 & 0x7F;
    bytes[256 + 2 * bucket + 1] = 0;
    let cp = CodePage(bytes);
    assert_eq!(cp.from_char('\u{00C7}'), Some(0x80));
    assert_eq!(cp.to_char(0x80), Some('\u{00C7}'));
    assert_eq!(cp.from_char('\u{00C8}'), None);
    assert_eq!(cp.from_char('A'), Some(b'A'));
}

#[test]
fn all_empty_buckets_find_nothing() {
    let mut bytes = [0u8; 512];
    for b in &mut bytes[256..510] {
        *b = 0x80;
    }
    let cp = CodePage(bytes);
    assert_eq!(cp.from_char('\u{00C7}'), None);
    assert_eq!(cp.to_char(0x80), None);
}

#[test]
fn surrogate_code_in_forward_slot_is_no_character() {
    let mut bytes = [0u8; 512];
    bytes[0] = 0xD8;
    bytes[1] = 0x00;
    let cp = CodePage(bytes);
    assert_eq!(cp.to_char(0x80), None);
}

#[test]
fn degree_sign_in_code_page_852() {
    let cp = CodePage::generate(852).unwrap();
    assert_eq!(cp.to_char(0xF8), Some('\u{00B0}'));
    assert_eq!(cp.from_char('\u{00B0}'), Some(0xF8));
}

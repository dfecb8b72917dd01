use dos_cp::builder::build;
use dos_cp::search::{at_most_two_per_bucket, find_hash, find_hash_param, find_mask, varying_bits};
use dos_cp::tables::{table_from_text, CP437, CP857, CP866};

fn real_symbols(text: &str) -> Vec<char> {
    text.chars().filter(|&c| c != '?').collect()
}

#[test]
fn varying_bits_of_two_letters() {
    let bits = varying_bits(&['A', 'C']);
    assert_eq!(bits.as_slice(), &[1]);
    let bits = varying_bits(&['A', 'A']);
    assert!(bits.is_empty());
}

#[test]
fn varying_bits_of_code_page_857() {
    let bits = varying_bits(&real_symbols(CP857));
    assert_eq!(bits.as_slice(), &[0, 1, 2, 3, 4, 5, 6, 7, 8, 10, 13]);
}

#[test]
fn first_spreading_parameters_are_found() {
    assert_eq!(find_hash(&real_symbols(CP437)), Some((40, 6, 6)));
    assert_eq!(find_hash(&real_symbols(CP857)), Some((0, 4, 0)));
    assert_eq!(find_hash(&real_symbols(CP866)), Some((2, 2, 2)));
    assert_eq!(find_hash(&['A', 'B', 'C', 'D']), Some((0, 1, 0)));
}

#[test]
fn zero_shift_puts_everything_in_one_bucket() {
    let symbols = real_symbols(CP437);
    assert!(!at_most_two_per_bucket(&symbols, 0, 0, 0));
    assert!(at_most_two_per_bucket(&symbols, 40, 6, 6));
    assert!(at_most_two_per_bucket(&['A', 'A'], 0, 0, 0));
    assert!(!at_most_two_per_bucket(&['A', 'A', 'A'], 0, 0, 0));
}

#[test]
fn empty_table_spreads_under_first_parameters() {
    assert_eq!(find_hash(&[]), Some((0, 0, 0)));
}

#[test]
fn best_mask_of_code_page_857() {
    assert_eq!(find_mask(&real_symbols(CP857)), Some(0x7F));
}

#[test]
fn best_mask_of_code_page_437() {
    assert_eq!(find_mask(&real_symbols(CP437)), Some(0x7F));
}

#[test]
fn mask_needs_seven_varying_bits() {
    let symbols: Vec<char> = (0x80u32..0x100).filter_map(char::from_u32).collect();
    assert_eq!(varying_bits(&symbols).len(), 7);
    assert_eq!(find_mask(&symbols), Some(0x7F));
}

#[test]
fn smallest_runtime_parameter_is_found() {
    for (text, expected) in [(CP437, 7805), (CP857, 238), (CP866, 920)] {
        let table = table_from_text(text).unwrap();
        assert_eq!(find_hash_param(&table), Some(expected));
        let cp = build(&table, expected).unwrap();
        for b in 0u8..=255 {
            if let Some(c) = cp.to_char(b) {
                assert_eq!(cp.from_char(c), Some(b));
            }
        }
        assert!(build(&table, expected - 1).is_none());
    }
}

#[test]
fn symbol_repeated_three_times_has_no_parameter() {
    let mut table = ['?'; 128];
    table[0] = '\u{00E9}';
    table[1] = '\u{00E9}';
    table[2] = '\u{00E9}';
    assert_eq!(find_hash_param(&table), None);
}

#[test]
fn table_of_placeholders_takes_parameter_zero() {
    assert_eq!(find_hash_param(&['?'; 128]), Some(0));
}

#[test]
fn reserved_bucket_must_stay_empty() {
    assert!(!at_most_two_per_bucket(&['U'], 0, 1, 0));
    assert!(at_most_two_per_bucket(&['U'], 0, 0, 0));
    assert_eq!(find_hash(&['U']), Some((0, 0, 0)));
}

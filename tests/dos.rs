use dos_cp::builder::CodePageGenExt;
use dos_cp::code_page::CodePage;
use dos_cp::dos::{
    check_code_page_number, check_dos_version, code_page_file_name, file_read_progress,
    key_from_extended_read, last_chance_output, next_file_read, CodePageLoadError, FileProgress,
    FileRead, KeyRead, CODE_PAGE_PARAGRAPHS,
};
use either::Either;

#[test]
fn dos_version_must_be_at_least_three_thirty() {
    assert!(check_dos_version(3, 30).is_ok());
    assert!(check_dos_version(4, 0).is_ok());
    assert!(check_dos_version(7, 10).is_ok());
    assert!(matches!(check_dos_version(3, 29), Err(CodePageLoadError::Dos33Required)));
    assert!(matches!(check_dos_version(2, 99), Err(CodePageLoadError::Dos33Required)));
}

#[test]
fn code_page_number_has_three_digits() {
    assert!(check_code_page_number(100).is_ok());
    assert!(check_code_page_number(999).is_ok());
    assert!(matches!(
        check_code_page_number(99),
        Err(CodePageLoadError::UnsupportedCodePage { code_page: 99 })
    ));
    assert!(matches!(
        check_code_page_number(1000),
        Err(CodePageLoadError::UnsupportedCodePage { code_page: 1000 })
    ));
}

#[test]
fn code_page_file_is_named_by_number() {
    assert_eq!(&code_page_file_name(852), b"CODEPAGE\\852\0");
    assert_eq!(&code_page_file_name(100), b"CODEPAGE\\100\0");
}

#[test]
fn code_page_fits_in_thirty_two_paragraphs() {
    assert_eq!(CODE_PAGE_PARAGRAPHS, 32);
}

#[test]
fn file_must_hold_exactly_one_code_page() {
    assert!(matches!(next_file_read(0), FileRead::Fill { offset: 0 }));
    assert!(matches!(next_file_read(300), FileRead::Fill { offset: 300 }));
    assert!(matches!(next_file_read(512), FileRead::CheckEnd));
    assert!(matches!(file_read_progress(0, 300), FileProgress::Continue { filled: 300 }));
    assert!(matches!(file_read_progress(300, 212), FileProgress::Continue { filled: 512 }));
    assert!(matches!(file_read_progress(300, 0), FileProgress::Invalid));
    assert!(matches!(file_read_progress(512, 0), FileProgress::Complete));
    assert!(matches!(file_read_progress(512, 1), FileProgress::Invalid));
}

#[test]
fn load_error_names_its_code_page() {
    assert_eq!(CodePageLoadError::Dos33Required.code_page(), None);
    assert_eq!(CodePageLoadError::CanNotAlloc { err_code: 8 }.code_page(), None);
    assert_eq!(CodePageLoadError::CanNotGetSelectedCodePage { err_code: 1 }.code_page(), None);
    assert_eq!(CodePageLoadError::UnsupportedCodePage { code_page: 5 }.code_page(), Some(5));
    assert_eq!(
        CodePageLoadError::CanNotOpenCodePageFile { code_page: 852, err_code: 2 }.code_page(),
        Some(852)
    );
    assert_eq!(
        CodePageLoadError::CanNotReadCodePageFile { code_page: 866, err_code: 5 }.code_page(),
        Some(866)
    );
    assert_eq!(CodePageLoadError::InvalidCodePageFile { code_page: 437 }.code_page(), Some(437));
}

#[test]
fn keys_are_read_through_the_code_page() {
    let cp = CodePage::generate(437).unwrap();
    assert!(matches!(cp.key_from_first_read(None), KeyRead::Done(None)));
    assert!(matches!(cp.key_from_first_read(Some(0)), KeyRead::Extended));
    assert!(matches!(cp.key_from_first_read(Some(b' ')), KeyRead::Done(Some(Either::Right(' ')))));
    assert!(matches!(
        cp.key_from_first_read(Some(0xE0)),
        KeyRead::Done(Some(Either::Right('\u{03B1}')))
    ));
    assert!(matches!(key_from_extended_read(Some(0x48)), Ok(Some(Either::Left(0x48)))));
    assert!(key_from_extended_read(None).is_err());
}

#[test]
fn unmapped_key_byte_reads_as_nothing() {
    let cp = CodePage::generate(857).unwrap();
    assert!(matches!(cp.key_from_first_read(Some(0x80 + 85)), KeyRead::Done(None)));
}

#[test]
fn characters_are_written_through_the_code_page() {
    let cp = CodePage::generate(437).unwrap();
    assert_eq!(cp.char_output('A'), vec![b'A']);
    assert_eq!(cp.char_output('\u{03B1}'), vec![0xE0]);
    assert_eq!(cp.char_output('\u{4E00}'), vec![b'?']);
    assert_eq!(cp.char_output('\n'), vec![b'\r', b'\n']);
    assert_eq!(cp.char_output('\r'), Vec::<u8>::new());
}

#[test]
fn text_is_written_with_crlf_line_ends() {
    let cp = CodePage::generate(437).unwrap();
    let text: Vec<char> = "a\u{03B1}\nb\r\u{4E00}".chars().collect();
    assert_eq!(cp.text_output(&text), vec![b'a', 0xE0, b'\r', b'\n', b'b', b'\r', b'?']);
    assert_eq!(cp.text_output(&[]), Vec::<u8>::new());
}

#[test]
fn last_chance_writer_keeps_to_ascii() {
    assert_eq!(last_chance_output('A'), vec![b'A']);
    assert_eq!(last_chance_output('\n'), vec![b'\r', b'\n']);
    assert_eq!(last_chance_output('\r'), vec![b'?']);
    assert_eq!(last_chance_output('\u{00E9}'), vec![b'?']);
    assert_eq!(last_chance_output('\u{7F}'), vec![0x7F]);
}

#[test]
fn load_errors_read_as_sentences() {
    assert_eq!(CodePageLoadError::Dos33Required.message(), "DOS >= 3.3 reequired");
    assert_eq!(
        CodePageLoadError::CanNotAlloc { err_code: 8 }.message(),
        "cannot allocate real-mode memory for code page (0008h)"
    );
    assert_eq!(
        CodePageLoadError::CanNotGetSelectedCodePage { err_code: 0xAB1 }.message(),
        "cannon get selected code page (0AB1h)"
    );
    assert_eq!(CodePageLoadError::UnsupportedCodePage { code_page: 5 }.message(), "unsupported code page 5");
    assert_eq!(
        CodePageLoadError::CanNotOpenCodePageFile { code_page: 852, err_code: 2 }.message(),
        "cannot open code page file 'CODEPAGE\\852' (0002h)"
    );
    assert_eq!(
        CodePageLoadError::CanNotReadCodePageFile { code_page: 866, err_code: 0xFFFF }.message(),
        "cannot read code page file 'CODEPAGE\\866' (FFFFh)"
    );
    assert_eq!(
        CodePageLoadError::InvalidCodePageFile { code_page: 1000 }.message(),
        "invalid code page file 'CODEPAGE\\1000'"
    );
}

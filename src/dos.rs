//! The decisions around loading the active code page under DOS, reading keys
//! and writing text; the DOS calls themselves are made by the caller.

use either::Either;
use vstd::prelude::*;
use vstd::string::{StrSliceExecFns, StringExecFns};

use crate::code_page::{CodePage, spec_from_char, spec_to_char};

verus! {

/// `either::Either`, one of two values; its two variants are public.
#[verifier::external_type_specification]
#[verifier::reject_recursive_types(L)]
#[verifier::reject_recursive_types(R)]
pub struct ExEither<L, R>(Either<L, R>);

/// The byte written for a character that cannot be shown: `?`.
pub const REPLACEMENT: u8 = 0x3F;

/// Carriage return.
pub const CR: u8 = 0x0D;

/// Line feed.
pub const LF: u8 = 0x0A;

/// The digit `0`.
pub const DIGIT_ZERO: u8 = 0x30;

/// Size in bytes of a code page file.
pub const CODE_PAGE_SIZE: usize = 512;

/// Size of a code page in 16-byte paragraphs, as DOS allocates memory.
pub const CODE_PAGE_PARAGRAPHS: u16 = (512 + 15) / 16;

/// Why the active code page could not be loaded.
pub enum CodePageLoadError {
    Dos33Required,
    CanNotAlloc { err_code: u16 },
    CanNotGetSelectedCodePage { err_code: u16 },
    UnsupportedCodePage { code_page: u16 },
    CanNotOpenCodePageFile { code_page: u16, err_code: u16 },
    CanNotReadCodePageFile { code_page: u16, err_code: u16 },
    InvalidCodePageFile { code_page: u16 },
}

impl CodePageLoadError {
    /// The code page number the error is about, where there is one.
    pub open spec fn spec_code_page(&self) -> Option<u16> {
        match *self {
            CodePageLoadError::Dos33Required => None,
            CodePageLoadError::CanNotAlloc { .. } => None,
            CodePageLoadError::CanNotGetSelectedCodePage { .. } => None,
            CodePageLoadError::UnsupportedCodePage { code_page } => Some(code_page),
            CodePageLoadError::CanNotOpenCodePageFile { code_page, .. } => Some(code_page),
            CodePageLoadError::CanNotReadCodePageFile { code_page, .. } => Some(code_page),
            CodePageLoadError::InvalidCodePageFile { code_page } => Some(code_page),
        }
    }

    /// The code page number the error is about, where there is one.
    pub fn code_page(&self) -> (r: Option<u16>)
        ensures
            r == self.spec_code_page(),
    {
        match self {
            CodePageLoadError::Dos33Required => None,
            CodePageLoadError::CanNotAlloc { .. } => None,
            CodePageLoadError::CanNotGetSelectedCodePage { .. } => None,
            CodePageLoadError::UnsupportedCodePage { code_page } => Some(*code_page),
            CodePageLoadError::CanNotOpenCodePageFile { code_page, .. } => Some(*code_page),
            CodePageLoadError::CanNotReadCodePageFile { code_page, .. } => Some(*code_page),
            CodePageLoadError::InvalidCodePageFile { code_page } => Some(*code_page),
        }
    }
}

/// The character of the hex digit `d` (`0 <= d < 16`), upper-case.
pub open spec fn hex_digit(d: int) -> char {
    if d < 10 {
        ((48 + d) as u8) as char
    } else {
        ((55 + d) as u8) as char
    }
}

/// `x` as four upper-case hex digits.
pub open spec fn spec_hex4(x: u16) -> Seq<char> {
    seq![
        hex_digit(x as int / 4096),
        hex_digit((x as int / 256) % 16),
        hex_digit((x as int / 16) % 16),
        hex_digit(x as int % 16),
    ]
}

/// `n` in decimal, without leading zeros.
pub open spec fn spec_decimal(n: nat) -> Seq<char>
    decreases n,
{
    if n < 10 {
        seq![((48 + n) as u8) as char]
    } else {
        spec_decimal(n / 10).push(((48 + n % 10) as u8) as char)
    }
}

/// The one-character text of the hex digit `d`.
fn digit_text(d: u16) -> (r: &'static str)
    requires
        d < 16,
    ensures
        r@ == seq![hex_digit(d as int)],
{
    let digits = "0123456789ABCDEF";
    proof {
        reveal_strlit("0123456789ABCDEF");
        assert(digits@ =~= Seq::new(16, |k: int| hex_digit(k)));
    }
    let r = digits.substring_char(d as usize, d as usize + 1);
    assert(r@ =~= seq![hex_digit(d as int)]);
    r
}

/// `x` as four upper-case hex digits.
fn hex4(x: u16) -> (r: String)
    ensures
        r@ == spec_hex4(x),
{
    let mut r = String::new();
    r.append(digit_text(x / 4096));
    r.append(digit_text((x / 256) % 16));
    r.append(digit_text((x / 16) % 16));
    r.append(digit_text(x % 16));
    assert(r@ =~= spec_hex4(x));
    r
}

/// `x` in decimal.
fn decimal(x: u16) -> (r: String)
    ensures
        r@ == spec_decimal(x as nat),
    decreases x,
{
    if x < 10 {
        let mut r = String::new();
        r.append(digit_text(x));
        assert(r@ =~= spec_decimal(x as nat));
        r
    } else {
        let mut r = decimal(x / 10);
        r.append(digit_text(x % 10));
        assert(r@ =~= spec_decimal(x as nat));
        r
    }
}

impl CodePageLoadError {
    /// What the error says, in words.
    pub open spec fn spec_message(&self) -> Seq<char> {
        match *self {
            CodePageLoadError::Dos33Required => "DOS >= 3.3 reequired"@,
            CodePageLoadError::CanNotAlloc { err_code } => "cannot allocate real-mode memory for code page ("@
                + spec_hex4(err_code) + "h)"@,
            CodePageLoadError::CanNotGetSelectedCodePage { err_code } => "cannon get selected code page ("@
                + spec_hex4(err_code) + "h)"@,
            CodePageLoadError::UnsupportedCodePage { code_page } => "unsupported code page "@
                + spec_decimal(code_page as nat),
            CodePageLoadError::CanNotOpenCodePageFile { code_page, err_code } =>
                "cannot open code page file 'CODEPAGE\\"@ + spec_decimal(code_page as nat) + "' ("@
                + spec_hex4(err_code) + "h)"@,
            CodePageLoadError::CanNotReadCodePageFile { code_page, err_code } =>
                "cannot read code page file 'CODEPAGE\\"@ + spec_decimal(code_page as nat) + "' ("@
                + spec_hex4(err_code) + "h)"@,
            CodePageLoadError::InvalidCodePageFile { code_page } =>
                "invalid code page file 'CODEPAGE\\"@ + spec_decimal(code_page as nat) + "'"@,
        }
    }

    /// What the error says, in words.
    pub fn message(&self) -> (r: String)
        ensures
            r@ == self.spec_message(),
    {
        let mut r = String::new();
        match self {
            CodePageLoadError::Dos33Required => {
                r.append("DOS >= 3.3 reequired");
            },
            CodePageLoadError::CanNotAlloc { err_code } => {
                r.append("cannot allocate real-mode memory for code page (");
                r.append(hex4(*err_code).as_str());
                r.append("h)");
            },
            CodePageLoadError::CanNotGetSelectedCodePage { err_code } => {
                r.append("cannon get selected code page (");
                r.append(hex4(*err_code).as_str());
                r.append("h)");
            },
            CodePageLoadError::UnsupportedCodePage { code_page } => {
                r.append("unsupported code page ");
                r.append(decimal(*code_page).as_str());
            },
            CodePageLoadError::CanNotOpenCodePageFile { code_page, err_code } => {
                r.append("cannot open code page file 'CODEPAGE\\");
                r.append(decimal(*code_page).as_str());
                r.append("' (");
                r.append(hex4(*err_code).as_str());
                r.append("h)");
            },
            CodePageLoadError::CanNotReadCodePageFile { code_page, err_code } => {
                r.append("cannot read code page file 'CODEPAGE\\");
                r.append(decimal(*code_page).as_str());
                r.append("' (");
                r.append(hex4(*err_code).as_str());
                r.append("h)");
            },
            CodePageLoadError::InvalidCodePageFile { code_page } => {
                r.append("invalid code page file 'CODEPAGE\\");
                r.append(decimal(*code_page).as_str());
                r.append("'");
            },
        }
        r
    }
}

/// Code pages can be switched from DOS 3.30 on.
pub fn check_dos_version(major: u8, minor: u8) -> (r: Result<(), CodePageLoadError>)
    ensures
        r is Ok <==> (major > 3 || (major == 3 && minor >= 30)),
        r is Err ==> r == Err::<(), CodePageLoadError>(CodePageLoadError::Dos33Required),
{
    if major < 3 || major == 3 && minor < 30 {
        Err(CodePageLoadError::Dos33Required)
    } else {
        Ok(())
    }
}

/// Code page files are named by three-digit numbers.
pub fn check_code_page_number(code_page: u16) -> (r: Result<(), CodePageLoadError>)
    ensures
        r is Ok <==> 100 <= code_page <= 999,
        r is Err ==> r == Err::<(), CodePageLoadError>(
            CodePageLoadError::UnsupportedCodePage { code_page },
        ),
{
    if 100 <= code_page && code_page <= 999 {
        Ok(())
    } else {
        Err(CodePageLoadError::UnsupportedCodePage { code_page })
    }
}

/// The NUL-terminated path `CODEPAGE\nnn` of the file for a code page.
pub open spec fn spec_code_page_file_name(code_page: u16) -> Seq<u8> {
    // `CODEPAGE\`
    seq![
        0x43u8, 0x4Fu8, 0x44u8, 0x45u8, 0x50u8, 0x41u8, 0x47u8, 0x45u8, 0x5Cu8,
        (DIGIT_ZERO + code_page / 100) as u8,
        (DIGIT_ZERO + (code_page % 100) / 10) as u8,
        (DIGIT_ZERO + code_page % 10) as u8,
        0u8,
    ]
}

/// The NUL-terminated path of the file holding a code page.
pub fn code_page_file_name(code_page: u16) -> (r: [u8; 13])
    requires
        100 <= code_page <= 999,
    ensures
        r@ == spec_code_page_file_name(code_page),
{
    // `CODEPAGE\`
    let r = [
        0x43u8,
        0x4Fu8,
        0x44u8,
        0x45u8,
        0x50u8,
        0x41u8,
        0x47u8,
        0x45u8,
        0x5Cu8,
        DIGIT_ZERO + (code_page / 100) as u8,
        DIGIT_ZERO + ((code_page % 100) / 10) as u8,
        DIGIT_ZERO + (code_page % 10) as u8,
        0,
    ];
    assert(r@ =~= spec_code_page_file_name(code_page));
    r
}

/// What to read next from a code page file.
pub enum FileRead {
    /// Read into the code page buffer from this offset to its end.
    Fill { offset: usize },
    /// The buffer is full: read one byte more to check that the file ends.
    CheckEnd,
}

/// What a read from a code page file leads to.
pub enum FileProgress {
    /// The buffer now holds this many bytes: read on.
    Continue { filled: usize },
    /// The file held exactly one code page.
    Complete,
    /// The file is shorter or longer than a code page.
    Invalid,
}

/// The read to make once `filled` bytes of the code page are in.
pub fn next_file_read(filled: usize) -> (r: FileRead)
    requires
        filled <= CODE_PAGE_SIZE,
    ensures
        filled == CODE_PAGE_SIZE ==> r is CheckEnd,
        filled < CODE_PAGE_SIZE ==> r == (FileRead::Fill { offset: filled }),
{
    if filled == CODE_PAGE_SIZE {
        FileRead::CheckEnd
    } else {
        FileRead::Fill { offset: filled }
    }
}

/// Where a read of `read` bytes leaves the loading of a code page file, when
/// `filled` bytes were in before it: a file must end right after the code
/// page.
pub fn file_read_progress(filled: usize, read: usize) -> (r: FileProgress)
    requires
        filled <= CODE_PAGE_SIZE,
        filled < CODE_PAGE_SIZE ==> read <= CODE_PAGE_SIZE - filled,
    ensures
        filled == CODE_PAGE_SIZE ==> (r is Complete <==> read == 0) && (r is Invalid <==> read
            != 0),
        filled < CODE_PAGE_SIZE && read == 0 ==> r is Invalid,
        filled < CODE_PAGE_SIZE && read != 0 ==> r == (FileProgress::Continue {
            filled: (filled + read) as usize,
        }),
{
    if filled == CODE_PAGE_SIZE {
        if read != 0 {
            FileProgress::Invalid
        } else {
            FileProgress::Complete
        }
    } else if read == 0 {
        FileProgress::Invalid
    } else {
        FileProgress::Continue { filled: filled + read }
    }
}

/// Reading a key failed.
#[derive(Debug)]
pub struct InkeyErr;

/// What the first byte of a key read from DOS leads to.
pub enum KeyRead {
    /// The key is complete.
    Done(Option<Either<u8, char>>),
    /// A zero byte: the key is extended and its code follows in a second read.
    Extended,
}

/// The bytes that one character of a text stands for: a line feed ends
/// a line with CR LF.
pub open spec fn spec_text_piece(cp: CodePage, c: char) -> Seq<u8> {
    if c == '\n' {
        seq![CR, LF]
    } else {
        seq![cp.spec_output_byte(c)]
    }
}

/// The bytes that a text is written as.
pub open spec fn spec_text_output(cp: CodePage, text: Seq<char>) -> Seq<u8>
    decreases text.len(),
{
    if text.len() == 0 {
        Seq::empty()
    } else {
        spec_text_output(cp, text.drop_last()) + spec_text_piece(cp, text.last())
    }
}

impl CodePage {
    /// The bytes that writing `text` sends: each character through this code
    /// page, `?` where it has none, and each line feed as CR LF.
    pub fn text_output(&self, text: &[char]) -> (r: Vec<u8>)
        ensures
            r@ == spec_text_output(*self, text@),
    {
        let mut out: Vec<u8> = Vec::new();
        let mut i: usize = 0;
        while i < text.len()
            invariant
                i <= text@.len(),
                out@ == spec_text_output(*self, text@.subrange(0, i as int)),
            decreases text@.len() - i,
        {
            let c = text[i];
            let ghost before = out@;
            if c == '\n' {
                out.push(CR);
                out.push(LF);
            } else {
                out.push(self.output_byte(c));
            }
            proof {
                let prefix = text@.subrange(0, i + 1);
                assert(prefix.drop_last() =~= text@.subrange(0, i as int));
                assert(prefix.last() == c);
                assert(out@ =~= before + spec_text_piece(*self, c));
            }
            i += 1;
        }
        assert(text@.subrange(0, text@.len() as int) =~= text@);
        out
    }

    /// The key read so far: no key, an extended key whose code is still to be
    /// read, or a character through this code page.
    pub fn key_from_first_read(&self, first: Option<u8>) -> (r: KeyRead)
        ensures
            first is None ==> r == KeyRead::Done(None),
            first == Some(0u8) ==> r is Extended,
            first is Some && first->0 != 0 ==> r == KeyRead::Done(
                match spec_to_char(self.0@, first->0) {
                    Some(x) => Some(Either::<u8, char>::Right(x)),
                    None => None,
                },
            ),
    {
        match first {
            None => KeyRead::Done(None),
            Some(0) => KeyRead::Extended,
            Some(c) => KeyRead::Done(
                match self.to_char(c) {
                    Some(x) => Some(Either::Right(x)),
                    None => None,
                },
            ),
        }
    }

    /// The byte that character `c` is written as: `?` where this code page
    /// has none.
    pub open spec fn spec_output_byte(&self, c: char) -> u8 {
        match spec_from_char(self.0@, c) {
            Some(b) => b,
            None => REPLACEMENT,
        }
    }

    fn output_byte(&self, c: char) -> (r: u8)
        ensures
            r == self.spec_output_byte(c),
    {
        match self.from_char(c) {
            Some(b) => b,
            None => REPLACEMENT,
        }
    }

    /// The bytes that writing character `c` sends: a carriage return is
    /// dropped and a line feed becomes CR LF.
    pub open spec fn spec_char_output(&self, c: char) -> Seq<u8> {
        let b = self.spec_output_byte(c);
        if b == CR {
            Seq::empty()
        } else if b == LF {
            seq![CR, LF]
        } else {
            seq![b]
        }
    }

    /// The bytes that writing character `c` sends.
    pub fn char_output(&self, c: char) -> (r: Vec<u8>)
        ensures
            r@ == self.spec_char_output(c),
    {
        let b = self.output_byte(c);
        if b == CR {
            Vec::new()
        } else if b == LF {
            let r = vec![CR, LF];
            assert(r@ =~= seq![CR, LF]);
            r
        } else {
            let r = vec![b];
            assert(r@ =~= seq![b]);
            r
        }
    }
}

/// The second read of an extended key: its code, or an error where no key
/// came.
pub fn key_from_extended_read(second: Option<u8>) -> (r: Result<Option<Either<u8, char>>, InkeyErr>)
    ensures
        second matches Some(c) ==> r == Ok::<Option<Either<u8, char>>, InkeyErr>(
            Some(Either::<u8, char>::Left(c)),
        ),
        second is None ==> r is Err,
{
    match second {
        Some(c) => Ok(Some(Either::Left(c))),
        None => Err(InkeyErr),
    }
}

/// The bytes that the last-resort writer sends for `c`: ASCII but a carriage
/// return as is, anything else as `?`, and a line feed as CR LF.
pub open spec fn spec_last_chance_output(c: char) -> Seq<u8> {
    let b = if c as u32 > 0x7F || c == '\r' {
        REPLACEMENT
    } else {
        c as u8
    };
    if b == LF {
        seq![CR, LF]
    } else {
        seq![b]
    }
}

/// The bytes that the last-resort writer, which needs no code page, sends
/// for `c`.
pub fn last_chance_output(c: char) -> (r: Vec<u8>)
    ensures
        r@ == spec_last_chance_output(c),
{
    let v = c as u32;
    let b = if v > 0x7F || c == '\r' {
        REPLACEMENT
    } else {
        v as u8
    };
    if b == LF {
        let r = vec![CR, LF];
        assert(r@ =~= seq![CR, LF]);
        r
    } else {
        let r = vec![b];
        assert(r@ =~= seq![b]);
        r
    }
}

} // verus!

//! The operations that are taken from the standard library as they are.

use vstd::prelude::*;

verus! {

/// What `str::to_lowercase` makes of a text.
pub uninterp spec fn lowercased(s: Seq<char>) -> Seq<char>;

/// What `String::from_utf8_lossy` makes of a sequence of bytes.
pub uninterp spec fn lossy_text(bytes: Seq<u8>) -> Seq<char>;

/// What the error of `u8::from_str_radix` says of a text that is no number of
/// the given base.
pub uninterp spec fn number_failure(s: Seq<char>, radix: u32) -> Seq<char>;

/// An ASCII letter in lower case; any other character as it is.
pub open spec fn ascii_lower(c: char) -> char {
    if 'A' <= c <= 'Z' {
        (c as u32 + 32) as char
    } else {
        c
    }
}

/// A text with its ASCII letters in lower case.
pub open spec fn ascii_lowered(s: Seq<char>) -> Seq<char> {
    s.map_values(|c: char| ascii_lower(c))
}

/// A text in lower case: letter by letter where it is ASCII, else as
/// `str::to_lowercase` has it.
pub open spec fn lowered(s: Seq<char>) -> Seq<char> {
    if vstd::utf8::is_ascii_chars(s) {
        ascii_lowered(s)
    } else {
        lowercased(s)
    }
}

/// The value of a character as a digit; 36 if it is a digit of no base.
pub open spec fn digit_value(c: char) -> int {
    if '0' <= c <= '9' {
        c as int - '0' as int
    } else if 'a' <= c <= 'z' {
        c as int - 'a' as int + 10
    } else if 'A' <= c <= 'Z' {
        c as int - 'A' as int + 10
    } else {
        36
    }
}

/// Whether `s` is made of digits of the given base, one at least.
pub open spec fn is_number(s: Seq<char>, radix: int) -> bool {
    s.len() > 0 && forall|i: int| 0 <= i < s.len() ==> digit_value(#[trigger] s[i]) < radix
}

/// The number that a sequence of digits of the given base writes.
pub open spec fn number_value(s: Seq<char>, radix: int) -> int
    decreases s.len(),
{
    if s.len() == 0 {
        0
    } else {
        number_value(s.drop_last(), radix) * radix + digit_value(s.last())
    }
}

/// `s` without the plus sign it may start with.
pub open spec fn without_plus(s: Seq<char>) -> Seq<char> {
    if s.len() > 0 && s[0] == '+' {
        s.drop_first()
    } else {
        s
    }
}

/// The byte that `s` writes in the given base: an optional plus sign, then
/// digits only, for a number that fits.
pub open spec fn byte_value(s: Seq<char>, radix: int) -> Option<u8> {
    let digits = without_plus(s);
    if is_number(digits, radix) && number_value(digits, radix) <= u8::MAX {
        Some(number_value(digits, radix) as u8)
    } else {
        None
    }
}

/// The byte that `s` writes in the given base, or what its error says.
pub open spec fn byte_or_failure(s: Seq<char>, radix: u32) -> Result<u8, Seq<char>> {
    match byte_value(s, radix as int) {
        Some(b) => Ok(b),
        None => Err(number_failure(s, radix)),
    }
}

/// `str::to_lowercase`. The result is a function of the text, and on a text of
/// ASCII characters it is the text with each letter in lower case. What it is
/// on other characters is left to Unicode.
#[verifier::external_body]
pub(crate) fn to_lowercase(s: &str) -> (lower: String)
    ensures
        lower@ == lowercased(s@),
        vstd::utf8::is_ascii_chars(s@) ==> lower@ == ascii_lowered(s@),
{
    s.to_lowercase()
}

/// `String::from_utf8_lossy`. The result is a function of the bytes, and on
/// valid UTF-8 it is the text that they encode. What stands for invalid bytes
/// is not stated.
#[verifier::external_body]
pub(crate) fn from_utf8_lossy(bytes: &[u8]) -> (text: String)
    ensures
        text@ == lossy_text(bytes@),
        vstd::utf8::valid_utf8(bytes@) ==> text@ == vstd::utf8::decode_utf8(bytes@),
{
    String::from_utf8_lossy(bytes).into_owned()
}

/// `u8::from_str_radix`, with its error as text. It succeeds on an optional
/// plus sign followed by digits of the base only, where the number fits in a
/// byte, and gives that number. What the error says is a function of the
/// arguments; its words are not stated.
#[verifier::external_body]
pub(crate) fn parse_u8(s: &str, radix: u32) -> (parsed: Result<u8, String>)
    requires
        2 <= radix <= 36,
    ensures
        match parsed {
            Ok(b) => byte_value(s@, radix as int) == Some(b),
            Err(e) => byte_value(s@, radix as int) is None && e@ == number_failure(s@, radix),
        },
{
    u8::from_str_radix(s, radix).map_err(|e| e.to_string())
}

/// Lower case keeps every character of an ASCII text but the capital letters, of
/// which each becomes the small letter; any other text is left to Unicode.
pub proof fn law_lowered(s: Seq<char>, i: int)
    ensures
        vstd::utf8::is_ascii_chars(s) ==> {
            &&& lowered(s).len() == s.len()
            &&& 0 <= i < s.len() && 'A' <= s[i] <= 'Z' ==> lowered(s)[i] as int == s[i] as int + 32
            &&& 0 <= i < s.len() && !('A' <= s[i] <= 'Z') ==> lowered(s)[i] == s[i]
        },
        !vstd::utf8::is_ascii_chars(s) ==> lowered(s) == lowercased(s),
{
}

/// A part of an address is the byte that it writes, or else what the error says
/// of it.
pub proof fn law_byte_or_failure(s: Seq<char>, radix: u32)
    ensures
        byte_value(s, radix as int) matches Some(b) ==> byte_or_failure(s, radix) == Ok::<
            u8,
            Seq<char>,
        >(b),
        byte_value(s, radix as int) is None ==> byte_or_failure(s, radix) == Err::<u8, Seq<char>>(
            number_failure(s, radix),
        ),
{
}

} // verus!

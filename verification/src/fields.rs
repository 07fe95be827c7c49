/*!
Validity rules for the individual fields of a locale identifier.

Each field of an identifier is constrained by a shape rule alone: the language
code is two lowercase letters, the territory code two uppercase letters, the
code set any non-blank string, and the modifier free-form. The spec functions
here state those rules over sequences of characters; the executable character
tests beside them are what the parser and the field setters run.
*/
use vstd::prelude::*;

verus! {

/// A lowercase ASCII letter, as allowed in a language code.
pub open spec fn is_lowercase_char(c: char) -> bool {
    'a' <= c && c <= 'z'
}

/// An uppercase ASCII letter, as allowed in a territory code.
pub open spec fn is_uppercase_char(c: char) -> bool {
    'A' <= c && c <= 'Z'
}

/// An ASCII decimal digit.
pub open spec fn is_digit_char(c: char) -> bool {
    '0' <= c && c <= '9'
}

/// A character allowed after the leading letter of a code set:
/// a letter, a digit, a hyphen or an underscore.
pub open spec fn is_code_set_char(c: char) -> bool {
    is_lowercase_char(c) || is_uppercase_char(c) || is_digit_char(c) || c == '-' || c == '_'
}

/// A word character, as allowed in a modifier read from a locale string:
/// a letter, a digit or an underscore.
pub open spec fn is_word_char(c: char) -> bool {
    is_lowercase_char(c) || is_uppercase_char(c) || is_digit_char(c) || c == '_'
}

/// A white-space character: one of the code points with the Unicode
/// `White_Space` property.
pub open spec fn is_whitespace_char(c: char) -> bool {
    ('\u{0009}' <= c && c <= '\u{000D}') || c == ' ' || c == '\u{0085}' || c == '\u{00A0}'
        || c == '\u{1680}' || ('\u{2000}' <= c && c <= '\u{200A}') || c == '\u{2028}'
        || c == '\u{2029}' || c == '\u{202F}' || c == '\u{205F}' || c == '\u{3000}'
}

/// A valid language code: exactly two characters, all lowercase letters.
pub open spec fn valid_language(s: Seq<char>) -> bool {
    s.len() == 2 && (forall|i: int| 0 <= i < s.len() ==> is_lowercase_char(#[trigger] s[i]))
}

/// A valid territory code: exactly two characters, all uppercase letters.
pub open spec fn valid_territory(s: Seq<char>) -> bool {
    s.len() == 2 && (forall|i: int| 0 <= i < s.len() ==> is_uppercase_char(#[trigger] s[i]))
}

/// A valid code set: at least one character that is not white space.
pub open spec fn valid_code_set(s: Seq<char>) -> bool {
    exists|i: int| 0 <= i < s.len() && !is_whitespace_char(#[trigger] s[i])
}

/// Whether `c` is a lowercase ASCII letter.
pub(crate) fn lowercase_char(c: char) -> (r: bool)
    ensures
        r == is_lowercase_char(c),
{
    let u = c as u32;
    97 <= u && u <= 122
}

/// Whether `c` is an uppercase ASCII letter.
pub(crate) fn uppercase_char(c: char) -> (r: bool)
    ensures
        r == is_uppercase_char(c),
{
    let u = c as u32;
    65 <= u && u <= 90
}

/// Whether `c` may stand after the leading letter of a code set.
pub(crate) fn code_set_char(c: char) -> (r: bool)
    ensures
        r == is_code_set_char(c),
{
    let u = c as u32;
    (97 <= u && u <= 122) || (65 <= u && u <= 90) || (48 <= u && u <= 57) || u == 45 || u == 95
}

/// Whether `c` is a word character.
pub(crate) fn word_char(c: char) -> (r: bool)
    ensures
        r == is_word_char(c),
{
    let u = c as u32;
    (97 <= u && u <= 122) || (65 <= u && u <= 90) || (48 <= u && u <= 57) || u == 95
}

/// Whether `c` has the Unicode `White_Space` property.
pub(crate) fn whitespace_char(c: char) -> (r: bool)
    ensures
        r == is_whitespace_char(c),
{
    let u = c as u32;
    (0x9 <= u && u <= 0xD) || u == 0x20 || u == 0x85 || u == 0xA0 || u == 0x1680
        || (0x2000 <= u && u <= 0x200A) || u == 0x2028 || u == 0x2029 || u == 0x202F
        || u == 0x205F || u == 0x3000
}

} // verus!

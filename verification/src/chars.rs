use vstd::prelude::*;

verus! {

// Character classes used by the lexers. The ASCII ranges are spelled out;
// only the non-ASCII part of Unicode classification is taken on trust from
// the standard library.

pub open spec fn spec_is_digit(c: char) -> bool {
    '0' <= c && c <= '9'
}

pub open spec fn spec_is_ascii_letter(c: char) -> bool {
    ('a' <= c && c <= 'z') || ('A' <= c && c <= 'Z')
}

pub open spec fn spec_is_ascii_alnum(c: char) -> bool {
    spec_is_digit(c) || spec_is_ascii_letter(c)
}

/// Whether a non-ASCII character counts as alphanumeric for identifiers.
pub uninterp spec fn unicode_alnum_nonascii(c: char) -> bool;

/// Whether a non-ASCII character counts as alphabetic. Every alphabetic
/// character also counts as alphanumeric, so the model carries both.
pub uninterp spec fn unicode_alpha_nonascii(c: char) -> bool;

/// Whether a non-ASCII character counts as whitespace.
pub uninterp spec fn unicode_space_nonascii(c: char) -> bool;

pub open spec fn spec_is_alnum(c: char) -> bool {
    if (c as u32) < 128 {
        spec_is_ascii_alnum(c)
    } else {
        unicode_alnum_nonascii(c)
    }
}

pub open spec fn spec_is_alpha(c: char) -> bool {
    if (c as u32) < 128 {
        spec_is_ascii_letter(c)
    } else {
        unicode_alpha_nonascii(c) && unicode_alnum_nonascii(c)
    }
}

pub open spec fn spec_is_space(c: char) -> bool {
    if (c as u32) < 128 {
        c == ' ' || ('\u{9}' <= c && c <= '\u{d}')
    } else {
        unicode_space_nonascii(c)
    }
}

pub fn is_digit(c: char) -> (r: bool)
    ensures
        r == spec_is_digit(c),
{
    '0' <= c && c <= '9'
}

pub fn is_ascii_letter(c: char) -> (r: bool)
    ensures
        r == spec_is_ascii_letter(c),
{
    ('a' <= c && c <= 'z') || ('A' <= c && c <= 'Z')
}

/// Relies on char::is_alphanumeric: true exactly for letters and numbers,
/// which on the ASCII range are the digits and the two letter ranges;
/// the classification depends on the character alone.
#[verifier::external_body]
pub(crate) fn is_alnum_char(c: char) -> (r: bool)
    ensures
        r == spec_is_alnum(c),
        (c as u32) >= 128 ==> r == unicode_alnum_nonascii(c),
{
    c.is_alphanumeric()
}

/// Relies on char::is_alphabetic: true exactly for letters, which on the
/// ASCII range are the two letter ranges, and every letter is also
/// alphanumeric; depends on the character alone.
#[verifier::external_body]
pub(crate) fn is_alpha_char(c: char) -> (r: bool)
    ensures
        r == spec_is_alpha(c),
        (c as u32) >= 128 && r ==> unicode_alpha_nonascii(c) && unicode_alnum_nonascii(c),
{
    c.is_alphabetic()
}

/// Relies on char::is_whitespace: true exactly for characters with the
/// White_Space property, which on the ASCII range are space and U+0009
/// through U+000D; depends on the character alone.
#[verifier::external_body]
pub(crate) fn is_space_char(c: char) -> (r: bool)
    ensures
        r == spec_is_space(c),
        (c as u32) >= 128 ==> r == unicode_space_nonascii(c),
{
    c.is_whitespace()
}

} // verus!

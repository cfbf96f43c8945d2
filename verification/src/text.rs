//! Small tools for text: ASCII lower case, comparison, and decimal digits.

use vstd::prelude::*;

verus! {

/// An upper-case ASCII letter in lower case, any other character as it is.
pub open spec fn lower_char(c: char) -> char {
    if 'A' <= c && c <= 'Z' {
        ((c as u32) + 32) as char
    } else {
        c
    }
}

/// A text with its ASCII letters in lower case.
pub open spec fn ascii_lower(text: Seq<char>) -> Seq<char> {
    Seq::new(text.len(), |i: int| lower_char(text[i]))
}

/// `str::to_ascii_lowercase`: the ASCII letters `A` to `Z` become `a` to
/// `z`, every other character stays.
#[verifier::external_body]
pub(crate) fn to_lower(text: &str) -> (out: String)
    ensures
        out@ == ascii_lower(text@),
{
    text.to_ascii_lowercase()
}

/// Whether a text is a given one.
pub fn is_text(text: &String, other: &str) -> (eq: bool)
    ensures
        eq == (text@ == other@),
{
    let other = String::from_str(other);
    *text == other
}

/// One of the digits `0` to `9`.
pub open spec fn is_digit(c: char) -> bool {
    48 <= c as u32 <= 57
}

/// A text of one or more of the digits `0` to `9`.
pub open spec fn is_digits(text: Seq<char>) -> bool {
    text.len() > 0 && forall|i: int| 0 <= i < text.len() ==> is_digit(#[trigger] text[i])
}

/// The number that a text of digits writes in decimal.
pub open spec fn decimal_value(text: Seq<char>) -> nat
    decreases text.len(),
{
    if text.len() == 0 {
        0
    } else {
        decimal_value(text.drop_last()) * 10 + (text.last() as u32 - 48) as nat
    }
}

/// Whether a text is one or more of the digits `0` to `9`.
pub fn all_digits(text: &str) -> (yes: bool)
    ensures
        yes == is_digits(text@),
{
    let count = text.unicode_len();
    if count == 0 {
        return false;
    }
    let mut i: usize = 0;
    while i < count
        invariant
            count == text@.len(),
            i <= count,
            forall|k: int| 0 <= k < i ==> is_digit(#[trigger] text@[k]),
        decreases count - i,
    {
        let c = text.get_char(i);
        if !(c as u32 >= 48 && c as u32 <= 57) {
            return false;
        }
        i = i + 1;
    }
    true
}

} // verus!

//! Which characters a label name may hold.

use vstd::prelude::*;

verus! {

/// Whether `ch` is an ASCII letter.
pub open spec fn is_letter(ch: char) -> bool {
    let c = ch as u32;
    (65 <= c <= 90) || (97 <= c <= 122)
}

/// Whether `ch` is an ASCII decimal digit.
pub open spec fn is_decimal_digit(ch: char) -> bool {
    let c = ch as u32;
    48 <= c <= 57
}

/// Whether a label name may start with `ch`: a letter or an underscore.
pub open spec fn label_start(ch: char) -> bool {
    is_letter(ch) || ch == '_'
}

/// Whether a label name may hold `ch` after its first character.
pub open spec fn label_char(ch: char) -> bool {
    is_letter(ch) || is_decimal_digit(ch) || ch == '_'
}

/// Returns whether a label name may start with `ch`.
pub fn can_start_with(ch: char) -> (r: bool)
    ensures
        r == label_start(ch),
{
    let c = ch as u32;
    ('A' as u32 <= c && c <= 'Z' as u32) || ('a' as u32 <= c && c <= 'z' as u32) || ch == '_'
}

/// Returns whether a label name may hold `ch` after its first character.
pub fn can_contain(ch: char) -> (r: bool)
    ensures
        r == label_char(ch),
{
    let c = ch as u32;
    can_start_with(ch) || ('0' as u32 <= c && c <= '9' as u32)
}

} // verus!

//! The names that a feature may carry.

use vstd::prelude::*;
use vstd::string::*;
use crate::text::chars_of;

verus! {

/// The longest name that a feature may carry, in characters.
pub const MAX_NAME_LENGTH: usize = 255;

/// The letters of the Latin alphabet, in either case.
pub open spec fn is_letter(c: char) -> bool {
    ('a' <= c && c <= 'z') || ('A' <= c && c <= 'Z')
}

/// Letters, decimal digits and the underscore.
pub open spec fn is_name_char(c: char) -> bool {
    is_letter(c) || ('0' <= c && c <= '9') || c == '_'
}

/// A name is a letter followed by one or more letters, digits or
/// underscores, and is no longer than `MAX_NAME_LENGTH`.
pub open spec fn is_valid_name(name: Seq<char>) -> bool {
    &&& 2 <= name.len() <= MAX_NAME_LENGTH
    &&& is_letter(name[0])
    &&& forall|i: int| 1 <= i < name.len() ==> is_name_char(#[trigger] name[i])
}

/// Tells letters from other characters.
pub fn letter(c: char) -> (r: bool)
    ensures
        r == is_letter(c),
{
    ('a' <= c && c <= 'z') || ('A' <= c && c <= 'Z')
}

/// Tells the characters of a name from others.
pub fn name_char(c: char) -> (r: bool)
    ensures
        r == is_name_char(c),
{
    letter(c) || ('0' <= c && c <= '9') || c == '_'
}

/// Whether `name` may be the name of a feature.
pub fn valid_name(name: &str) -> (valid: bool)
    ensures
        valid == is_valid_name(name@),
{
    let chars = chars_of(name);
    let len: usize = chars.len();
    if len < 2 || len > MAX_NAME_LENGTH {
        return false;
    }
    if !letter(chars[0]) {
        return false;
    }
    let mut at: usize = 1;
    while at < len
        invariant
            chars@ == name@,
            len == name@.len(),
            1 <= at <= len,
            forall|i: int| 1 <= i < at ==> is_name_char(#[trigger] name@[i]),
        decreases len - at,
    {
        if !name_char(chars[at]) {
            return false;
        }
        at = at + 1;
    }
    true
}

} // verus!

//! Case-insensitive character comparison.
//!
//! Two characters are considered equal when their case-folded forms agree.
//! Folding is the simple ASCII upper-to-lower mapping: no locale-sensitive
//! rules, one codepoint at a time.

use vstd::prelude::*;

verus! {

/// The case-folded form of a character, as a codepoint: ASCII uppercase
/// letters map to their lowercase counterparts, everything else to itself.
pub open spec fn folded(c: char) -> int {
    if 'A' as u32 <= c as u32 && c as u32 <= 'Z' as u32 {
        c as u32 + 32
    } else {
        c as u32 as int
    }
}

/// Whether two characters match, case-insensitively.
pub open spec fn chars_eq(a: char, b: char) -> bool {
    folded(a) == folded(b)
}

/// Compares two characters for match purposes, case-insensitively.
pub fn eq(a: char, b: char) -> (r: bool)
    ensures
        r == chars_eq(a, b),
{
    fold(a) == fold(b)
}

/// Case-folds one character to its comparison codepoint.
fn fold(c: char) -> (r: u32)
    ensures
        r == folded(c),
{
    let u = c as u32;
    if 'A' as u32 <= u && u <= 'Z' as u32 {
        u + 32
    } else {
        u
    }
}

} // verus!

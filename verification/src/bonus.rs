//! Per-position boundary bonuses for a haystack.
//!
//! A match is worth more when it begins a "word" inside the haystack: the
//! very first character, a character right after a path or word separator,
//! or an uppercase character right after a lowercase one. The bonus vector
//! depends on the haystack alone, so it is computed once and reused for
//! every needle character of the dynamic program.

use vstd::prelude::*;

use crate::consts::{SCORE_MATCH_BOUNDARY, SCORE_MATCH_CAPITAL};

verus! {

/// Whether a character separates words or path components.
pub open spec fn is_separator(c: char) -> bool {
    c == '/' || c == '-' || c == '_' || c == ' ' || c == '.'
}

/// Whether a character is an ASCII lowercase letter.
pub open spec fn is_lower(c: char) -> bool {
    'a' as u32 <= c as u32 && c as u32 <= 'z' as u32
}

/// Whether a character is an ASCII uppercase letter.
pub open spec fn is_upper(c: char) -> bool {
    'A' as u32 <= c as u32 && c as u32 <= 'Z' as u32
}

/// The bonus a match at position `j` of haystack `h` earns: the maximum
/// boundary bonus at the start of the haystack and after a separator, the
/// capital bonus at a camel-case transition, and nothing elsewhere.
pub open spec fn bonus_at(h: Seq<char>, j: int) -> int {
    if j == 0 {
        SCORE_MATCH_BOUNDARY as int
    } else if is_separator(h[j - 1]) {
        SCORE_MATCH_BOUNDARY as int
    } else if is_lower(h[j - 1]) && is_upper(h[j]) {
        SCORE_MATCH_CAPITAL as int
    } else {
        0
    }
}

/// Computes the bonus for every position of the haystack.
pub fn compute_bonus(haystack: &Vec<char>) -> (r: Vec<i128>)
    ensures
        r@.len() == haystack@.len(),
        forall|j: int| 0 <= j < r@.len() ==> r@[j] == bonus_at(haystack@, j),
{
    let len_h = haystack.len();
    let mut r: Vec<i128> = Vec::new();
    let mut j: usize = 0;
    while j < len_h
        invariant
            len_h == haystack@.len(),
            j <= len_h,
            r@.len() == j,
            forall|k: int| 0 <= k < j ==> r@[k] == bonus_at(haystack@, k),
        decreases len_h - j,
    {
        let b: i128 = if j == 0 {
            SCORE_MATCH_BOUNDARY
        } else {
            let prev = haystack[j - 1];
            if is_separator_exec(prev) {
                SCORE_MATCH_BOUNDARY
            } else if is_lower_exec(prev) && is_upper_exec(haystack[j]) {
                SCORE_MATCH_CAPITAL
            } else {
                0
            }
        };
        r.push(b);
        j += 1;
    }
    r
}

/// Tests a character for the separator set.
fn is_separator_exec(c: char) -> (r: bool)
    ensures
        r == is_separator(c),
{
    c == '/' || c == '-' || c == '_' || c == ' ' || c == '.'
}

/// Tests a character for ASCII lowercase.
fn is_lower_exec(c: char) -> (r: bool)
    ensures
        r == is_lower(c),
{
    let u = c as u32;
    'a' as u32 <= u && u <= 'z' as u32
}

/// Tests a character for ASCII uppercase.
fn is_upper_exec(c: char) -> (r: bool)
    ensures
        r == is_upper(c),
{
    let u = c as u32;
    'A' as u32 <= u && u <= 'Z' as u32
}

} // verus!

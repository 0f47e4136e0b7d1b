//! The scoring weights.
//!
//! Scores are `i128` values compared by plain integer order. `SCORE_MIN` and
//! `SCORE_MAX` are sentinels: `SCORE_MIN` stands for "no match is possible
//! here" and `SCORE_MAX` for a perfect (whole-string) match. Gap penalties
//! are negative; bonuses are positive. The relative magnitudes of the weights
//! decide the ranking: a consecutive match outweighs a boundary bonus, a
//! boundary bonus outweighs a camel-case bonus, and gap penalties are small
//! against any bonus.

use vstd::prelude::*;

verus! {

/// Sentinel for "no match possible"; below every attainable finite score.
pub const SCORE_MIN: i128 = i128::MIN;

/// Sentinel for a perfect match; above every attainable finite score.
pub const SCORE_MAX: i128 = i128::MAX;

/// Penalty per haystack character skipped before the first matched one.
pub const SCORE_GAP_LEADING: i128 = -1;

/// Penalty per haystack character skipped after the last matched one.
pub const SCORE_GAP_TRAILING: i128 = -1;

/// Penalty per haystack character skipped between two matched ones.
pub const SCORE_GAP_INNER: i128 = -2;

/// Bonus for a match directly after the previous needle character's match.
pub const SCORE_MATCH_CONSECUTIVE: i128 = 200;

/// Bonus for a match at the start of the haystack or right after a
/// path/word separator.
pub const SCORE_MATCH_BOUNDARY: i128 = 180;

/// Bonus for a match at a lowercase-to-uppercase transition.
pub const SCORE_MATCH_CAPITAL: i128 = 140;

} // verus!

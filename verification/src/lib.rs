//! Fuzzy-match scoring between a short query (the needle) and a longer
//! candidate string (the haystack).
//!
//! The score is an integer; larger means a better match. [`Score::new`]
//! returns the score alone, [`Score::with_positions`] additionally recovers
//! one matched haystack index per needle character.

pub mod bonus;
pub mod chars;
pub mod consts;
pub mod laws;
pub mod mat;
pub mod score;

pub use bonus::compute_bonus;
pub use chars::eq;
pub use mat::Mat;
pub use score::{derive_match_positions, generate_score_matrices, Score};
pub use consts::{
    SCORE_GAP_INNER, SCORE_GAP_LEADING, SCORE_GAP_TRAILING, SCORE_MATCH_BOUNDARY,
    SCORE_MATCH_CAPITAL, SCORE_MATCH_CONSECUTIVE, SCORE_MAX, SCORE_MIN,
};

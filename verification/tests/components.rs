use rff::bonus::compute_bonus;
use rff::chars::eq;
use rff::consts::{SCORE_MATCH_BOUNDARY, SCORE_MATCH_CAPITAL, SCORE_MIN};
use rff::mat::Mat;
use rff::score::{derive_match_positions, generate_score_matrices};

#[test]
fn char_equality_is_case_insensitive() {
    assert!(eq('a', 'a'));
    assert!(eq('a', 'A'));
    assert!(eq('Z', 'z'));
    assert!(!eq('a', 'b'));
    assert!(!eq('a', '/'));
    assert!(eq('/', '/'));
}

#[test]
fn bonus_rewards_boundaries() {
    let haystack: Vec<char> = "a/b".chars().collect();
    let bonus = compute_bonus(&haystack);
    assert_eq!(bonus, vec![SCORE_MATCH_BOUNDARY, 0, SCORE_MATCH_BOUNDARY]);

    let haystack: Vec<char> = "aB".chars().collect();
    let bonus = compute_bonus(&haystack);
    assert_eq!(bonus, vec![SCORE_MATCH_BOUNDARY, SCORE_MATCH_CAPITAL]);

    let haystack: Vec<char> = "x.y-z_w q".chars().collect();
    let bonus = compute_bonus(&haystack);
    assert_eq!(
        bonus,
        vec![
            SCORE_MATCH_BOUNDARY,
            0,
            SCORE_MATCH_BOUNDARY,
            0,
            SCORE_MATCH_BOUNDARY,
            0,
            SCORE_MATCH_BOUNDARY,
            0,
            SCORE_MATCH_BOUNDARY
        ]
    );
}

#[test]
fn mat_get_is_defensive() {
    let mut m = Mat::new(2, 3);
    assert_eq!(m.get(0, 0), Some(0));
    assert_eq!(m.get(1, 2), Some(0));
    assert_eq!(m.get(2, 0), None);
    assert_eq!(m.get(0, 3), None);
    m.set(1, 2, 42);
    assert_eq!(m.get(1, 2), Some(42));
    assert_eq!(m.get(0, 0), Some(0));
}

#[test]
fn matrices_and_backtracking() {
    let (m, d) = generate_score_matrices("ab", "a-b", 2, 3);
    // Needle 'a' matches at the boundary start; 'b' extends it after an
    // inner gap over the separator, collecting the boundary bonus there.
    assert_eq!(d.get(0, 0), Some(SCORE_MATCH_BOUNDARY));
    assert_eq!(d.get(1, 0), Some(SCORE_MIN));
    assert_eq!(m.get(1, 2), Some(358));

    let positions = derive_match_positions(m, d, 2, 3);
    assert_eq!(positions, vec![0, 2]);
}

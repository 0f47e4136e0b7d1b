use rff::consts::{SCORE_MAX, SCORE_MIN};
use rff::score::Score;

fn score(needle: &str, haystack: &str) -> Score {
    Score::new(needle, haystack)
}

#[test]
fn test_eq() {
    let a = Score { value: 1, positions: None };
    let b = Score { value: 1, positions: None };
    assert_eq!(a, b);
}

#[test]
fn test_cmp() {
    let a = Score { value: 2, positions: None };
    let b = Score { value: 1, positions: None };
    assert!(a > b);
    assert!(b < a);

    let b = Score { value: 2, positions: None };
    assert!(a == b);
}

#[test]
fn relative_scores() {
    // App/Models/Order is better than App/MOdels/zRder
    assert!(score("amor", "app/models/order") > score("amor", "app/models/zrder"));

    // App/MOdels/foo is better than App/M/fOo
    assert!(score("amo", "app/m/foo") < score("amo", "app/models/foo"));

    // GEMFIle.Lock < GEMFILe
    assert!(score("gemfil", "Gemfile.lock") < score("gemfil", "Gemfile"));

    // GEMFIle.Lock < GEMFILe
    assert!(score("gemfil", "Gemfile.lock") < score("gemfil", "Gemfile"));

    // Prefer shorter scorees
    assert!(score("abce", "abcdef") > score("abce", "abc de"));

    // Prefer shorter candidates
    assert!(score("test", "tests") > score("test", "testing"));

    // Scores first letter highly
    assert!(score("test", "testing") > score("test", "/testing"));

    // Prefer shorter scorees
    assert!(score("abc", "    a b c ") > score("abc", " a  b  c "));
    assert!(score("abc", " a b c    ") > score("abc", " a  b  c "));
}

#[test]
fn positions() {
    let s = Score::with_positions("amo", "app/models/foo");
    assert_eq!(s.positions, Some(vec![0, 4, 5]));

    let s = Score::with_positions("amor", "app/models/order");
    assert_eq!(s.positions, Some(vec![0, 4, 11, 12]));

    let s = Score::with_positions("as", "tags");
    assert_eq!(s.positions, Some(vec![1, 3]));

    let s = Score::with_positions("abc", "a/a/b/c/c");
    assert_eq!(s.positions, Some(vec![2, 4, 6]));

    let s = Score::with_positions("foo", "foo");
    assert_eq!(s.positions, Some(vec![0, 1, 2]));

    let s = Score::with_positions("drivers", "/path/to/drivers/file.txt");
    assert_eq!(s.positions, Some(vec![9, 10, 11, 12, 13, 14, 15]));
}

#[test]
fn self_match_is_max() {
    assert_eq!(score("abc", "abc").value, SCORE_MAX);
    assert_eq!(score("foo", "foo").value, SCORE_MAX);
    assert_eq!(score("A", "a").value, SCORE_MAX);
}

#[test]
fn empty_haystack_is_min() {
    assert_eq!(score("a", "").value, SCORE_MIN);
    assert_eq!(score("abc", "").value, SCORE_MIN);
    let s = Score::with_positions("abc", "");
    assert_eq!(s.value, SCORE_MIN);
    assert_eq!(s.positions, None);
}

#[test]
fn empty_needle_is_min() {
    assert_eq!(score("", "").value, SCORE_MIN);
    assert_eq!(score("", "anything").value, SCORE_MIN);
    let s = Score::with_positions("", "anything");
    assert_eq!(s.value, SCORE_MIN);
    assert_eq!(s.positions, None);
}

#[test]
fn boundary_preference() {
    // A match that starts right after a separator beats the same needle
    // matched at an interior position of an otherwise-identical haystack.
    assert!(score("amor", "app/models/order") > score("amor", "app/models/zrder"));
}

#[test]
fn consecutive_run_preference() {
    // Contiguous matches beat scattered matches of equal count.
    assert!(score("abc", "a/a/b/c/c") < score("abc", "aa/abc/cc"));
}

#[test]
fn shorter_candidate_preference() {
    assert!(score("test", "tests") > score("test", "testing"));
}

#[test]
fn exact_score_values() {
    // One leading gap, no boundary bonus at the match.
    assert_eq!(score("b", "ab").value, -1);
    // Boundary bonus at position zero, one trailing gap.
    assert_eq!(score("a", "ab").value, 179);
    // Boundary bonus, one consecutive match, one trailing gap.
    assert_eq!(score("ab", "abc").value, 379);
}

#[test]
fn idempotent_scoring() {
    let a = Score::with_positions("amor", "app/models/order");
    let b = Score::with_positions("amor", "app/models/order");
    assert_eq!(a.value, b.value);
    assert_eq!(a.positions, b.positions);

    let a = score("gemfil", "Gemfile.lock");
    let b = score("gemfil", "Gemfile.lock");
    assert_eq!(a.value, b.value);
    assert_eq!(a.positions, b.positions);
}

#[test]
fn equal_length_positions_are_identity() {
    let s = Score::with_positions("abc", "abc");
    assert_eq!(s.value, SCORE_MAX);
    assert_eq!(s.positions, Some(vec![0, 1, 2]));
}

//! The scoring core: the dynamic program over needle x haystack, the final
//! score extraction, and the backtracking pass that recovers match positions.
//!
//! The dynamic program fills two same-shaped matrices. `M[i][j]` holds the
//! best score for matching the first `i + 1` needle characters against the
//! first `j + 1` haystack characters, where the `i`-th needle character is
//! matched at or before position `j`. `D[i][j]` holds the best score when
//! the `i`-th needle character is matched exactly at position `j`, or
//! `SCORE_MIN` when it cannot match there. The spec functions [`m_val`] and
//! [`d_val`] define both matrices cell by cell, and every executable result
//! is proved equal to them.

use core::cmp::Ordering;
use vstd::prelude::*;
use vstd::string::StrSliceExecFns;

use crate::bonus::{bonus_at, compute_bonus};
use crate::chars::{chars_eq, eq};
use crate::consts::{
    SCORE_GAP_INNER, SCORE_GAP_LEADING, SCORE_GAP_TRAILING, SCORE_MATCH_CONSECUTIVE, SCORE_MAX,
    SCORE_MIN,
};
use crate::mat::Mat;

verus! {

/// Sentinel-absorbing addition: `SCORE_MIN` stands for "no match possible",
/// and adding a penalty or bonus to it leaves it absorbed, the way adding a
/// finite value to negative infinity would.
pub open spec fn sadd(a: int, b: int) -> int {
    if a == SCORE_MIN as int {
        a
    } else {
        a + b
    }
}

/// The larger of two scores; the left operand wins a tie.
pub open spec fn max2(a: int, b: int) -> int {
    if a >= b {
        a
    } else {
        b
    }
}

/// The gap penalty used in row `i`: a trailing gap for the last needle
/// character, an inner gap for every other one.
pub open spec fn gap_of(len_n: int, i: int) -> int {
    if i == len_n - 1 {
        SCORE_GAP_TRAILING as int
    } else {
        SCORE_GAP_INNER as int
    }
}

/// `D[i][j]`: the best score when needle character `i` is matched exactly at
/// haystack position `j`, or `SCORE_MIN` when it cannot match there.
pub open spec fn d_val(n: Seq<char>, h: Seq<char>, i: int, j: int) -> int
    decreases i, j, 0int,
{
    if i < 0 || j < 0 {
        SCORE_MIN as int
    } else if !chars_eq(n[i], h[j]) {
        SCORE_MIN as int
    } else if i == 0 {
        j * (SCORE_GAP_LEADING as int) + bonus_at(h, j)
    } else if j == 0 {
        SCORE_MIN as int
    } else {
        max2(
            sadd(m_val(n, h, i - 1, j - 1), bonus_at(h, j)),
            sadd(d_val(n, h, i - 1, j - 1), SCORE_MATCH_CONSECUTIVE as int),
        )
    }
}

/// `M[i][j]`: the best score for matching needle characters `0..=i` with the
/// `i`-th one matched at or before haystack position `j`: either match at
/// `j` itself, or keep the best score of the previous column and pay the
/// row's gap penalty.
pub open spec fn m_val(n: Seq<char>, h: Seq<char>, i: int, j: int) -> int
    decreases i, j, 1int,
{
    if i < 0 || j < 0 {
        SCORE_MIN as int
    } else {
        max2(
            d_val(n, h, i, j),
            sadd(
                if j == 0 {
                    SCORE_MIN as int
                } else {
                    m_val(n, h, i, j - 1)
                },
                gap_of(n.len() as int, i),
            ),
        )
    }
}

/// The final score for a needle/haystack pair: the minimum sentinel for an
/// empty needle or an empty haystack, the maximum sentinel when the lengths
/// are equal (the exact-match fast path), and otherwise the bottom-right
/// cell of `M`.
pub open spec fn spec_score(n: Seq<char>, h: Seq<char>) -> int {
    if n.len() == 0 {
        SCORE_MIN as int
    } else if n.len() == h.len() {
        SCORE_MAX as int
    } else if h.len() == 0 {
        SCORE_MIN as int
    } else {
        m_val(n, h, n.len() - 1, h.len() - 1)
    }
}

/// Every cell of the dynamic program is the sentinel or a small finite
/// value: gaps subtract at most 2 per step, bonuses add at most 200, and a
/// chain of steps from cell `(0, 0)` to cell `(i, j)` has at most `i + j + 1`
/// of them.
pub proof fn lemma_dp_bounded(n: Seq<char>, h: Seq<char>, i: int, j: int)
    ensures
        d_val(n, h, i, j) == SCORE_MIN as int || -400 * (i + j + 2) <= d_val(n, h, i, j) <= 400 * (
        i + j + 2),
        m_val(n, h, i, j) == SCORE_MIN as int || -400 * (i + j + 2) <= m_val(n, h, i, j) <= 400 * (
        i + j + 2),
    decreases i, j, 2int,
{
    if i < 0 || j < 0 {
    } else {
        if i > 0 && j > 0 {
            lemma_dp_bounded(n, h, i - 1, j - 1);
        }
        if j > 0 {
            lemma_dp_bounded(n, h, i, j - 1);
        }
        assert(0 <= bonus_at(h, j) <= 180);
        assert(d_val(n, h, i, j) == SCORE_MIN as int || -400 * (i + j + 2) <= d_val(n, h, i, j)
            <= 400 * (i + j + 2));
        let prev = if j == 0 {
            SCORE_MIN as int
        } else {
            m_val(n, h, i, j - 1)
        };
        assert(m_val(n, h, i, j) == max2(d_val(n, h, i, j), sadd(prev, gap_of(n.len() as int, i))));
        assert(m_val(n, h, i, j) == SCORE_MIN as int || -400 * (i + j + 2) <= m_val(n, h, i, j)
            <= 400 * (i + j + 2));
    }
}

/// Runs the dynamic program for the given needle and haystack, whose
/// character counts the caller passes in, and returns the matrices `(M, D)`.
pub fn generate_score_matrices(needle: &str, haystack: &str, len_n: usize, len_h: usize) -> (r: (
    Mat,
    Mat,
))
    requires
        len_n == needle@.len(),
        len_h == haystack@.len(),
    ensures
        r.0.wf() && r.0.spec_rows() == len_n && r.0.spec_cols() == len_h,
        r.1.wf() && r.1.spec_rows() == len_n && r.1.spec_cols() == len_h,
        forall|i: int, j: int|
            0 <= i < len_n && 0 <= j < len_h ==> r.0.at(i, j) == m_val(needle@, haystack@, i, j),
        forall|i: int, j: int|
            0 <= i < len_n && 0 <= j < len_h ==> r.1.at(i, j) == d_val(needle@, haystack@, i, j),
{
    let nv = chars_of(needle);
    let hv = chars_of(haystack);
    let bonus = compute_bonus(&hv);

    let mut d = Mat::new(len_n, len_h);
    let mut m = Mat::new(len_n, len_h);

    let mut i: usize = 0;
    while i < len_n
        invariant
            len_n == needle@.len(),
            len_h == haystack@.len(),
            nv@ == needle@,
            hv@ == haystack@,
            bonus@.len() == len_h,
            forall|k: int| 0 <= k < len_h ==> bonus@[k] == bonus_at(haystack@, k),
            i <= len_n,
            m.wf() && m.spec_rows() == len_n && m.spec_cols() == len_h,
            d.wf() && d.spec_rows() == len_n && d.spec_cols() == len_h,
            forall|a: int, b: int|
                0 <= a < i && 0 <= b < len_h ==> m.at(a, b) == m_val(needle@, haystack@, a, b),
            forall|a: int, b: int|
                0 <= a < i && 0 <= b < len_h ==> d.at(a, b) == d_val(needle@, haystack@, a, b),
        decreases len_n - i,
    {
        let n_ch = nv[i];
        let mut prev_score: i128 = SCORE_MIN;
        let gap_score: i128 = if i == len_n - 1 {
            SCORE_GAP_TRAILING
        } else {
            SCORE_GAP_INNER
        };

        let mut j: usize = 0;
        while j < len_h
            invariant
                len_n == needle@.len(),
                len_h == haystack@.len(),
                nv@ == needle@,
                hv@ == haystack@,
                bonus@.len() == len_h,
                forall|k: int| 0 <= k < len_h ==> bonus@[k] == bonus_at(haystack@, k),
                i < len_n,
                j <= len_h,
                n_ch == needle@[i as int],
                gap_score as int == gap_of(len_n as int, i as int),
                m.wf() && m.spec_rows() == len_n && m.spec_cols() == len_h,
                d.wf() && d.spec_rows() == len_n && d.spec_cols() == len_h,
                forall|a: int, b: int|
                    0 <= a < i && 0 <= b < len_h ==> m.at(a, b) == m_val(needle@, haystack@, a, b),
                forall|a: int, b: int|
                    0 <= a < i && 0 <= b < len_h ==> d.at(a, b) == d_val(needle@, haystack@, a, b),
                forall|b: int|
                    0 <= b < j ==> m.at(i as int, b) == m_val(needle@, haystack@, i as int, b),
                forall|b: int|
                    0 <= b < j ==> d.at(i as int, b) == d_val(needle@, haystack@, i as int, b),
                prev_score as int == if j == 0 {
                    SCORE_MIN as int
                } else {
                    m_val(needle@, haystack@, i as int, j - 1)
                },
            decreases len_h - j,
        {
            proof {
                lemma_dp_bounded(needle@, haystack@, i as int, j - 1);
                lemma_dp_bounded(needle@, haystack@, i as int - 1, j - 1);
                lemma_dp_bounded(needle@, haystack@, i as int, j as int);
            }
            let h_ch = hv[j];
            if eq(n_ch, h_ch) {
                let bonus_score = bonus[j];
                let score: i128 = if i == 0 {
                    (j as i128) * SCORE_GAP_LEADING + bonus_score
                } else if j > 0 {
                    let mm = match m.get(i - 1, j - 1) {
                        Some(v) => v,
                        None => SCORE_MIN,
                    };
                    let dd = match d.get(i - 1, j - 1) {
                        Some(v) => v,
                        None => SCORE_MIN,
                    };
                    max_score(splus(mm, bonus_score), splus(dd, SCORE_MATCH_CONSECUTIVE))
                } else {
                    SCORE_MIN
                };
                prev_score = max_score(score, splus(prev_score, gap_score));
                d.set(i, j, score);
                m.set(i, j, prev_score);
            } else {
                let skipped = splus(prev_score, gap_score);
                d.set(i, j, SCORE_MIN);
                m.set(i, j, skipped);
                prev_score = skipped;
            }
            j += 1;
        }
        i += 1;
    }
    (m, d)
}

/// One backward scan of the backtracker for needle index `i`, starting at
/// haystack cursor `j` with the `req` ("match required") flag: walks `j`
/// down and accepts the first position whose `D` cell is a valid match and
/// either lies on the optimal path (`D == M`) or is forced by `req`.
/// Returns the accepted position (0 when the cursor ran out), the cursor
/// after the scan, and the flag after the scan; the flag is raised when the
/// acceptance extended a consecutive run, which forces the next (lower)
/// needle index to accept only an exact match diagonal.
pub open spec fn bt_scan(mg: Seq<Seq<i128>>, dg: Seq<Seq<i128>>, i: int, j: int, req: bool) -> (
    int,
    int,
    bool,
)
    decreases j,
{
    if j <= 0 {
        (0, j, req)
    } else {
        let dv = dg[i][j] as int;
        let mv = mg[i][j] as int;
        if dv != SCORE_MIN as int && (req || dv == mv) {
            let last = if i > 0 {
                dg[i - 1][j - 1] as int
            } else {
                0
            };
            (j, j, req || (i > 0 && mv == sadd(last, SCORE_MATCH_CONSECUTIVE as int)))
        } else {
            bt_scan(mg, dg, i, j - 1, req)
        }
    }
}

/// The backtracker's state (haystack cursor, "match required" flag) just
/// before it processes needle index `i`; the walk starts at the last needle
/// index with the cursor on the last haystack position and the flag down.
pub open spec fn bt_state(mg: Seq<Seq<i128>>, dg: Seq<Seq<i128>>, len_n: int, len_h: int, i: int) -> (
    int,
    bool,
)
    decreases len_n - i,
{
    if i >= len_n - 1 {
        (len_h - 1, false)
    } else {
        let prev = bt_state(mg, dg, len_n, len_h, i + 1);
        let step = bt_scan(mg, dg, i + 1, prev.0, prev.1);
        (step.1, step.2)
    }
}

/// The haystack position the backtracker assigns to needle index `i`, given
/// the two score matrices as grids.
pub open spec fn position_at(mg: Seq<Seq<i128>>, dg: Seq<Seq<i128>>, len_n: int, len_h: int, i: int) -> int {
    let st = bt_state(mg, dg, len_n, len_h, i);
    bt_scan(mg, dg, i, st.0, st.1).0
}

/// The `M` matrix of the dynamic program for `n` and `h`, as a grid.
pub open spec fn m_grid(n: Seq<char>, h: Seq<char>) -> Seq<Seq<i128>> {
    Seq::new(n.len(), |i: int| Seq::new(h.len(), |j: int| m_val(n, h, i, j) as i128))
}

/// The `D` matrix of the dynamic program for `n` and `h`, as a grid.
pub open spec fn d_grid(n: Seq<char>, h: Seq<char>) -> Seq<Seq<i128>> {
    Seq::new(n.len(), |i: int| Seq::new(h.len(), |j: int| d_val(n, h, i, j) as i128))
}

/// The haystack positions the backtracker recovers for `n` against `h`,
/// one per needle character, when both strings are non-empty and their
/// lengths differ.
pub open spec fn spec_positions(n: Seq<char>, h: Seq<char>) -> Seq<int> {
    Seq::new(
        n.len(),
        |i: int| position_at(m_grid(n, h), d_grid(n, h), n.len() as int, h.len() as int, i),
    )
}

/// Given the two scoring matrices and the lengths of the input strings,
/// walks the matrices backward and returns one matched haystack position per
/// needle character.
pub fn derive_match_positions(m: Mat, d: Mat, len_n: usize, len_h: usize) -> (r: Vec<usize>)
    requires
        m.wf() && m.spec_rows() == len_n && m.spec_cols() == len_h,
        d.wf() && d.spec_rows() == len_n && d.spec_cols() == len_h,
        len_h >= 1,
    ensures
        r@.len() == len_n,
        forall|k: int|
            0 <= k < len_n ==> (#[trigger] r@[k]) as int == position_at(
                m.grid(),
                d.grid(),
                len_n as int,
                len_h as int,
                k,
            ),
        forall|k: int| 0 <= k < len_n ==> #[trigger] r@[k] < len_h,
{
    let ghost mg = m.grid();
    let ghost dg = d.grid();
    let mut positions: Vec<usize> = Vec::new();
    let mut t: usize = 0;
    while t < len_n
        invariant
            t <= len_n,
            positions@.len() == t,
            forall|k: int| 0 <= k < t ==> positions@[k] == 0usize,
        decreases len_n - t,
    {
        positions.push(0);
        t += 1;
    }

    let mut match_required = false;
    let mut j: usize = len_h - 1;
    let mut i: usize = len_n;
    while i > 0
        invariant
            m.wf() && m.spec_rows() == len_n && m.spec_cols() == len_h,
            d.wf() && d.spec_rows() == len_n && d.spec_cols() == len_h,
            len_h >= 1,
            mg == m.grid(),
            dg == d.grid(),
            i <= len_n,
            j < len_h,
            positions@.len() == len_n,
            i > 0 ==> (j as int, match_required) == bt_state(
                mg,
                dg,
                len_n as int,
                len_h as int,
                i - 1,
            ),
            forall|k: int|
                i <= k < len_n ==> (#[trigger] positions@[k]) as int == position_at(
                    mg,
                    dg,
                    len_n as int,
                    len_h as int,
                    k,
                ),
            forall|k: int| 0 <= k < i ==> positions@[k] == 0usize,
            forall|k: int| 0 <= k < len_n ==> #[trigger] positions@[k] < len_h,
        decreases i,
    {
        i -= 1;
        let ghost st0: (int, bool) = (j as int, match_required);
        proof {
            assert(st0 == bt_state(mg, dg, len_n as int, len_h as int, i as int));
        }
        let mut accepted = false;
        while j > 0 && !accepted
            invariant
                m.wf() && m.spec_rows() == len_n && m.spec_cols() == len_h,
                d.wf() && d.spec_rows() == len_n && d.spec_cols() == len_h,
                mg == m.grid(),
                dg == d.grid(),
                i < len_n,
                j < len_h,
                !accepted ==> match_required == st0.1,
                !accepted ==> bt_scan(mg, dg, i as int, st0.0, st0.1) == bt_scan(
                    mg,
                    dg,
                    i as int,
                    j as int,
                    match_required,
                ),
                accepted ==> j > 0,
                accepted ==> bt_scan(mg, dg, i as int, st0.0, st0.1) == (
                    j as int,
                    j as int,
                    match_required,
                ),
            decreases (if accepted {
                0int
            } else {
                j as int + 1
            }),
        {
            proof {
                lemma_grid_cell(&m, i as int, j as int);
                lemma_grid_cell(&d, i as int, j as int);
                if i > 0 {
                    lemma_grid_cell(&d, i as int - 1, j as int - 1);
                }
            }
            let dv = match d.get(i, j) {
                Some(v) => v,
                None => SCORE_MIN,
            };
            let mv = match m.get(i, j) {
                Some(v) => v,
                None => SCORE_MIN,
            };
            if dv != SCORE_MIN && (match_required || dv == mv) {
                if i > 0 {
                    let last = match d.get(i - 1, j - 1) {
                        Some(v) => v,
                        None => SCORE_MIN,
                    };
                    let on_run: bool = if last == SCORE_MIN {
                        mv == SCORE_MIN
                    } else if last <= SCORE_MAX - SCORE_MATCH_CONSECUTIVE {
                        mv == last + SCORE_MATCH_CONSECUTIVE
                    } else {
                        false
                    };
                    if on_run {
                        match_required = true;
                    }
                }
                accepted = true;
            } else {
                j -= 1;
            }
        }
        if accepted {
            positions.set(i, j);
        }
        proof {
            if !accepted {
                assert(j == 0);
                assert(bt_scan(mg, dg, i as int, st0.0, st0.1) == (0int, 0int, match_required));
            }
            assert(position_at(mg, dg, len_n as int, len_h as int, i as int) == bt_scan(
                mg,
                dg,
                i as int,
                st0.0,
                st0.1,
            ).0);
            if i > 0 {
                assert(bt_state(mg, dg, len_n as int, len_h as int, i - 1) == (
                    j as int,
                    match_required,
                ));
            }
        }
    }
    positions
}

/// A grid cell read through `grid()` is the cell of the matrix.
proof fn lemma_grid_cell(m: &Mat, i: int, j: int)
    requires
        m.wf(),
        0 <= i < m.spec_rows(),
        0 <= j < m.spec_cols(),
    ensures
        m.grid().len() == m.spec_rows(),
        m.grid()[i].len() == m.spec_cols(),
        m.grid()[i][j] as int == m.at(i, j),
{
}

/// Collects the characters of a string slice into a vector.
fn chars_of(s: &str) -> (r: Vec<char>)
    ensures
        r@ == s@,
{
    let len = s.unicode_len();
    let mut r: Vec<char> = Vec::new();
    let mut i: usize = 0;
    while i < len
        invariant
            len == s@.len(),
            i <= len,
            r@ == s@.subrange(0, i as int),
        decreases len - i,
    {
        r.push(s.get_char(i));
        proof {
            assert(s@.subrange(0, i + 1) =~= s@.subrange(0, i as int).push(s@[i as int]));
        }
        i += 1;
    }
    proof {
        assert(r@ =~= s@);
    }
    r
}

/// Sentinel-absorbing addition on machine scores; the bounds keep the sum
/// inside `i128`.
fn splus(a: i128, b: i128) -> (r: i128)
    requires
        a == SCORE_MIN || -1267650600228229401496703205376 <= a as int + b as int
            <= 1267650600228229401496703205376,
    ensures
        r as int == sadd(a as int, b as int),
{
    if a == SCORE_MIN {
        SCORE_MIN
    } else {
        a + b
    }
}

/// The larger of two machine scores; the left operand wins a tie.
fn max_score(a: i128, b: i128) -> (r: i128)
    ensures
        r as int == max2(a as int, b as int),
{
    if a >= b {
        a
    } else {
        b
    }
}

/// A computed relevance score, with optional match positions. Two scores
/// compare by their scalar value alone.
#[derive(Debug)]
pub struct Score {
    /// The computed score value.
    pub value: i128,
    /// Optional vector of match positions, one per needle character.
    pub positions: Option<Vec<usize>>,
}

/// What [`Score::with_positions`] returns for needle `n` and haystack `h`:
/// the score of [`spec_score`], no positions for an empty needle or an empty
/// haystack, the identity positions for the equal-length fast path, and the
/// backtracker's positions otherwise.
pub open spec fn scored(n: Seq<char>, h: Seq<char>, s: Score) -> bool {
    &&& s.value as int == spec_score(n, h)
    &&& if n.len() == 0 {
        s.positions is None
    } else if n.len() == h.len() {
        s.positions matches Some(v) && v@.len() == n.len() && (forall|k: int|
            0 <= k < v@.len() ==> (#[trigger] v@[k]) as int == k)
    } else if h.len() == 0 {
        s.positions is None
    } else {
        s.positions matches Some(v) && v@.len() == n.len() && (forall|k: int|
            0 <= k < v@.len() ==> (#[trigger] v@[k]) as int == spec_positions(n, h)[k])
    }
}

impl Score {
    /// Creates a new Score from the provided needle and haystack.
    pub fn new(needle: &str, haystack: &str) -> (r: Score)
        ensures
            r.value as int == spec_score(needle@, haystack@),
            r.positions is None,
    {
        let len_n = needle.unicode_len();
        let len_h = haystack.unicode_len();

        if len_n == 0 {
            return Score { value: SCORE_MIN, positions: None };
        }
        if len_n == len_h {
            return Score { value: SCORE_MAX, positions: None };
        }
        if len_h == 0 {
            return Score { value: SCORE_MIN, positions: None };
        }
        let (m, _) = generate_score_matrices(needle, haystack, len_n, len_h);

        let score = match m.get(len_n - 1, len_h - 1) {
            Some(v) => v,
            None => SCORE_MIN,
        };
        Score { value: score, positions: None }
    }

    /// Creates a new Score from the provided needle and haystack,
    /// calculating match positions.
    pub fn with_positions(needle: &str, haystack: &str) -> (r: Score)
        ensures
            scored(needle@, haystack@, r),
    {
        let len_n = needle.unicode_len();
        let len_h = haystack.unicode_len();

        if len_n == 0 {
            return Score { value: SCORE_MIN, positions: None };
        }
        if len_n == len_h {
            let mut identity: Vec<usize> = Vec::new();
            let mut k: usize = 0;
            while k < len_n
                invariant
                    k <= len_n,
                    identity@.len() == k,
                    forall|t: int| 0 <= t < k ==> (#[trigger] identity@[t]) as int == t,
                decreases len_n - k,
            {
                identity.push(k);
                k += 1;
            }
            return Score { value: SCORE_MAX, positions: Some(identity) };
        }
        if len_h == 0 {
            return Score { value: SCORE_MIN, positions: None };
        }
        let (m, d) = generate_score_matrices(needle, haystack, len_n, len_h);

        let score = match m.get(len_n - 1, len_h - 1) {
            Some(v) => v,
            None => SCORE_MIN,
        };
        proof {
            assert forall|i: int, j: int|
                0 <= i < len_n && 0 <= j < len_h implies m.grid()[i][j] == m_grid(
                needle@,
                haystack@,
            )[i][j] && d.grid()[i][j] == d_grid(needle@, haystack@)[i][j] by {
                lemma_grid_cell(&m, i, j);
                lemma_grid_cell(&d, i, j);
            }
            assert(m.grid() =~~= m_grid(needle@, haystack@));
            assert(d.grid() =~~= d_grid(needle@, haystack@));
        }
        let positions = derive_match_positions(m, d, len_n, len_h);

        Score { value: score, positions: Some(positions) }
    }
}

impl PartialEq for Score {
    /// Two scores are equal when their scalar values are; positions do not
    /// take part in the comparison.
    fn eq(&self, other: &Score) -> (r: bool)
        ensures
            r == (self.value == other.value),
    {
        self.value == other.value
    }
}

impl vstd::std_specs::cmp::PartialEqSpecImpl for Score {
    open spec fn obeys_eq_spec() -> bool {
        true
    }

    open spec fn eq_spec(&self, other: &Score) -> bool {
        self.value == other.value
    }
}

impl PartialOrd for Score {
    /// Scores are ordered by their scalar value alone.
    fn partial_cmp(&self, other: &Score) -> (r: Option<Ordering>)
        ensures
            r == Some(
                if self.value < other.value {
                    Ordering::Less
                } else if self.value == other.value {
                    Ordering::Equal
                } else {
                    Ordering::Greater
                },
            ),
    {
        if self.value < other.value {
            Some(Ordering::Less)
        } else if self.value == other.value {
            Some(Ordering::Equal)
        } else {
            Some(Ordering::Greater)
        }
    }
}

impl vstd::std_specs::cmp::PartialOrdSpecImpl for Score {
    open spec fn obeys_partial_cmp_spec() -> bool {
        true
    }

    open spec fn partial_cmp_spec(&self, other: &Score) -> Option<Ordering> {
        Some(
            if self.value < other.value {
                Ordering::Less
            } else if self.value == other.value {
                Ordering::Equal
            } else {
                Ordering::Greater
            },
        )
    }
}

} // verus!

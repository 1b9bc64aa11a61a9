//! Numeric primitives of the engine: the moving average with its
//! head-boundary convention, the consecutive-decline counter, and the
//! support/resistance level detector.

use vstd::prelude::*;

use crate::bar::{series_wf, DailyBar, PRICE_MAX};

verus! {

/// The close column of a series.
pub open spec fn close_col(s: Seq<DailyBar>) -> Seq<u64> {
    Seq::new(s.len(), |i: int| s[i].close)
}

/// Sum of a column.
pub open spec fn seq_sum(s: Seq<u64>) -> int
    decreases s.len(),
{
    if s.len() == 0 {
        0
    } else {
        seq_sum(s.drop_last()) + s.last()
    }
}

/// Mean of a non-empty column, quantized to the engine's resolution of a
/// thousandth by rounding half up: `round(sum / len) = (2*sum + len) / (2*len)`
/// in integer division.
pub open spec fn mean_rounded(s: Seq<u64>) -> int
    recommends
        s.len() > 0,
{
    (2 * seq_sum(s) + s.len()) / (2 * s.len() as int)
}

/// The window the moving average reads at index `i`: the first `n` elements
/// while `i < n` (the head "pretends" the series is at least `n` long), the
/// trailing `n` elements `[i-n+1, i]` afterwards.
pub open spec fn ma_window(col: Seq<u64>, n: int, i: int) -> Seq<u64>
    recommends
        1 <= n <= col.len(),
        0 <= i < col.len(),
{
    if i < n {
        col.take(n)
    } else {
        col.subrange(i - n + 1, i + 1)
    }
}

/// Value of the `n`-period moving average at index `i`.
pub open spec fn ma_at(col: Seq<u64>, n: int, i: int) -> int
    recommends
        1 <= n <= col.len(),
        0 <= i < col.len(),
{
    mean_rounded(ma_window(col, n, i))
}

proof fn lemma_seq_sum_step(s: Seq<u64>, k: int)
    requires
        0 <= k < s.len(),
    ensures
        seq_sum(s.subrange(0, k + 1)) == seq_sum(s.subrange(0, k)) + s[k],
{
    let a = s.subrange(0, k + 1);
    assert(a.drop_last() =~= s.subrange(0, k));
    assert(a.last() == s[k]);
}

proof fn lemma_seq_sum_bounds(s: Seq<u64>)
    requires
        forall|i: int| 0 <= i < s.len() ==> s[i] <= PRICE_MAX,
    ensures
        0 <= seq_sum(s) <= s.len() * PRICE_MAX,
    decreases s.len(),
{
    if s.len() > 0 {
        lemma_seq_sum_bounds(s.drop_last());
    }
}

proof fn lemma_mean_rounded_bounds(s: Seq<u64>)
    requires
        s.len() > 0,
        forall|i: int| 0 <= i < s.len() ==> s[i] <= PRICE_MAX,
    ensures
        0 <= mean_rounded(s) <= PRICE_MAX,
{
    lemma_seq_sum_bounds(s);
    let sm = seq_sum(s);
    let n = s.len() as int;
    assert(0 <= (2 * sm + n) / (2 * n) <= PRICE_MAX) by (nonlinear_arith)
        requires
            0 <= sm <= n * PRICE_MAX,
            n >= 1,
    {}
}

/// Rounded mean of the column slice `[lo, hi)`.
fn window_mean(col: &[u64], lo: usize, hi: usize) -> (r: u64)
    requires
        lo < hi <= col@.len(),
        forall|i: int| 0 <= i < col@.len() ==> col@[i] <= PRICE_MAX,
    ensures
        r == mean_rounded(col@.subrange(lo as int, hi as int)),
{
    let mut total: u128 = 0;
    let mut k: usize = lo;
    while k < hi
        invariant
            lo <= k <= hi <= col@.len(),
            forall|i: int| 0 <= i < col@.len() ==> col@[i] <= PRICE_MAX,
            total == seq_sum(col@.subrange(lo as int, k as int)),
        decreases hi - k,
    {
        proof {
            lemma_seq_sum_bounds(col@.subrange(lo as int, k as int));
            lemma_seq_sum_step(col@.subrange(lo as int, hi as int), k - lo);
            assert(col@.subrange(lo as int, hi as int).subrange(0, k - lo + 1) =~= col@.subrange(
                lo as int,
                k + 1,
            ));
            assert(col@.subrange(lo as int, hi as int).subrange(0, k - lo) =~= col@.subrange(
                lo as int,
                k as int,
            ));
            assert(col@.subrange(lo as int, hi as int)[k - lo] == col@[k as int]);
        }
        total = total + col[k] as u128;
        k = k + 1;
    }
    let count = (hi - lo) as u128;
    proof {
        lemma_seq_sum_bounds(col@.subrange(lo as int, hi as int));
        lemma_mean_rounded_bounds(col@.subrange(lo as int, hi as int));
    }
    ((2 * total + count) / (2 * count)) as u64
}

/// The `n`-period simple moving average of a column, one output per input
/// index.
///
/// Boundary convention, fixed by design: for `i < n` the output is the mean
/// of the **first `n`** elements, not of an expanding window, so the head of
/// the output is a flat run; for `i >= n` it is the mean of the trailing
/// window `[i-n+1, i]`. Every output is quantized to a thousandth, rounding
/// half up.
pub fn ma(col: &[u64], n: usize) -> (r: Vec<u64>)
    requires
        1 <= n <= col@.len(),
        forall|i: int| 0 <= i < col@.len() ==> col@[i] <= PRICE_MAX,
    ensures
        r@.len() == col@.len(),
        forall|i: int| 0 <= i < col@.len() ==> r@[i] == ma_at(col@, n as int, i),
{
    let len = col.len();
    let mut r: Vec<u64> = Vec::new();
    let mut x: usize = 0;
    while x < len
        invariant
            x <= len,
            len == col@.len(),
            1 <= n <= len,
            forall|i: int| 0 <= i < col@.len() ==> col@[i] <= PRICE_MAX,
            r@.len() == x,
            forall|i: int| 0 <= i < x ==> r@[i] == ma_at(col@, n as int, i),
        decreases len - x,
    {
        let v = if x < n {
            proof {
                assert(col@.subrange(0, n as int) =~= col@.take(n as int));
            }
            window_mean(col, 0, n)
        } else {
            window_mean(col, x + 1 - n, x + 1)
        };
        r.push(v);
        x = x + 1;
    }
    r
}

/// Moving-average boundary law: the first `n` outputs of the `n`-period
/// moving average are all the rounded mean of the first `n` inputs — a flat
/// run, never a progressively expanding mean.
pub proof fn lemma_ma_boundary(col: Seq<u64>, n: int)
    requires
        1 <= n <= col.len(),
    ensures
        forall|i: int| 0 <= i < n ==> ma_at(col, n, i) == mean_rounded(col.take(n)),
{
}

/// Day `i` of the series counts as declining: its middle price or its close
/// is below the previous day's.
pub open spec fn spec_declines(s: Seq<DailyBar>, i: int) -> bool
    recommends
        1 <= i < s.len(),
{
    ||| s[i].spec_middle_price_doubled() < s[i - 1].spec_middle_price_doubled()
    ||| s[i].close < s[i - 1].close
}

/// Length of the consecutive-decline run counted from the most recent day
/// backward: the scan stops at the first day that declines neither by middle
/// price nor by close, or at the start of the series.
pub open spec fn decline_run(s: Seq<DailyBar>) -> int
    decreases s.len(),
{
    if s.len() < 2 {
        0
    } else if spec_declines(s, s.len() - 1) {
        1 + decline_run(s.drop_last())
    } else {
        0
    }
}

/// Whether the series has declined for at least `n` consecutive days,
/// counted from the most recent day backward. A day counts if its middle
/// price or its close is below the previous day's (either alone suffices).
/// A series of fewer than two bars never has a decline run.
pub fn down_at_least(prices: &[DailyBar], n: i32) -> (r: bool)
    ensures
        r == (prices@.len() >= 2 && decline_run(prices@) >= n as int),
{
    let len = prices.len();
    if len < 2 {
        return false;
    }
    let mut cur: usize = len - 1;
    let mut run_on = true;
    proof {
        assert(prices@.take(len as int) =~= prices@);
    }
    while run_on && cur >= 1
        invariant
            2 <= len == prices@.len(),
            cur <= len - 1,
            run_on ==> decline_run(prices@) == (len - 1 - cur) + decline_run(
                prices@.take(cur + 1),
            ),
            !run_on ==> decline_run(prices@) == len - 1 - cur,
        decreases cur + (if run_on { 1int } else { 0int }),
    {
        let p1 = &prices[cur];
        let p2 = &prices[cur - 1];
        let declining = (p1.high as u128 + p1.low as u128) < (p2.high as u128 + p2.low as u128)
            || p1.close < p2.close;
        proof {
            let t = prices@.take(cur + 1);
            assert(t[cur as int] == prices@[cur as int]);
            assert(t[cur - 1] == prices@[cur - 1]);
            assert(spec_declines(t, cur as int) == declining);
            assert(t.drop_last() =~= prices@.take(cur as int));
        }
        if declining {
            cur = cur - 1;
        } else {
            run_on = false;
        }
    }
    proof {
        if run_on {
            assert(cur == 0);
            assert(prices@.take(1).len() == 1);
        }
    }
    let run = len - 1 - cur;
    if n <= 0 {
        true
    } else {
        run >= n as usize
    }
}

/// Monotonicity of the decline counter: a decline run of at least `n` days
/// is in particular a run of at least `m` days, for any `m <= n`.
pub proof fn lemma_down_at_least_monotone(s: Seq<DailyBar>, m: int, n: int)
    requires
        m <= n,
    ensures
        (s.len() >= 2 && decline_run(s) >= n) ==> (s.len() >= 2 && decline_run(s) >= m),
{
}

/// The decline counter extends: a run of at least `n - 1` days grows to
/// at least `n` days when the series is long enough and the day `n`
/// steps back from the end also declines.
pub proof fn lemma_decline_run_extends(s: Seq<DailyBar>, n: int)
    requires
        1 <= n,
        s.len() >= n + 1,
        decline_run(s) >= n - 1,
        spec_declines(s, s.len() - n),
    ensures
        decline_run(s) >= n,
    decreases n,
{
    if n > 1 {
        assert(spec_declines(s, s.len() - 1));
        let t = s.drop_last();
        assert(t[s.len() - n] == s[s.len() - n]);
        assert(t[s.len() - n - 1] == s[s.len() - n - 1]);
        lemma_decline_run_extends(t, n - 1);
    } else {
        lemma_decline_run_bound(s.drop_last());
    }
}

/// The decline run never exceeds the number of day-to-day steps in the
/// series: it is at most `len - 1`, and zero for fewer than two bars.
pub proof fn lemma_decline_run_bound(s: Seq<DailyBar>)
    ensures
        0 <= decline_run(s),
        decline_run(s) <= if s.len() < 2 {
            0int
        } else {
            s.len() - 1
        },
    decreases s.len(),
{
    if s.len() >= 2 {
        lemma_decline_run_bound(s.drop_last());
    }
}

/// A window length clamped to the series length.
pub open spec fn window_clamp(len: int, n: int) -> int {
    if len < n {
        len
    } else {
        n
    }
}

/// Running maximum of the closes of the last `i` bars, seeded with the
/// latest close.
pub open spec fn spec_max_close(s: Seq<DailyBar>, i: int) -> int
    recommends
        s.len() >= 1,
        0 <= i <= s.len(),
    decreases i,
{
    if i <= 0 {
        s.last().close as int
    } else {
        let prev = spec_max_close(s, i - 1);
        let c = s[s.len() - i].close as int;
        if c > prev {
            c
        } else {
            prev
        }
    }
}

/// Running minimum of the lows of the last `i` bars, seeded with the
/// latest low.
pub open spec fn spec_min_low(s: Seq<DailyBar>, i: int) -> int
    recommends
        s.len() >= 1,
        0 <= i <= s.len(),
    decreases i,
{
    if i <= 0 {
        s.last().low as int
    } else {
        let prev = spec_min_low(s, i - 1);
        let c = s[s.len() - i].low as int;
        if c < prev {
            c
        } else {
            prev
        }
    }
}

proof fn lemma_max_close_props(s: Seq<DailyBar>, k: int)
    requires
        s.len() >= 1,
        0 <= k <= s.len(),
    ensures
        spec_max_close(s, k) >= s.last().close,
        forall|j: int| s.len() - k <= j < s.len() ==> (#[trigger] s[j]).close <= spec_max_close(s, k),
        spec_max_close(s, k) == s.last().close || exists|j: int|
            s.len() - k <= j < s.len() && (#[trigger] s[j]).close == spec_max_close(s, k),
    decreases k,
{
    if k > 0 {
        lemma_max_close_props(s, k - 1);
    }
}

proof fn lemma_min_low_props(s: Seq<DailyBar>, k: int)
    requires
        s.len() >= 1,
        0 <= k <= s.len(),
    ensures
        spec_min_low(s, k) <= s.last().low,
        forall|j: int| s.len() - k <= j < s.len() ==> (#[trigger] s[j]).low >= spec_min_low(s, k),
        spec_min_low(s, k) == s.last().low || exists|j: int|
            s.len() - k <= j < s.len() && (#[trigger] s[j]).low == spec_min_low(s, k),
    decreases k,
{
    if k > 0 {
        lemma_min_low_props(s, k - 1);
    }
}

/// The highest close among the last `n` bars (fewer when the series is
/// shorter), never below the latest close: an upper bound on those
/// closes, and itself one of them.
pub fn max(prices: &[DailyBar], n: usize) -> (r: u64)
    requires
        prices@.len() >= 1,
    ensures
        r == spec_max_close(prices@, window_clamp(prices@.len() as int, n as int)),
        r >= prices@.last().close,
        forall|j: int|
            prices@.len() - window_clamp(prices@.len() as int, n as int) <= j < prices@.len()
                ==> (#[trigger] prices@[j]).close <= r,
{
    proof {
        lemma_max_close_props(prices@, window_clamp(prices@.len() as int, n as int));
    }
    let len = prices.len();
    let k = if len < n {
        len
    } else {
        n
    };
    let mut mx = prices[len - 1].close;
    let mut i: usize = 0;
    while i < k
        invariant
            i <= k <= len,
            1 <= len == prices@.len(),
            mx as int == spec_max_close(prices@, i as int),
        decreases k - i,
    {
        let c = prices[len - 1 - i].close;
        if c > mx {
            mx = c;
        }
        i = i + 1;
    }
    mx
}

/// The lowest low among the last `n` bars (fewer when the series is
/// shorter), never above the latest low: a lower bound on those lows,
/// and itself one of them.
pub fn min(prices: &[DailyBar], n: usize) -> (r: u64)
    requires
        prices@.len() >= 1,
    ensures
        r == spec_min_low(prices@, window_clamp(prices@.len() as int, n as int)),
        r <= prices@.last().low,
        forall|j: int|
            prices@.len() - window_clamp(prices@.len() as int, n as int) <= j < prices@.len()
                ==> (#[trigger] prices@[j]).low >= r,
{
    proof {
        lemma_min_low_props(prices@, window_clamp(prices@.len() as int, n as int));
    }
    let len = prices.len();
    let k = if len < n {
        len
    } else {
        n
    };
    let mut mn = prices[len - 1].low;
    let mut i: usize = 0;
    while i < k
        invariant
            i <= k <= len,
            1 <= len == prices@.len(),
            mn as int == spec_min_low(prices@, i as int),
        decreases k - i,
    {
        let c = prices[len - 1 - i].low;
        if c < mn {
            mn = c;
        }
        i = i + 1;
    }
    mn
}

/// The mean close of the last `n` bars (fewer when the series is shorter),
/// quantized to a thousandth by rounding half up.
pub fn mean(prices: &[DailyBar], n: usize) -> (r: u64)
    requires
        prices@.len() >= 1,
        n >= 1,
        series_wf(prices@),
    ensures
        r == mean_rounded(
            close_col(prices@).subrange(
                prices@.len() - window_clamp(prices@.len() as int, n as int),
                prices@.len() as int,
            ),
        ),
{
    let len = prices.len();
    let k = if len < n {
        len
    } else {
        n
    };
    let closes = close_column(prices);
    proof {
        assert forall|i: int| 0 <= i < closes@.len() implies closes@[i] <= PRICE_MAX by {
            assert(prices@[i].wf());
        }
    }
    window_mean(&closes, len - k, len)
}

/// Result of continuing the first-maximum scan at index `j` with running
/// maximum `mx`: the index where the scan breaks, or 0 when it reaches the
/// start of the column.
pub open spec fn spec_first_max_from(m: Seq<u64>, j: int, mx: int) -> int
    recommends
        0 <= j < m.len(),
    decreases j,
{
    if j <= 0 {
        0
    } else if m[j] > mx && m[j - 1] < m[j] {
        j
    } else {
        spec_first_max_from(
            m,
            j - 1,
            if m[j] > mx {
                m[j] as int
            } else {
                mx
            },
        )
    }
}

/// Result of continuing the first-minimum scan at index `j` with running
/// minimum `mn`.
pub open spec fn spec_first_min_from(m: Seq<u64>, j: int, mn: int) -> int
    recommends
        0 <= j < m.len(),
    decreases j,
{
    if j <= 0 {
        0
    } else if m[j] < mn && m[j - 1] > m[j] {
        j
    } else {
        spec_first_min_from(
            m,
            j - 1,
            if m[j] < mn {
                m[j] as int
            } else {
                mn
            },
        )
    }
}

/// Scans a column backward for the first index holding a new running
/// maximum whose left neighbour is strictly smaller; 0 when the scan
/// reaches the start of the column without one.
pub fn find_first_max(prices: &[u64]) -> (r: usize)
    requires
        prices@.len() >= 1,
    ensures
        r == spec_first_max_from(prices@, prices@.len() - 1, prices@.last() as int),
{
    let len = prices.len();
    let mut mx = prices[len - 1];
    let mut j: usize = len - 1;
    let mut found = false;
    while !found && j >= 1
        invariant
            j <= len - 1,
            1 <= len == prices@.len(),
            !found ==> spec_first_max_from(prices@, len - 1, prices@.last() as int)
                == spec_first_max_from(prices@, j as int, mx as int),
            found ==> spec_first_max_from(prices@, len - 1, prices@.last() as int) == j,
        decreases j + (if found {
            0int
        } else {
            1int
        }),
    {
        let price = prices[j];
        if price > mx {
            mx = price;
            if prices[j - 1] < mx {
                found = true;
            } else {
                j = j - 1;
            }
        } else {
            j = j - 1;
        }
    }
    j
}

/// Scans a column backward for the first index holding a new running
/// minimum whose left neighbour is strictly larger; 0 when the scan
/// reaches the start of the column without one.
pub fn find_first_min(prices: &[u64]) -> (r: usize)
    requires
        prices@.len() >= 1,
    ensures
        r == spec_first_min_from(prices@, prices@.len() - 1, prices@.last() as int),
{
    let len = prices.len();
    let mut mn = prices[len - 1];
    let mut j: usize = len - 1;
    let mut found = false;
    while !found && j >= 1
        invariant
            j <= len - 1,
            1 <= len == prices@.len(),
            !found ==> spec_first_min_from(prices@, len - 1, prices@.last() as int)
                == spec_first_min_from(prices@, j as int, mn as int),
            found ==> spec_first_min_from(prices@, len - 1, prices@.last() as int) == j,
        decreases j + (if found {
            0int
        } else {
            1int
        }),
    {
        let price = prices[j];
        if price < mn {
            mn = price;
            if prices[j - 1] > mn {
                found = true;
            } else {
                j = j - 1;
            }
        } else {
            j = j - 1;
        }
    }
    j
}

/// Which side of the latest close a level scan looks for.
enum PriceLevelType {
    Support,
    Resistance,
}

/// Index `j` of the smoothed column is a resistance candidate: a strict
/// local peak of the moving average lying above the latest close.
pub open spec fn spec_res_candidate(m: Seq<u64>, close: int, j: int) -> bool {
    &&& 1 <= j < m.len() - 1
    &&& m[j] > close
    &&& m[j - 1] < m[j]
    &&& m[j + 1] < m[j]
}

/// Index `j` of the smoothed column is a support candidate: a strict local
/// trough of the moving average lying below the latest close.
pub open spec fn spec_sup_candidate(m: Seq<u64>, close: int, j: int) -> bool {
    &&& 1 <= j < m.len() - 1
    &&& m[j] < close
    &&& m[j - 1] > m[j]
    &&& m[j + 1] > m[j]
}

/// Resistance candidates with indices in `[lo, hi]`, listed in scan order:
/// from the index nearest the latest day downward.
pub open spec fn res_candidates_between(m: Seq<u64>, close: int, lo: int, hi: int) -> Seq<int>
    decreases hi - lo + 1,
{
    if hi < lo {
        Seq::empty()
    } else if spec_res_candidate(m, close, hi) {
        seq![hi] + res_candidates_between(m, close, lo, hi - 1)
    } else {
        res_candidates_between(m, close, lo, hi - 1)
    }
}

/// Support candidates with indices in `[lo, hi]`, listed in scan order.
pub open spec fn sup_candidates_between(m: Seq<u64>, close: int, lo: int, hi: int) -> Seq<int>
    decreases hi - lo + 1,
{
    if hi < lo {
        Seq::empty()
    } else if spec_sup_candidate(m, close, hi) {
        seq![hi] + sup_candidates_between(m, close, lo, hi - 1)
    } else {
        sup_candidates_between(m, close, lo, hi - 1)
    }
}

/// All resistance candidates of the smoothed column, in scan order. The
/// scan visits the second-to-last index first and stops before index 0.
pub open spec fn res_candidates(m: Seq<u64>, close: int) -> Seq<int> {
    res_candidates_between(m, close, 1, m.len() - 2)
}

/// All support candidates of the smoothed column, in scan order.
pub open spec fn sup_candidates(m: Seq<u64>, close: int) -> Seq<int> {
    sup_candidates_between(m, close, 1, m.len() - 2)
}

proof fn lemma_res_candidates_peel_low(m: Seq<u64>, close: int, lo: int, hi: int)
    requires
        lo <= hi,
    ensures
        res_candidates_between(m, close, lo, hi) == res_candidates_between(m, close, lo + 1, hi)
            + if spec_res_candidate(m, close, lo) {
            seq![lo]
        } else {
            Seq::<int>::empty()
        },
    decreases hi - lo,
{
    let tail = if spec_res_candidate(m, close, lo) {
        seq![lo]
    } else {
        Seq::<int>::empty()
    };
    if hi == lo {
        assert(res_candidates_between(m, close, lo, hi - 1) =~= Seq::<int>::empty());
        assert(res_candidates_between(m, close, lo + 1, hi) =~= Seq::<int>::empty());
        assert(res_candidates_between(m, close, lo + 1, hi) + tail =~= res_candidates_between(
            m,
            close,
            lo,
            hi,
        ));
    } else {
        lemma_res_candidates_peel_low(m, close, lo, hi - 1);
        if spec_res_candidate(m, close, hi) {
            assert(seq![hi] + (res_candidates_between(m, close, lo + 1, hi - 1) + tail) =~= (seq![
                hi,
            ] + res_candidates_between(m, close, lo + 1, hi - 1)) + tail);
        }
    }
}

proof fn lemma_sup_candidates_peel_low(m: Seq<u64>, close: int, lo: int, hi: int)
    requires
        lo <= hi,
    ensures
        sup_candidates_between(m, close, lo, hi) == sup_candidates_between(m, close, lo + 1, hi)
            + if spec_sup_candidate(m, close, lo) {
            seq![lo]
        } else {
            Seq::<int>::empty()
        },
    decreases hi - lo,
{
    let tail = if spec_sup_candidate(m, close, lo) {
        seq![lo]
    } else {
        Seq::<int>::empty()
    };
    if hi == lo {
        assert(sup_candidates_between(m, close, lo, hi - 1) =~= Seq::<int>::empty());
        assert(sup_candidates_between(m, close, lo + 1, hi) =~= Seq::<int>::empty());
        assert(sup_candidates_between(m, close, lo + 1, hi) + tail =~= sup_candidates_between(
            m,
            close,
            lo,
            hi,
        ));
    } else {
        lemma_sup_candidates_peel_low(m, close, lo, hi - 1);
        if spec_sup_candidate(m, close, hi) {
            assert(seq![hi] + (sup_candidates_between(m, close, lo + 1, hi - 1) + tail) =~= (seq![
                hi,
            ] + sup_candidates_between(m, close, lo + 1, hi - 1)) + tail);
        }
    }
}

proof fn lemma_res_candidates_elements(m: Seq<u64>, close: int, lo: int, hi: int)
    ensures
        forall|t: int|
            0 <= t < res_candidates_between(m, close, lo, hi).len() ==> lo <= #[trigger] res_candidates_between(
                m,
                close,
                lo,
                hi,
            )[t] <= hi && spec_res_candidate(m, close, res_candidates_between(m, close, lo, hi)[t]),
    decreases hi - lo + 1,
{
    let c = res_candidates_between(m, close, lo, hi);
    if hi >= lo {
        lemma_res_candidates_elements(m, close, lo, hi - 1);
        let rest = res_candidates_between(m, close, lo, hi - 1);
        assert forall|t: int| 0 <= t < c.len() implies lo <= #[trigger] c[t] <= hi
            && spec_res_candidate(m, close, c[t]) by {
            if spec_res_candidate(m, close, hi) {
                if t == 0 {
                    assert(c[t] == hi);
                } else {
                    assert(c[t] == rest[t - 1]);
                }
            } else {
                assert(c[t] == rest[t]);
            }
        }
    } else {
        assert(c.len() == 0);
    }
}

proof fn lemma_sup_candidates_elements(m: Seq<u64>, close: int, lo: int, hi: int)
    ensures
        forall|t: int|
            0 <= t < sup_candidates_between(m, close, lo, hi).len() ==> lo <= #[trigger] sup_candidates_between(
                m,
                close,
                lo,
                hi,
            )[t] <= hi && spec_sup_candidate(m, close, sup_candidates_between(m, close, lo, hi)[t]),
    decreases hi - lo + 1,
{
    let c = sup_candidates_between(m, close, lo, hi);
    if hi >= lo {
        lemma_sup_candidates_elements(m, close, lo, hi - 1);
        let rest = sup_candidates_between(m, close, lo, hi - 1);
        assert forall|t: int| 0 <= t < c.len() implies lo <= #[trigger] c[t] <= hi
            && spec_sup_candidate(m, close, c[t]) by {
            if spec_sup_candidate(m, close, hi) {
                if t == 0 {
                    assert(c[t] == hi);
                } else {
                    assert(c[t] == rest[t - 1]);
                }
            } else {
                assert(c[t] == rest[t]);
            }
        }
    } else {
        assert(c.len() == 0);
    }
}

/// State of the resistance reduction after the first `k` candidates: the
/// smallest quantized smoothed price still above the latest close, seeded
/// with the first candidate's price, and the index that last strictly
/// improved the seed, if any.
pub open spec fn res_fold(m: Seq<u64>, close: int, c: Seq<int>, k: int) -> (int, Option<int>)
    recommends
        0 < c.len(),
        0 <= k <= c.len(),
    decreases k,
{
    if k <= 0 {
        (m[c[0]] as int, None)
    } else {
        let prev = res_fold(m, close, c, k - 1);
        let p = m[c[k - 1]] as int;
        if p > close && p < prev.0 {
            (p, Some(c[k - 1]))
        } else {
            prev
        }
    }
}

/// State of the support reduction after the first `k` candidates: the
/// largest quantized smoothed price still below the latest close, seeded
/// with the first candidate's price, and the index that last strictly
/// improved the seed, if any.
pub open spec fn sup_fold(m: Seq<u64>, close: int, c: Seq<int>, k: int) -> (int, Option<int>)
    recommends
        0 < c.len(),
        0 <= k <= c.len(),
    decreases k,
{
    if k <= 0 {
        (m[c[0]] as int, None)
    } else {
        let prev = sup_fold(m, close, c, k - 1);
        let p = m[c[k - 1]] as int;
        if p < close && p > prev.0 {
            (p, Some(c[k - 1]))
        } else {
            prev
        }
    }
}

/// The window the level detector smooths with: five periods, truncated to
/// the series length for very short series.
pub open spec fn spec_level_window(len: int) -> int {
    if len < 5 {
        len
    } else {
        5
    }
}

/// The smoothed close column the level detector scans.
pub open spec fn smoothed_closes(s: Seq<DailyBar>) -> Seq<u64> {
    Seq::new(s.len(), |i: int| ma_at(close_col(s), spec_level_window(s.len() as int), i) as u64)
}

/// The resistance level of a series: the winning resistance candidate's
/// smoothed price, pulled back to that day's raw low when the low still
/// lies above the latest close, or the latest day's raw high when no
/// candidate qualifies.
pub open spec fn spec_resistance(s: Seq<DailyBar>) -> int
    recommends
        s.len() >= 1,
{
    let close = s.last().close as int;
    let m = smoothed_closes(s);
    let c = res_candidates(m, close);
    if c.len() == 0 {
        s.last().high as int
    } else {
        let f = res_fold(m, close, c, c.len() as int);
        match f.1 {
            Some(j) => if s[j].low > close {
                s[j].low as int
            } else {
                f.0
            },
            None => f.0,
        }
    }
}

/// The support level of a series: the winning support candidate's smoothed
/// price, pulled back to that day's raw high when the high still lies below
/// the latest close, or the latest day's raw low when no candidate
/// qualifies.
pub open spec fn spec_support(s: Seq<DailyBar>) -> int
    recommends
        s.len() >= 1,
{
    let close = s.last().close as int;
    let m = smoothed_closes(s);
    let c = sup_candidates(m, close);
    if c.len() == 0 {
        s.last().low as int
    } else {
        let f = sup_fold(m, close, c, c.len() as int);
        match f.1 {
            Some(j) => if s[j].high < close {
                s[j].high as int
            } else {
                f.0
            },
            None => f.0,
        }
    }
}

/// An executable index list agrees with a spec candidate list.
pub open spec fn indexes_match(v: Seq<usize>, c: Seq<int>) -> bool {
    v.len() == c.len() && forall|t: int| 0 <= t < v.len() ==> v[t] as int == c[t]
}

/// The close column of a series, as a vector.
pub fn close_column(prices: &[DailyBar]) -> (r: Vec<u64>)
    ensures
        r@ == close_col(prices@),
{
    let len = prices.len();
    let mut r: Vec<u64> = Vec::new();
    let mut i: usize = 0;
    while i < len
        invariant
            i <= len,
            len == prices@.len(),
            r@.len() == i,
            forall|t: int| 0 <= t < i ==> r@[t] == prices@[t].close,
        decreases len - i,
    {
        r.push(prices[i].close);
        i = i + 1;
    }
    proof {
        assert(r@ =~= close_col(prices@));
    }
    r
}

/// Collects the candidate indices of one level scan, walking the smoothed
/// column from the second-to-last index backward to index 1.
#[verifier::loop_isolation(false)]
fn find_price_level_indexes(m: &Vec<u64>, latest_close: u64, level_type: PriceLevelType) -> (r:
    Vec<usize>)
    ensures
        level_type is Resistance ==> indexes_match(r@, res_candidates(m@, latest_close as int)),
        level_type is Support ==> indexes_match(r@, sup_candidates(m@, latest_close as int)),
{
    let ghost cl = latest_close as int;
    let len = m.len();
    let mut idxes: Vec<usize> = Vec::new();
    if len >= 3 {
        let mut j: usize = len - 2;
        while j >= 1
            invariant
                j <= len - 2,
                level_type is Resistance ==> indexes_match(
                    idxes@,
                    res_candidates_between(m@, cl, j + 1, len - 2),
                ),
                level_type is Support ==> indexes_match(
                    idxes@,
                    sup_candidates_between(m@, cl, j + 1, len - 2),
                ),
            decreases j,
        {
            let price = m[j];
            let pre = m[j - 1];
            let next = m[j + 1];
            let is_cand = match level_type {
                PriceLevelType::Resistance => price > latest_close && pre < price && next < price,
                PriceLevelType::Support => price < latest_close && pre > price && next > price,
            };
            proof {
                lemma_res_candidates_peel_low(m@, cl, j as int, len - 2);
                lemma_sup_candidates_peel_low(m@, cl, j as int, len - 2);
            }
            if is_cand {
                idxes.push(j);
            }
            j = j - 1;
        }
    }
    idxes
}

/// The nearest qualifying resistance and support prices of a series,
/// relative to the latest close, located in the 5-period moving average of
/// the closes and refined against raw highs and lows.
///
/// The pair is (resistance, support); resistance is never below the latest
/// close and support never above it.
#[verifier::loop_isolation(false)]
pub fn first_resistance_support_price(prices: &[DailyBar]) -> (r: (u64, u64))
    requires
        prices@.len() >= 1,
        series_wf(prices@),
    ensures
        r.0 == spec_resistance(prices@),
        r.1 == spec_support(prices@),
        r.0 >= prices@.last().close,
        r.1 <= prices@.last().close,
{
    let len = prices.len();
    let w = if len < 5 {
        len
    } else {
        5
    };
    let closes = close_column(prices);
    proof {
        assert forall|i: int| 0 <= i < closes@.len() implies closes@[i] <= PRICE_MAX by {
            assert(prices@[i].wf());
        }
    }
    let m = ma(&closes, w);
    proof {
        assert forall|i: int| 0 <= i < m@.len() implies m@[i] == smoothed_closes(prices@)[i] by {
            lemma_mean_rounded_bounds(ma_window(closes@, w as int, i));
        }
        assert(m@ =~= smoothed_closes(prices@));
    }
    let latest = &prices[len - 1];
    let latest_close = latest.close;
    let ghost cl = latest_close as int;
    proof {
        assert(prices@[len - 1].wf());
    }

    let res_idxes = find_price_level_indexes(&m, latest_close, PriceLevelType::Resistance);
    let ghost rc = res_candidates(m@, cl);
    let mut min_resistance_price = latest.high;
    if res_idxes.len() > 0 {
        proof {
            lemma_res_candidates_elements(m@, cl, 1, m@.len() - 2);
        }
        let mut best = m[res_idxes[0]];
        let mut win: usize = 0;
        let mut has_win = false;
        let mut k: usize = 0;
        while k < res_idxes.len()
            invariant
                k <= rc.len(),
                best as int == res_fold(m@, cl, rc, k as int).0,
                (if has_win {
                    Some(win as int)
                } else {
                    None
                }) == res_fold(m@, cl, rc, k as int).1,
                best > latest_close,
                has_win ==> 1 <= win < len - 1,
            decreases rc.len() - k,
        {
            let i = res_idxes[k];
            let price = m[i];
            if price > latest_close && price < best {
                best = price;
                win = i;
                has_win = true;
            }
            k = k + 1;
        }
        min_resistance_price = best;
        if has_win {
            let low = prices[win].low;
            if low > latest_close {
                min_resistance_price = low;
            }
        }
    }

    let sup_idxes = find_price_level_indexes(&m, latest_close, PriceLevelType::Support);
    let ghost sc = sup_candidates(m@, cl);
    let mut max_support_price = latest.low;
    if sup_idxes.len() > 0 {
        proof {
            lemma_sup_candidates_elements(m@, cl, 1, m@.len() - 2);
        }
        let mut best = m[sup_idxes[0]];
        let mut win: usize = 0;
        let mut has_win = false;
        let mut k: usize = 0;
        while k < sup_idxes.len()
            invariant
                k <= sc.len(),
                best as int == sup_fold(m@, cl, sc, k as int).0,
                (if has_win {
                    Some(win as int)
                } else {
                    None
                }) == sup_fold(m@, cl, sc, k as int).1,
                best < latest_close,
                has_win ==> 1 <= win < len - 1,
            decreases sc.len() - k,
        {
            let i = sup_idxes[k];
            let price = m[i];
            if price < latest_close && price > best {
                best = price;
                win = i;
                has_win = true;
            }
            k = k + 1;
        }
        max_support_price = best;
        if has_win {
            let high = prices[win].high;
            if high < latest_close {
                max_support_price = high;
            }
        }
    }

    (min_resistance_price, max_support_price)
}

} // verus!

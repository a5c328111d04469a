//! The indicator library: exponential and linear-weighted moving averages,
//! MACD and Bollinger %B over fixed-point price sequences.

use vstd::prelude::*;
use crate::fixed::{
    div_i128, in_money, lemma_abs_mul_le, lemma_tdiv_quotient_bound, tdiv, IND_LIMIT, MONEY_MAX,
    SCALE,
};

verus! {

/// Sum of a sequence of fixed-point values.
pub open spec fn sum64(s: Seq<i64>) -> int
    decreases s.len(),
{
    if s.len() == 0 {
        0
    } else {
        sum64(s.drop_last()) + s.last()
    }
}

/// The exponential moving average of `prices` with the given `period`, at
/// index `i`: zero before the first full window, the plain average of the
/// first window at index `period - 1`, and from there on the classic
/// recurrence `ema' = ema + (price - ema) * k` with `k = 2 / (period + 1)`,
/// every division truncating toward zero.
pub open spec fn spec_ema_at(prices: Seq<i64>, period: int, i: int) -> int
    decreases i,
{
    if period <= 0 || i < 0 || i < period - 1 {
        0
    } else if i == period - 1 {
        tdiv(sum64(prices.take(period)), period)
    } else {
        let prev = spec_ema_at(prices, period, i - 1);
        prev + tdiv(2 * (prices[i] - prev), period + 1)
    }
}

/// A sum of values inside a band stays inside the band scaled by the length.
pub proof fn lemma_sum64_bound(s: Seq<i64>, m: int)
    requires
        0 <= m,
        forall|k: int| 0 <= k < s.len() ==> -m <= #[trigger] s[k] <= m,
    ensures
        -(s.len() as int * m) <= sum64(s) <= s.len() as int * m,
    decreases s.len(),
{
    if s.len() == 0 {
    } else {
        lemma_sum64_bound(s.drop_last(), m);
        assert((s.len() - 1) * m + m == s.len() as int * m) by (nonlinear_arith);
    }
}

/// One step of the EMA recurrence keeps the running average between the
/// previous average and the new price, hence inside their shared band.
pub proof fn lemma_ema_step_bound(prev: int, x: int, period: int, m: int)
    requires
        1 <= period,
        0 <= m,
        -m <= prev <= m,
        -m <= x <= m,
    ensures
        -m <= prev + tdiv(2 * (x - prev), period + 1) <= m,
{
    let diff = x - prev;
    if diff >= 0 {
        assert(2 * diff <= (period + 1) * diff) by (nonlinear_arith)
            requires
                period >= 1,
                diff >= 0,
        ;
        lemma_tdiv_quotient_bound(2 * diff, period + 1, diff);
    } else {
        assert((period + 1) * (-diff) >= 2 * (-diff)) by (nonlinear_arith)
            requires
                period >= 1,
                diff < 0,
        ;
        lemma_tdiv_quotient_bound(2 * diff, period + 1, -diff);
    }
}

/// The EMA of a band-bounded sequence stays inside the band.
pub proof fn lemma_ema_at_bound(prices: Seq<i64>, period: int, i: int, m: int)
    requires
        0 <= m,
        forall|k: int| 0 <= k < prices.len() ==> -m <= #[trigger] prices[k] <= m,
        i < prices.len(),
        period <= prices.len(),
    ensures
        -m <= spec_ema_at(prices, period, i) <= m,
    decreases i,
{
    if period <= 0 || i < 0 || i < period - 1 {
    } else if i == period - 1 {
        assert(prices.take(period).len() == period);
        assert(forall|k: int|
            0 <= k < prices.take(period).len() ==> -m <= #[trigger] prices.take(period)[k] <= m);
        lemma_sum64_bound(prices.take(period), m);
        lemma_tdiv_quotient_bound(sum64(prices.take(period)), period, m);
    } else {
        lemma_ema_at_bound(prices, period, i - 1, m);
        lemma_ema_step_bound(spec_ema_at(prices, period, i - 1), prices[i] as int, period, m);
    }
}

/// The EMA sequence: one reading per input index, indices before the first
/// full window reported as zero.
pub fn ema_slice(prices: &[i64], period: usize) -> (r: Vec<i64>)
    requires
        forall|k: int| 0 <= k < prices@.len() ==> -IND_LIMIT <= #[trigger] prices@[k] <= IND_LIMIT,
        period > 0 ==> prices@.len() == 0 || prices@.len() >= period,
    ensures
        r@.len() == prices@.len(),
        forall|i: int| 0 <= i < r@.len() ==> r@[i] == spec_ema_at(prices@, period as int, i),
{
    let n = prices.len();
    let mut result: Vec<i64> = Vec::new();
    if n == 0 || period == 0 {
        while result.len() < n
            invariant
                result@.len() <= n,
                n == prices@.len(),
                period == 0 || n == 0,
                forall|i: int|
                    0 <= i < result@.len() ==> result@[i] == spec_ema_at(prices@, period as int, i),
            decreases n - result@.len(),
        {
            result.push(0);
        }
        return result;
    }
    let ghost m: int = IND_LIMIT as int;
    let mut i: usize = 0;
    while i + 1 < period
        invariant
            i < period,
            result@.len() == i,
            forall|j: int|
                0 <= j < result@.len() ==> result@[j] == spec_ema_at(prices@, period as int, j),
        decreases period - i,
    {
        result.push(0);
        i += 1;
    }
    let mut acc: i128 = 0;
    let mut j: usize = 0;
    while j < period
        invariant
            j <= period <= prices@.len(),
            forall|k: int|
                0 <= k < prices@.len() ==> -IND_LIMIT <= #[trigger] prices@[k] <= IND_LIMIT,
            m == IND_LIMIT as int,
            acc == sum64(prices@.take(j as int)),
            -(j as int * m) <= acc <= j as int * m,
        decreases period - j,
    {
        proof {
            assert(prices@.take(j + 1).drop_last() =~= prices@.take(j as int));
            assert(prices@.take(j + 1).last() == prices@[j as int]);
            assert((j as int + 1) * m == j as int * m + m) by (nonlinear_arith);
            assert(j as int * m <= 0x1_0000_0000_0000_0000 * m) by (nonlinear_arith)
                requires
                    0 <= j as int <= 0x1_0000_0000_0000_0000,
                    0 <= m,
            ;
            assert(-(j as int * m) >= -(0x1_0000_0000_0000_0000 * m));
            assert(-IND_LIMIT <= prices@[j as int] <= IND_LIMIT);
        }
        acc = acc + (prices[j] as i128);
        j += 1;
    }
    proof {
        assert(period as int * m <= 0x1_0000_0000_0000_0000 * m) by (nonlinear_arith)
            requires
                0 <= period as int <= 0x1_0000_0000_0000_0000,
                0 <= m,
        ;
        lemma_tdiv_quotient_bound(acc as int, period as int, m);
    }
    let first: i64 = div_i128(acc, period as i128) as i64;
    result.push(first);
    assert(result@.len() == period);
    assert(result@[period - 1] == spec_ema_at(prices@, period as int, period - 1));
    let mut prev: i64 = first;
    let mut idx: usize = period;
    while idx < n
        invariant
            period <= idx <= n,
            period >= 1,
            n == prices@.len(),
            result@.len() == idx,
            forall|k: int|
                0 <= k < prices@.len() ==> -IND_LIMIT <= #[trigger] prices@[k] <= IND_LIMIT,
            m == IND_LIMIT as int,
            prev == spec_ema_at(prices@, period as int, idx - 1),
            -IND_LIMIT <= prev <= IND_LIMIT,
            forall|j: int|
                0 <= j < result@.len() ==> result@[j] == spec_ema_at(prices@, period as int, j),
        decreases n - idx,
    {
        proof {
            lemma_ema_step_bound(prev as int, prices@[idx as int] as int, period as int, m);
        }
        let diff: i128 = (prices[idx] as i128) - (prev as i128);
        let delta: i128 = div_i128(2 * diff, (period as i128) + 1);
        let next: i64 = ((prev as i128) + delta) as i64;
        result.push(next);
        prev = next;
        idx += 1;
    }
    result
}

/// The MACD line at index `i`: fast EMA(12) minus slow EMA(25).
pub open spec fn spec_macd_at(prices: Seq<i64>, i: int) -> int {
    spec_ema_at(prices, 12, i) - spec_ema_at(prices, 25, i)
}

/// The whole MACD line as a sequence.
pub open spec fn spec_macd_seq(prices: Seq<i64>) -> Seq<i64> {
    Seq::new(prices.len(), |i: int| spec_macd_at(prices, i) as i64)
}

/// The MACD signal line at index `i`: the MACD line smoothed by EMA(9).
pub open spec fn spec_signal_at(prices: Seq<i64>, i: int) -> int {
    spec_ema_at(spec_macd_seq(prices), 9, i)
}

/// The three MACD series over a price sequence: the MACD line, its signal
/// line, and the histogram of their difference, index-aligned with the
/// input.
pub fn macd_slice(prices: &[i64]) -> (r: (Vec<i64>, Vec<i64>, Vec<i64>))
    requires
        forall|k: int| 0 <= k < prices@.len() ==> -MONEY_MAX <= #[trigger] prices@[k] <= MONEY_MAX,
        prices@.len() == 0 || prices@.len() >= 25,
    ensures
        r.0@.len() == prices@.len(),
        r.1@.len() == prices@.len(),
        r.2@.len() == prices@.len(),
        r.0@ == spec_macd_seq(prices@),
        forall|i: int| 0 <= i < prices@.len() ==> #[trigger] r.0@[i] == spec_macd_at(prices@, i),
        forall|i: int| 0 <= i < prices@.len() ==> #[trigger] r.1@[i] == spec_signal_at(prices@, i),
        forall|i: int| 0 <= i < prices@.len() ==> #[trigger] r.2@[i] == r.0@[i] - r.1@[i],
{
    let n = prices.len();
    let fast = ema_slice(prices, 12);
    let slow = ema_slice(prices, 25);
    let mut line: Vec<i64> = Vec::new();
    let mut i: usize = 0;
    while i < n
        invariant
            i <= n,
            n == prices@.len(),
            n == 0 || n >= 25,
            forall|k: int|
                0 <= k < prices@.len() ==> -MONEY_MAX <= #[trigger] prices@[k] <= MONEY_MAX,
            fast@.len() == n,
            slow@.len() == n,
            forall|k: int| 0 <= k < n ==> fast@[k] == spec_ema_at(prices@, 12, k),
            forall|k: int| 0 <= k < n ==> slow@[k] == spec_ema_at(prices@, 25, k),
            line@.len() == i,
            forall|k: int| 0 <= k < i ==> #[trigger] line@[k] == spec_macd_at(prices@, k),
            forall|k: int| 0 <= k < i ==> -IND_LIMIT <= #[trigger] line@[k] <= IND_LIMIT,
        decreases n - i,
    {
        proof {
            lemma_ema_at_bound(prices@, 12, i as int, MONEY_MAX as int);
            lemma_ema_at_bound(prices@, 25, i as int, MONEY_MAX as int);
        }
        line.push(fast[i] - slow[i]);
        i += 1;
    }
    proof {
        assert(line@ =~= spec_macd_seq(prices@));
    }
    let signal = ema_slice(line.as_slice(), 9);
    let mut hist: Vec<i64> = Vec::new();
    let mut j: usize = 0;
    while j < n
        invariant
            j <= n,
            n == prices@.len(),
            n == 0 || n >= 25,
            line@.len() == n,
            signal@.len() == n,
            line@ == spec_macd_seq(prices@),
            forall|k: int| 0 <= k < n ==> -IND_LIMIT <= #[trigger] line@[k] <= IND_LIMIT,
            forall|k: int| 0 <= k < n ==> signal@[k] == spec_ema_at(line@, 9, k),
            hist@.len() == j,
            forall|k: int| 0 <= k < j ==> #[trigger] hist@[k] == line@[k] - signal@[k],
        decreases n - j,
    {
        proof {
            lemma_ema_at_bound(line@, 9, j as int, IND_LIMIT as int);
        }
        hist.push(line[j] - signal[j]);
        j += 1;
    }
    (line, signal, hist)
}

/// The latest MACD reading: the last value of each of the three series, or
/// zeroes on an empty input.
pub fn macd(prices: &[i64]) -> (r: (i64, i64, i64))
    requires
        forall|k: int| 0 <= k < prices@.len() ==> -MONEY_MAX <= #[trigger] prices@[k] <= MONEY_MAX,
        prices@.len() == 0 || prices@.len() >= 25,
    ensures
        prices@.len() == 0 ==> r == (0i64, 0i64, 0i64),
        prices@.len() > 0 ==> {
            &&& r.0 == spec_macd_at(prices@, prices@.len() - 1)
            &&& r.1 == spec_signal_at(prices@, prices@.len() - 1)
            &&& r.2 == r.0 - r.1
        },
{
    let (line, signal, hist) = macd_slice(prices);
    let n = line.len();
    if n == 0 {
        (0, 0, 0)
    } else {
        (line[n - 1], signal[n - 1], hist[n - 1])
    }
}

/// The linearly-weighted sum of `count` prices starting at `start`, the
/// newest weighted heaviest.
pub open spec fn spec_wsum(prices: Seq<i64>, start: int, count: int) -> int
    decreases count,
{
    if count <= 0 {
        0
    } else {
        spec_wsum(prices, start, count - 1) + prices[start + count - 1] * count
    }
}

/// The weight total of a linearly-weighted window: `1 + 2 + ... + period`.
pub open spec fn spec_weight(period: int) -> int
    decreases period,
{
    if period <= 0 {
        0
    } else {
        spec_weight(period - 1) + period
    }
}

/// The closed form of the weight total and a quadratic upper bound on it.
pub proof fn lemma_weight_closed_form(period: int)
    requires
        0 <= period,
    ensures
        spec_weight(period) == period * (period + 1) / 2,
        period >= 1 ==> 1 <= spec_weight(period),
        spec_weight(period) <= period * period + 1,
    decreases period,
{
    if period == 0 {
    } else {
        lemma_weight_closed_form(period - 1);
        assert((period - 1) * period / 2 + period == period * (period + 1) / 2
            && period * (period + 1) / 2 <= period * period + 1) by (nonlinear_arith)
            requires
                period >= 1,
        ;
    }
}

/// The weight total grows with the window.
pub proof fn lemma_weight_mono(a: int, b: int)
    requires
        0 <= a <= b,
    ensures
        spec_weight(a) <= spec_weight(b),
    decreases b,
{
    if a < b {
        lemma_weight_mono(a, b - 1);
    }
}

/// The linearly-weighted moving average of the window of `period` prices
/// starting at `start`.
pub open spec fn spec_slma_at(prices: Seq<i64>, period: int, start: int) -> int {
    tdiv(spec_wsum(prices, start, period), spec_weight(period))
}

/// A linearly-weighted sum over a band-bounded window is bounded by the
/// weight total scaled by the band.
pub proof fn lemma_wsum_bound(prices: Seq<i64>, start: int, count: int, m: int)
    requires
        0 <= m,
        0 <= start,
        start + count <= prices.len(),
        forall|k: int| 0 <= k < prices.len() ==> -m <= #[trigger] prices[k] <= m,
    ensures
        -(spec_weight(count) * m) <= spec_wsum(prices, start, count) <= spec_weight(count) * m,
    decreases count,
{
    if count <= 0 {
    } else {
        lemma_wsum_bound(prices, start, count - 1, m);
        lemma_abs_mul_le(prices[start + count - 1] as int, count, m, count);
        assert(spec_weight(count - 1) * m + m * count == spec_weight(count) * m) by (nonlinear_arith)
            requires
                spec_weight(count) == spec_weight(count - 1) + count,
        ;
    }
}

/// The linearly-weighted sum of one window, computed exactly.
fn wsum_window(prices: &[i64], start: usize, period: usize) -> (acc: i128)
    requires
        1 <= period <= 100_000,
        start + period <= prices@.len(),
        forall|k: int| 0 <= k < prices@.len() ==> -IND_LIMIT <= #[trigger] prices@[k] <= IND_LIMIT,
    ensures
        acc == spec_wsum(prices@, start as int, period as int),
        -(spec_weight(period as int) * IND_LIMIT as int) <= acc
            <= spec_weight(period as int) * IND_LIMIT as int,
{
    let ghost m: int = IND_LIMIT as int;
    let n: usize = prices.len();
    let mut acc: i128 = 0;
    let mut j: usize = 0;
    while j < period
        invariant
            j <= period <= 100_000,
            start + period <= n,
            n == prices@.len(),
            m == IND_LIMIT as int,
            forall|k: int|
                0 <= k < prices@.len() ==> -IND_LIMIT <= #[trigger] prices@[k] <= IND_LIMIT,
            acc == spec_wsum(prices@, start as int, j as int),
            -(spec_weight(j as int) * m) <= acc <= spec_weight(j as int) * m,
        decreases period - j,
    {
        proof {
            lemma_abs_mul_le(prices@[start + j] as int, j as int + 1, m, j as int + 1);
            assert(spec_weight(j as int) * m + m * (j as int + 1) == spec_weight(j as int + 1) * m)
                by (nonlinear_arith)
                requires
                    spec_weight(j as int + 1) == spec_weight(j as int) + j as int + 1,
            ;
            lemma_weight_mono(j as int + 1, 100_000);
            lemma_weight_closed_form(100_000);
            lemma_abs_mul_le(spec_weight(j as int + 1), m, spec_weight(100_000), m);
            lemma_abs_mul_le(spec_weight(j as int), m, spec_weight(100_000), m);
        }
        let w: i128 = (j as i128) + 1;
        acc = acc + (prices[start + j] as i128) * w;
        j += 1;
    }
    acc
}

/// The linearly-weighted moving average of the last `period` prices, or zero
/// when there are fewer than `period` of them.
pub fn slma(prices: &[i64], period: usize) -> (r: i64)
    requires
        1 <= period <= 100_000,
        forall|k: int| 0 <= k < prices@.len() ==> -IND_LIMIT <= #[trigger] prices@[k] <= IND_LIMIT,
    ensures
        prices@.len() < period ==> r == 0,
        prices@.len() >= period ==> r == spec_slma_at(
            prices@,
            period as int,
            prices@.len() - period as int,
        ),
{
    if prices.len() < period {
        return 0;
    }
    let start = prices.len() - period;
    let acc = wsum_window(prices, start, period);
    proof {
        lemma_weight_closed_form(period as int);
        assert(period as int * (period as int + 1) <= 10_000_100_000) by (nonlinear_arith)
            requires
                1 <= period as int <= 100_000,
        ;
    }
    let weight: u64 = (period as u64) * (period as u64 + 1) / 2;
    proof {
        assert(weight as int == spec_weight(period as int));
        lemma_tdiv_quotient_bound(acc as int, spec_weight(period as int), IND_LIMIT as int);
    }
    div_i128(acc, weight as i128) as i64
}

/// One linearly-weighted average per window position, oldest window first;
/// empty when there are fewer than `period` prices.
pub fn slma_slice(prices: &[i64], period: usize) -> (r: Vec<i64>)
    requires
        1 <= period <= 100_000,
        forall|k: int| 0 <= k < prices@.len() ==> -IND_LIMIT <= #[trigger] prices@[k] <= IND_LIMIT,
    ensures
        prices@.len() < period ==> r@.len() == 0,
        prices@.len() >= period ==> r@.len() == prices@.len() - period + 1,
        forall|i: int|
            0 <= i < r@.len() ==> #[trigger] r@[i] == spec_slma_at(prices@, period as int, i),
{
    let mut result: Vec<i64> = Vec::new();
    if prices.len() < period {
        return result;
    }
    let count = prices.len() - period + 1;
    proof {
        lemma_weight_closed_form(period as int);
        assert(period as int * (period as int + 1) <= 10_000_100_000) by (nonlinear_arith)
            requires
                1 <= period as int <= 100_000,
        ;
    }
    let weight: u64 = (period as u64) * (period as u64 + 1) / 2;
    proof {
        assert(weight as int == spec_weight(period as int));
    }
    let mut i: usize = 0;
    while i < count
        invariant
            i <= count,
            1 <= period <= 100_000,
            count == prices@.len() - period + 1,
            weight as int == spec_weight(period as int),
            1 <= spec_weight(period as int),
            forall|k: int|
                0 <= k < prices@.len() ==> -IND_LIMIT <= #[trigger] prices@[k] <= IND_LIMIT,
            result@.len() == i,
            forall|k: int|
                0 <= k < i ==> #[trigger] result@[k] == spec_slma_at(prices@, period as int, k),
        decreases count - i,
    {
        let acc = wsum_window(prices, i, period);
        proof {
            lemma_tdiv_quotient_bound(acc as int, spec_weight(period as int), IND_LIMIT as int);
        }
        result.push(div_i128(acc, weight as i128) as i64);
        i += 1;
    }
    result
}

/// The exponential moving average of the whole sequence; signals
/// insufficient data instead of producing a misleading number.
pub fn ema(prices: &[i64], period: usize) -> (r: Option<i64>)
    requires
        forall|k: int| 0 <= k < prices@.len() ==> -IND_LIMIT <= #[trigger] prices@[k] <= IND_LIMIT,
    ensures
        r is None <==> (period == 0 || prices@.len() < period),
        r is Some ==> r->0 == spec_ema_at(prices@, period as int, prices@.len() - 1),
{
    if period == 0 || prices.len() < period {
        return None;
    }
    let v = ema_slice(prices, period);
    Some(v[prices.len() - 1])
}

/// Sum of the `count` prices starting at `start`.
pub open spec fn spec_sum_range(prices: Seq<i64>, start: int, count: int) -> int
    decreases count,
{
    if count <= 0 {
        0
    } else {
        spec_sum_range(prices, start, count - 1) + prices[start + count - 1]
    }
}

/// The simple moving average of the window of `period` prices ending at
/// index `i`.
pub open spec fn spec_sma(prices: Seq<i64>, period: int, i: int) -> int {
    tdiv(spec_sum_range(prices, i + 1 - period, period), period)
}

/// Sum of squared deviations from `center` over the window of `count`
/// prices starting at `start`.
pub open spec fn spec_sqdev_sum(prices: Seq<i64>, start: int, count: int, center: int) -> int
    decreases count,
{
    if count <= 0 {
        0
    } else {
        spec_sqdev_sum(prices, start, count - 1, center) + (prices[start + count - 1] - center)
            * (prices[start + count - 1] - center)
    }
}

/// The population variance of the window of `period` prices ending at
/// index `i`, around its truncated mean.
pub open spec fn spec_variance(prices: Seq<i64>, period: int, i: int) -> int {
    tdiv(
        spec_sqdev_sum(prices, i + 1 - period, period, spec_sma(prices, period, i)),
        period,
    )
}

/// Whether `r` is the integer square root of `x`.
pub open spec fn is_sqrt(x: int, r: int) -> bool {
    0 <= r && r * r <= x && x < (r + 1) * (r + 1)
}

/// The integer square root of a non-negative value.
pub open spec fn spec_isqrt(x: int) -> int {
    choose|r: int| is_sqrt(x, r)
}

/// The integer square root is unique, so any witness is the chosen one.
pub proof fn lemma_isqrt_unique(x: int, r: int)
    requires
        is_sqrt(x, r),
    ensures
        spec_isqrt(x) == r,
{
    assert(exists|q: int| is_sqrt(x, q)) by {
        assert(is_sqrt(x, r));
    }
    let c = spec_isqrt(x);
    assert(is_sqrt(x, c));
    assert(c == r) by (nonlinear_arith)
        requires
            is_sqrt(x, c),
            is_sqrt(x, r),
    ;
}

/// Bollinger %B at index `i`: the position of the price inside the band of
/// two standard deviations around the window mean, as a fixed-point ratio.
pub open spec fn spec_percent_b_val(prices: Seq<i64>, period: int, i: int) -> int {
    let sma = spec_sma(prices, period, i);
    let sigma = spec_isqrt(spec_variance(prices, period, i));
    tdiv((prices[i] - (sma - 2 * sigma)) * SCALE as int, 4 * sigma)
}

/// Bollinger %B at index `i`, or nothing where it is undefined: before the
/// first full window, on a flat window (zero band width), or when the ratio
/// leaves the representable range.
pub open spec fn spec_percent_b(prices: Seq<i64>, period: int, i: int) -> Option<int> {
    if period <= 0 || i < period - 1 || i >= prices.len() {
        None
    } else if spec_isqrt(spec_variance(prices, period, i)) == 0 {
        None
    } else if in_money(spec_percent_b_val(prices, period, i)) {
        Some(spec_percent_b_val(prices, period, i))
    } else {
        None
    }
}

/// Bollinger %B at index `i`, with zero standing for undefined.
pub open spec fn spec_percent_b_or_zero(prices: Seq<i64>, period: int, i: int) -> int {
    match spec_percent_b(prices, period, i) {
        Some(v) => v,
        None => 0,
    }
}

/// The integer square root, by bisection.
fn isqrt_u128(x: u128) -> (r: u128)
    requires
        x < 0x4000_0000_0000_0000_0000_0000_0000_0000u128,
    ensures
        is_sqrt(x as int, r as int),
        r <= 0x8000_0000_0000_0000u128,
{
    let mut lo: u128 = 0;
    let mut hi: u128 = 0x8000_0000_0000_0000u128 + 1;
    proof {
        assert((0x8000_0000_0000_0000u128 + 1) * (0x8000_0000_0000_0000u128 + 1)
            > 0x4000_0000_0000_0000_0000_0000_0000_0000u128) by (nonlinear_arith);
    }
    while lo + 1 < hi
        invariant
            lo < hi <= 0x8000_0000_0000_0000u128 + 1,
            lo * lo <= x,
            x < hi * hi,
        decreases hi - lo,
    {
        let mid: u128 = lo + (hi - lo) / 2;
        proof {
            assert(mid * mid <= 0x8000_0000_0000_0000u128 * 0x8000_0000_0000_0000u128)
                by (nonlinear_arith)
                requires
                    mid <= 0x8000_0000_0000_0000u128,
            ;
        }
        if mid * mid <= x {
            lo = mid;
        } else {
            hi = mid;
        }
    }
    lo
}

/// Bollinger %B of the window of `period` prices ending at index `i`.
fn percent_b_at(prices: &[i64], period: usize, i: usize) -> (r: Option<i64>)
    requires
        1 <= period <= 1000,
        period - 1 <= i < prices@.len(),
        forall|k: int| 0 <= k < prices@.len() ==> -MONEY_MAX <= #[trigger] prices@[k] <= MONEY_MAX,
    ensures
        r is None <==> spec_percent_b(prices@, period as int, i as int) is None,
        r is Some ==> Some(r->0 as int) == spec_percent_b(prices@, period as int, i as int),
{
    let ghost m: int = MONEY_MAX as int;
    let n: usize = prices.len();
    let start: usize = i + 1 - period;
    let mut acc: i128 = 0;
    let mut j: usize = 0;
    while j < period
        invariant
            j <= period <= 1000,
            start + period <= n,
            n == prices@.len(),
            m == MONEY_MAX as int,
            forall|k: int|
                0 <= k < prices@.len() ==> -MONEY_MAX <= #[trigger] prices@[k] <= MONEY_MAX,
            acc == spec_sum_range(prices@, start as int, j as int),
            -(j as int * m) <= acc <= j as int * m,
        decreases period - j,
    {
        proof {
            assert((j as int + 1) * m == j as int * m + m) by (nonlinear_arith);
            assert(j as int * m <= 1000 * m) by (nonlinear_arith)
                requires
                    0 <= j as int <= 1000,
                    0 <= m,
            ;
            assert(-(j as int * m) >= -(1000 * m));
        }
        acc = acc + (prices[start + j] as i128);
        j += 1;
    }
    proof {
        assert(period as int * m <= 1000 * m) by (nonlinear_arith)
            requires
                0 <= period as int <= 1000,
                0 <= m,
        ;
        lemma_tdiv_quotient_bound(acc as int, period as int, m);
    }
    let sma: i64 = div_i128(acc, period as i128) as i64;
    assert(sma == spec_sma(prices@, period as int, i as int));
    let ghost v2: int = 4 * m * m;
    let mut sq: i128 = 0;
    let mut j2: usize = 0;
    while j2 < period
        invariant
            j2 <= period <= 1000,
            start + period <= n,
            n == prices@.len(),
            m == MONEY_MAX as int,
            v2 == 4 * m * m,
            -MONEY_MAX <= sma <= MONEY_MAX,
            forall|k: int|
                0 <= k < prices@.len() ==> -MONEY_MAX <= #[trigger] prices@[k] <= MONEY_MAX,
            sq == spec_sqdev_sum(prices@, start as int, j2 as int, sma as int),
            0 <= sq <= j2 as int * v2,
        decreases period - j2,
    {
        proof {
            let d = prices@[start + j2] as int - sma as int;
            lemma_abs_mul_le(d, d, 2 * m, 2 * m);
            assert(d * d >= 0) by (nonlinear_arith);
            assert(2 * m * (2 * m) == 4 * m * m) by (nonlinear_arith);
            assert((j2 as int + 1) * v2 == j2 as int * v2 + v2) by (nonlinear_arith);
            assert(j2 as int * v2 <= 1000 * v2) by (nonlinear_arith)
                requires
                    0 <= j2 as int <= 1000,
                    0 <= v2,
            ;
        }
        let d: i128 = (prices[start + j2] as i128) - (sma as i128);
        sq = sq + d * d;
        j2 += 1;
    }
    proof {
        assert(period as int * v2 <= 1000 * v2) by (nonlinear_arith)
            requires
                0 <= period as int <= 1000,
                0 <= v2,
        ;
        lemma_tdiv_quotient_bound(sq as int, period as int, v2);
        crate::fixed::lemma_tdiv_mag(sq as int, period as int);
    }
    let variance: i128 = div_i128(sq, period as i128);
    let sigma128: u128 = isqrt_u128(variance as u128);
    proof {
        lemma_isqrt_unique(variance as int, sigma128 as int);
        assert(sigma128 as int * sigma128 as int <= variance as int);
        assert(sigma128 <= 0x2_0000_0000_0000_0000u128) by (nonlinear_arith)
            requires
                sigma128 as int * sigma128 as int <= variance as int,
                variance as int <= 4 * m * m,
                m == MONEY_MAX as int,
                sigma128 >= 0,
        ;
    }
    if sigma128 == 0 {
        return None;
    }
    let sigma: i128 = sigma128 as i128;
    let spread: i128 = (prices[i] as i128) - (sma as i128) + 2 * sigma;
    proof {
        assert(-(0x8_0000_0000_0000_0000i128) <= spread <= 0x8_0000_0000_0000_0000i128);
        lemma_abs_mul_le(spread as int, SCALE as int, 0x8_0000_0000_0000_0000, SCALE as int);
    }
    let numer: i128 = spread * (SCALE as i128);
    proof {
        crate::fixed::lemma_tdiv_mag(numer as int, 4 * sigma as int);
    }
    let v: i128 = div_i128(numer, 4 * sigma);
    if v > MONEY_MAX as i128 || v < -(MONEY_MAX as i128) {
        return None;
    }
    Some(v as i64)
}

/// Bollinger %B of the trailing window: where the last price sits inside
/// the band of two standard deviations around the window mean.  Nothing on
/// insufficient data, a flat window, or a ratio out of the representable
/// range.
pub fn bollinger_bands_b(prices: &[i64], period: usize) -> (r: Option<i64>)
    requires
        period <= 1000,
        forall|k: int| 0 <= k < prices@.len() ==> -MONEY_MAX <= #[trigger] prices@[k] <= MONEY_MAX,
    ensures
        (period == 0 || prices@.len() < period) ==> r is None,
        (period >= 1 && prices@.len() >= period) ==> {
            &&& (r is None <==> spec_percent_b(prices@, period as int, prices@.len() - 1) is None)
            &&& (r is Some ==> Some(r->0 as int) == spec_percent_b(
                prices@,
                period as int,
                prices@.len() - 1,
            ))
        },
{
    let n = prices.len();
    if n < period || period == 0 {
        return None;
    }
    percent_b_at(prices, period, n - 1)
}

/// One Bollinger %B reading per input index, zero where it is undefined.
pub fn bollinger_percent_b_slice(prices: &[i64], period: usize) -> (r: Vec<i64>)
    requires
        1 <= period <= 1000,
        forall|k: int| 0 <= k < prices@.len() ==> -MONEY_MAX <= #[trigger] prices@[k] <= MONEY_MAX,
    ensures
        r@.len() == prices@.len(),
        forall|i: int|
            0 <= i < r@.len() ==> #[trigger] r@[i] == spec_percent_b_or_zero(
                prices@,
                period as int,
                i,
            ),
{
    let n = prices.len();
    let mut result: Vec<i64> = Vec::new();
    let mut i: usize = 0;
    while i < n
        invariant
            i <= n,
            n == prices@.len(),
            1 <= period <= 1000,
            forall|k: int|
                0 <= k < prices@.len() ==> -MONEY_MAX <= #[trigger] prices@[k] <= MONEY_MAX,
            result@.len() == i,
            forall|k: int|
                0 <= k < i ==> #[trigger] result@[k] == spec_percent_b_or_zero(
                    prices@,
                    period as int,
                    k,
                ),
        decreases n - i,
    {
        if i + 1 < period {
            result.push(0);
        } else {
            let v = percent_b_at(prices, period, i);
            match v {
                Some(x) => result.push(x),
                None => result.push(0),
            }
        }
        i += 1;
    }
    result
}

} // verus!

use vstd::prelude::*;
use crate::estimate::{estimate_of, Estimates, Statistic};
use crate::geometry::{lemma_seq_max, max_of, seq_max};
use crate::order::{is_permutation, lemma_stable_order_unique, stable_order, stably_sorted};
use crate::scale::{lemma_pow10_monotone, pow10};
use crate::text::{decimal_label, fixed2, fixed2_string, parse_decimal, Decimal, MAX_FRACTION_DIGITS};

verus! {

/// One benchmark of a group, as the summary compares it.
#[derive(Clone, Debug, PartialEq, Eq)]
pub struct BenchEntry {
    /// The benchmark's directory name.
    pub label: String,
    pub estimates: Estimates,
    /// Average time per iteration of each measurement, in picoseconds.
    pub avg_times: Vec<u64>,
}

/// `elapsed[k] / iters[k]` for each measurement, rounded down.
pub fn average_times(iters: &Vec<u64>, elapsed: &Vec<u64>) -> (r: Vec<u64>)
    requires
        iters@.len() == elapsed@.len(),
        forall|k: int| 0 <= k < iters@.len() ==> iters@[k] >= 1,
    ensures
        r@.len() == iters@.len(),
        forall|k: int| 0 <= k < r@.len() ==> r@[k] == elapsed@[k] / iters@[k],
{
    let mut r: Vec<u64> = Vec::new();
    let mut k: usize = 0;
    while k < iters.len()
        invariant
            iters@.len() == elapsed@.len(),
            forall|j: int| 0 <= j < iters@.len() ==> iters@[j] >= 1,
            k <= iters@.len(),
            r@.len() == k,
            forall|j: int| 0 <= j < k ==> r@[j] == elapsed@[j] / iters@[j],
        decreases iters@.len() - k,
    {
        r.push(elapsed[k] / iters[k]);
        k = k + 1;
    }
    r
}

/// A summary needs at least two benchmarks to compare.
pub open spec fn enough_to_compare(n: int) -> bool {
    n >= 2
}

/// Whether a group of `n` usable benchmarks gets summary charts; with
/// fewer than two nothing is drawn and no directory is made.
pub fn should_summarize(n: usize) -> (r: bool)
    ensures
        r == enough_to_compare(n as int),
{
    n >= 2
}

/// The numeric inputs of a group, when every label reads as a decimal
/// number.
pub fn numeric_inputs(entries: &Vec<BenchEntry>) -> (r: Option<Vec<Decimal>>)
    ensures
        match r {
            Some(v) => v@.len() == entries@.len() && forall|k: int|
                0 <= k < entries@.len() ==> decimal_label(#[trigger] entries@[k].label@) == Some(
                    (v@[k].mantissa as nat, v@[k].scale as nat),
                ),
            None => exists|k: int|
                0 <= k < entries@.len() && (#[trigger] decimal_label(entries@[k].label@)) is None,
        },
{
    let mut v: Vec<Decimal> = Vec::new();
    let mut k: usize = 0;
    while k < entries.len()
        invariant
            k <= entries@.len(),
            v@.len() == k,
            forall|j: int|
                0 <= j < k ==> decimal_label(#[trigger] entries@[j].label@) == Some(
                    (v@[j].mantissa as nat, v@[j].scale as nat),
                ),
        decreases entries@.len() - k,
    {
        match parse_decimal(entries[k].label.as_str()) {
            Some(x) => v.push(x),
            None => {
                assert(decimal_label(entries@[k as int].label@) is None);
                return None;
            },
        }
        k = k + 1;
    }
    Some(v)
}

/// The value of a decimal label with mantissa `d.0` and `d.1` fraction
/// digits, in units of `10^-MAX_FRACTION_DIGITS`.
pub open spec fn input_value(d: (nat, nat)) -> int {
    (d.0 * pow10((MAX_FRACTION_DIGITS - d.1) as nat)) as int
}

fn pow10_exec(e: u32) -> (r: u128)
    requires
        e <= MAX_FRACTION_DIGITS,
    ensures
        r == pow10(e as nat),
        r <= 1000000000000000000,
{
    let mut r: u128 = 1;
    let mut k: u32 = 0;
    proof {
        reveal_with_fuel(pow10, 19);
        lemma_pow10_monotone(e as nat, MAX_FRACTION_DIGITS as nat);
    }
    while k < e
        invariant
            k <= e <= MAX_FRACTION_DIGITS,
            r == pow10(k as nat),
            pow10(e as nat) <= pow10(MAX_FRACTION_DIGITS as nat),
            pow10(MAX_FRACTION_DIGITS as nat) == 1000000000000000000,
        decreases e - k,
    {
        proof {
            lemma_pow10_monotone((k + 1) as nat, e as nat);
        }
        r = r * 10;
        k = k + 1;
    }
    r
}

/// The inputs as sort keys: each value in units of `10^-MAX_FRACTION_DIGITS`.
pub fn input_keys(inputs: &Vec<Decimal>) -> (r: Vec<i128>)
    requires
        forall|k: int| 0 <= k < inputs@.len() ==> (#[trigger] inputs@[k]).scale <= MAX_FRACTION_DIGITS,
    ensures
        r@.len() == inputs@.len(),
        forall|k: int|
            0 <= k < inputs@.len() ==> r@[k] as int == input_value(
                ((#[trigger] inputs@[k]).mantissa as nat, inputs@[k].scale as nat),
            ),
{
    let mut r: Vec<i128> = Vec::new();
    let mut k: usize = 0;
    while k < inputs.len()
        invariant
            forall|j: int| 0 <= j < inputs@.len() ==> (#[trigger] inputs@[j]).scale <= MAX_FRACTION_DIGITS,
            k <= inputs@.len(),
            r@.len() == k,
            forall|j: int|
                0 <= j < k ==> r@[j] as int == input_value(
                    ((#[trigger] inputs@[j]).mantissa as nat, inputs@[j].scale as nat),
                ),
        decreases inputs@.len() - k,
    {
        let d = inputs[k];
        let f = pow10_exec(MAX_FRACTION_DIGITS - d.scale);
        assert(d.mantissa as int * f as int <= 0xffff_ffff_ffff_ffff * 1000000000000000000) by (nonlinear_arith)
            requires d.mantissa <= 0xffff_ffff_ffff_ffff, f <= 1000000000000000000;
        r.push((d.mantissa as u128 * f) as i128);
        k = k + 1;
    }
    r
}

/// The positions of `keys` in ascending order, equal keys in the order
/// they come in.
pub fn ascending_order(keys: &Vec<i128>) -> (r: Vec<usize>)
    ensures
        is_permutation(r@, keys@.len() as int),
        stably_sorted(r@, keys@),
{
    stable_order(keys)
}

pub open spec fn negated(v: Seq<i64>) -> Seq<i128> {
    Seq::new(v.len(), |k: int| -(v[k] as int) as i128)
}

/// The positions of `points` from the largest value down, equal values in
/// the order they come in.
pub fn descending_order(points: &Vec<i64>) -> (r: Vec<usize>)
    ensures
        is_permutation(r@, points@.len() as int),
        stably_sorted(r@, negated(points@)),
{
    let mut keys: Vec<i128> = Vec::new();
    let mut k: usize = 0;
    while k < points.len()
        invariant
            k <= points@.len(),
            keys@ == negated(points@).subrange(0, k as int),
        decreases points@.len() - k,
    {
        keys.push(-(points[k] as i128));
        k = k + 1;
        assert(keys@ =~= negated(points@).subrange(0, k as int));
    }
    assert(keys@ =~= negated(points@));
    stable_order(&keys)
}

/// `current` rearranged: the `k`th item is `current[positions[k]]`.
pub fn reorder(current: &Vec<usize>, positions: &Vec<usize>) -> (r: Vec<usize>)
    requires
        forall|k: int| 0 <= k < positions@.len() ==> positions@[k] < current@.len(),
    ensures
        r@.len() == positions@.len(),
        forall|k: int| 0 <= k < r@.len() ==> r@[k] == current@[positions@[k] as int],
{
    let mut r: Vec<usize> = Vec::new();
    let mut k: usize = 0;
    while k < positions.len()
        invariant
            forall|j: int| 0 <= j < positions@.len() ==> positions@[j] < current@.len(),
            k <= positions@.len(),
            r@.len() == k,
            forall|j: int| 0 <= j < k ==> r@[j] == current@[positions@[j] as int],
        decreases positions@.len() - k,
    {
        r.push(current[positions[k]]);
        k = k + 1;
    }
    r
}

/// The point estimates of statistic `s` of the entries listed by `order`.
pub open spec fn points_of(entries: Seq<BenchEntry>, order: Seq<usize>, s: Statistic) -> Seq<i64> {
    Seq::new(order.len(), |k: int| estimate_of(entries[order[k] as int].estimates, s).point_estimate)
}

/// The point estimates of statistic `s` of the entries listed by `order`.
pub fn points_in_order(entries: &Vec<BenchEntry>, order: &Vec<usize>, s: Statistic) -> (r: Vec<i64>)
    requires
        forall|k: int| 0 <= k < order@.len() ==> order@[k] < entries@.len(),
    ensures
        r@ == points_of(entries@, order@, s),
{
    let mut r: Vec<i64> = Vec::new();
    let mut k: usize = 0;
    while k < order.len()
        invariant
            forall|j: int| 0 <= j < order@.len() ==> order@[j] < entries@.len(),
            k <= order@.len(),
            r@ == points_of(entries@, order@, s).subrange(0, k as int),
        decreases order@.len() - k,
    {
        r.push(entries[order[k]].estimates.get(s).point_estimate);
        k = k + 1;
        assert(r@ =~= points_of(entries@, order@, s).subrange(0, k as int));
    }
    assert(r@ =~= points_of(entries@, order@, s));
    r
}

/// `current` sorted from the largest estimate of `s` down, ties kept in
/// their order in `current`.
pub open spec fn sorted_pass(
    entries: Seq<BenchEntry>,
    current: Seq<usize>,
    positions: Seq<usize>,
    s: Statistic,
    next: Seq<usize>,
) -> bool {
    &&& is_permutation(positions, current.len() as int)
    &&& stably_sorted(positions, negated(points_of(entries, current, s)))
    &&& next.len() == positions.len()
    &&& forall|k: int| 0 <= k < next.len() ==> next[k] == current[positions[k] as int]
}

/// Sorting holds no state of its own: a pass over the same entries from
/// the same order always leaves the same order.
pub proof fn lemma_sorted_pass_repeatable(
    entries: Seq<BenchEntry>,
    current: Seq<usize>,
    s: Statistic,
    p1: Seq<usize>,
    next1: Seq<usize>,
    p2: Seq<usize>,
    next2: Seq<usize>,
)
    requires
        sorted_pass(entries, current, p1, s, next1),
        sorted_pass(entries, current, p2, s, next2),
    ensures
        next1 == next2,
{
    lemma_stable_order_unique(p1, p2, negated(points_of(entries, current, s)));
    assert(next1 =~= next2);
}

/// Sorts `current` from the largest estimate of `s` down; entries with
/// equal estimates keep their order.
pub fn sort_descending_by(entries: &Vec<BenchEntry>, current: &Vec<usize>, s: Statistic) -> (r: Vec<usize>)
    requires
        forall|k: int| 0 <= k < current@.len() ==> current@[k] < entries@.len(),
    ensures
        exists|p: Seq<usize>| #[trigger] sorted_pass(entries@, current@, p, s, r@),
        forall|k: int| 0 <= k < r@.len() ==> r@[k] < entries@.len(),
        r@.len() == current@.len(),
{
    let points = points_in_order(entries, current, s);
    let positions = descending_order(&points);
    let r = reorder(current, &positions);
    assert(sorted_pass(entries@, current@, positions@, s, r@));
    r
}

/// The three orders of a group without numeric inputs: by mean, then by
/// slope, then by median, each pass sorting the result of the one before.
/// The last is the order of the violin plot.
#[derive(Clone, Debug, PartialEq, Eq)]
pub struct CategoricalOrders {
    pub by_mean: Vec<usize>,
    pub by_slope: Vec<usize>,
    pub by_median: Vec<usize>,
}

pub open spec fn identity(n: int) -> Seq<usize> {
    Seq::new(n as nat, |k: int| k as usize)
}

/// Sorts a group without numeric inputs by mean, then slope, then median.
pub fn categorical_orders(entries: &Vec<BenchEntry>) -> (r: CategoricalOrders)
    ensures
        exists|p: Seq<usize>| #[trigger] sorted_pass(entries@, identity(entries@.len() as int), p, Statistic::Mean, r.by_mean@),
        exists|p: Seq<usize>| #[trigger] sorted_pass(entries@, r.by_mean@, p, Statistic::Slope, r.by_slope@),
        exists|p: Seq<usize>| #[trigger] sorted_pass(entries@, r.by_slope@, p, Statistic::Median, r.by_median@),
{
    let mut start: Vec<usize> = Vec::new();
    let mut k: usize = 0;
    while k < entries.len()
        invariant
            k <= entries@.len(),
            start@ == identity(entries@.len() as int).subrange(0, k as int),
        decreases entries@.len() - k,
    {
        start.push(k);
        k = k + 1;
        assert(start@ =~= identity(entries@.len() as int).subrange(0, k as int));
    }
    assert(start@ =~= identity(entries@.len() as int));
    let by_mean = sort_descending_by(entries, &start, Statistic::Mean);
    let by_slope = sort_descending_by(entries, &by_mean, Statistic::Slope);
    let by_median = sort_descending_by(entries, &by_slope, Statistic::Median);
    proof {
        let p0 = choose|p: Seq<usize>| sorted_pass(entries@, start@, p, Statistic::Mean, by_mean@);
        assert(sorted_pass(entries@, identity(entries@.len() as int), p0, Statistic::Mean, by_mean@));
    }
    let ghost (m, sl, md) = (by_mean@, by_slope@, by_median@);
    let r = CategoricalOrders { by_mean, by_slope, by_median };
    assert(r.by_mean@ == m && r.by_slope@ == sl && r.by_median@ == md);
    r
}

pub open spec fn abs(x: int) -> nat {
    if x < 0 {
        (-x) as nat
    } else {
        x as nat
    }
}

/// `x / min` in hundredths, rounded half up, without its sign.
pub open spec fn ratio_hundredths(x: int, min: int) -> nat {
    ((200 * abs(x) + abs(min)) / (2 * abs(min))) as nat
}

/// `x / min` written with two decimals; a zero `min` gives `inf`, `-inf`
/// or `NaN` as a floating division would.
pub open spec fn ratio_text(x: int, min: int) -> Seq<char> {
    if min == 0 {
        if x == 0 {
            "NaN"@
        } else if x > 0 {
            "inf"@
        } else {
            "-inf"@
        }
    } else if (x < 0) != (min < 0) && ratio_hundredths(x, min) > 0 {
        seq!['-'] + fixed2(ratio_hundredths(x, min))
    } else {
        fixed2(ratio_hundredths(x, min))
    }
}

/// Writes `x / min` with two decimals.
pub fn relative_ratio(x: i64, min: i64) -> (r: String)
    ensures
        r@ == ratio_text(x as int, min as int),
{
    if min == 0 {
        if x == 0 {
            return String::from_str("NaN");
        } else if x > 0 {
            return String::from_str("inf");
        } else {
            return String::from_str("-inf");
        }
    }
    let ax: u128 = if x < 0 { (-(x as i128)) as u128 } else { x as u128 };
    let am: u128 = if min < 0 { (-(min as i128)) as u128 } else { min as u128 };
    let h = (200 * ax + am) / (2 * am);
    let digits = fixed2_string(h);
    if (x < 0) != (min < 0) && h > 0 {
        proof {
            reveal_strlit("-");
        }
        let mut s = String::from_str("-");
        s.append(digits.as_str());
        assert(s@ =~= seq!['-'] + fixed2(h as nat));
        s
    } else {
        digits
    }
}

/// Each point relative to the last one, the smallest in a descending order.
pub fn relative_labels(points: &Vec<i64>) -> (r: Vec<String>)
    requires
        points@.len() >= 1,
    ensures
        r@.len() == points@.len(),
        forall|k: int|
            0 <= k < r@.len() ==> (#[trigger] r@[k])@ == ratio_text(
                points@[k] as int,
                points@.last() as int,
            ),
{
    let min = points[points.len() - 1];
    let mut r: Vec<String> = Vec::new();
    let mut k: usize = 0;
    while k < points.len()
        invariant
            points@.len() >= 1,
            min == points@.last(),
            k <= points@.len(),
            r@.len() == k,
            forall|j: int| 0 <= j < k ==> (#[trigger] r@[j])@ == ratio_text(points@[j] as int, min as int),
        decreases points@.len() - k,
    {
        r.push(relative_ratio(points[k], min));
        k = k + 1;
    }
    r
}

/// The height of one row of a summary chart, and the peak height of a
/// normalised curve.
pub const ROW: i64 = 1000000;

/// `ys` scaled so that its peak is `ROW` high.
pub open spec fn normalized(ys: Seq<i64>) -> Seq<i64> {
    Seq::new(ys.len(), |k: int| (ys[k] * ROW / seq_max(ys)) as i64)
}

/// Scales the heights of a density curve so that its peak is `ROW`; `None`
/// when no height is positive.
pub fn normalize_peak(ys: &Vec<i64>) -> (r: Option<Vec<i64>>)
    requires
        forall|k: int| 0 <= k < ys@.len() ==> ys@[k] >= 0,
    ensures
        match r {
            Some(v) => seq_max(ys@) > 0 && v@ == normalized(ys@),
            None => seq_max(ys@) <= 0,
        },
{
    let n = ys.len();
    if n == 0 {
        return None;
    }
    let m = max_of(ys);
    if m <= 0 {
        return None;
    }
    proof {
        lemma_seq_max(ys@);
    }
    let mut v: Vec<i64> = Vec::new();
    let mut k: usize = 0;
    while k < n
        invariant
            n == ys@.len(),
            m == seq_max(ys@),
            m > 0,
            forall|j: int| 0 <= j < n ==> 0 <= #[trigger] ys@[j] <= m,
            k <= n,
            v@ == normalized(ys@).subrange(0, k as int),
        decreases n - k,
    {
        let y = ys[k];
        assert(0 <= y * ROW <= m * ROW) by (nonlinear_arith)
            requires 0 <= y <= m;
        assert((y as int * ROW as int) / (m as int) <= ROW) by (nonlinear_arith)
            requires 0 <= y <= m, m > 0;
        let q = ((y as i128 * ROW as i128) / m as i128) as i64;
        v.push(q);
        k = k + 1;
        assert(v@ =~= normalized(ys@).subrange(0, k as int));
    }
    assert(v@ =~= normalized(ys@));
    Some(v)
}

/// After normalisation the peak of a curve is exactly `ROW` high: no height
/// exceeds it and the highest sample reaches it.
pub proof fn lemma_normalized_peak(ys: Seq<i64>)
    requires
        forall|k: int| 0 <= k < ys.len() ==> ys[k] >= 0,
        seq_max(ys) > 0,
    ensures
        forall|k: int| 0 <= k < ys.len() ==> 0 <= #[trigger] normalized(ys)[k] <= ROW,
        exists|k: int| 0 <= k < ys.len() && normalized(ys)[k] == ROW,
{
    lemma_seq_max(ys);
    let m = seq_max(ys);
    assert forall|k: int| 0 <= k < ys.len() implies 0 <= #[trigger] normalized(ys)[k] <= ROW by {
        let y = ys[k] as int;
        assert((y * ROW) / m <= ROW) by (nonlinear_arith)
            requires 0 <= y <= m, m > 0;
        assert(0 <= (y * ROW) / m) by (nonlinear_arith)
            requires 0 <= y, m > 0;
    }
    let w = choose|k: int| 0 <= k < ys.len() && ys[k] == m;
    assert((m * ROW) / m == ROW) by (nonlinear_arith)
        requires m > 0;
    assert(normalized(ys)[w] == ROW);
}

} // verus!

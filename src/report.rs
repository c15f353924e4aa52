use vstd::prelude::*;
use crate::chart::{
    axis, chosen_size, constant, plain, widen, widen_seq, Axis, ChartSpec, Color,
    KeyPlacement, Mark, Series, FILL_OPACITY,
};
use crate::distribution::time_label;
use crate::estimate::{estimate_of, statistic_name, Statistic};
use crate::geometry::{seq_max, Curve};
use crate::scale::{prefix_symbol, scale_time, time_scale_of};
use crate::summary::{
    ascending_order, categorical_orders, input_keys, input_value, lemma_normalized_peak, enough_to_compare, identity, normalize_peak,
    normalized, numeric_inputs, points_in_order, points_of, ratio_text, relative_labels,
    sorted_pass, BenchEntry, ROW,
};
use crate::order::{is_permutation, stably_sorted};
use crate::text::{decimal_label, escape_underscores, escape_underscores_of, MAX_FRACTION_DIGITS};

verus! {

/// Which results of a benchmark a summary compares.
#[derive(Clone, Copy, Debug, PartialEq, Eq, Structural)]
pub enum Generation {
    New,
    Base,
}

pub open spec fn generation_name(g: Generation) -> Seq<char> {
    match g {
        Generation::New => "new"@,
        Generation::Base => "base"@,
    }
}

impl Generation {
    pub fn name(&self) -> (r: &'static str)
        ensures
            r@ == generation_name(*self),
    {
        match self {
            Generation::New => "new",
            Generation::Base => "base",
        }
    }
}

pub open spec fn summary_path(dir: Seq<char>, group: Seq<char>, g: Generation, name: Seq<char>) -> Seq<char> {
    dir + "/"@ + group + "/summary/"@ + generation_name(g) + "/"@ + name + ".svg"@
}

fn summary_path_of(dir: &str, group: &str, g: Generation, name: &str, plural: bool) -> (r: String)
    ensures
        r@ == summary_path(dir@, group@, g, if plural { name@ + "s"@ } else { name@ }),
{
    let mut p = String::from_str(dir);
    p.append("/");
    p.append(group);
    p.append("/summary/");
    p.append(g.name());
    p.append("/");
    p.append(name);
    if plural {
        p.append("s");
    }
    p.append(".svg");
    p
}

pub open spec fn bounds_of(entries: Seq<BenchEntry>, order: Seq<usize>, s: Statistic, upper: bool) -> Seq<i128> {
    Seq::new(
        order.len(),
        |k: int|
            if upper {
                estimate_of(entries[order[k] as int].estimates, s).upper_bound as i128
            } else {
                estimate_of(entries[order[k] as int].estimates, s).lower_bound as i128
            },
    )
}

fn bounds_in_order(entries: &Vec<BenchEntry>, order: &Vec<usize>, s: Statistic, upper: bool) -> (r: Vec<i128>)
    requires
        forall|k: int| 0 <= k < order@.len() ==> order@[k] < entries@.len(),
    ensures
        r@ == bounds_of(entries@, order@, s, upper),
{
    let mut r: Vec<i128> = Vec::new();
    let mut k: usize = 0;
    while k < order.len()
        invariant
            forall|j: int| 0 <= j < order@.len() ==> order@[j] < entries@.len(),
            k <= order@.len(),
            r@ == bounds_of(entries@, order@, s, upper).subrange(0, k as int),
        decreases order@.len() - k,
    {
        let e = entries[order[k]].estimates.get(s);
        r.push(if upper { e.upper_bound as i128 } else { e.lower_bound as i128 });
        k = k + 1;
        assert(r@ =~= bounds_of(entries@, order@, s, upper).subrange(0, k as int));
    }
    assert(r@ =~= bounds_of(entries@, order@, s, upper));
    r
}

/// The largest of a non-empty sequence of coordinates.
pub open spec fn top_of(v: Seq<i128>) -> int
    decreases v.len(),
{
    if v.len() <= 1 {
        if v.len() == 1 { v[0] as int } else { 0 }
    } else if v.last() > top_of(v.drop_last()) {
        v.last() as int
    } else {
        top_of(v.drop_last())
    }
}

fn top(v: &Vec<i128>) -> (r: i128)
    requires
        v@.len() >= 1,
    ensures
        r as int == top_of(v@),
{
    let mut m = v[0];
    let mut k: usize = 1;
    assert(v@.subrange(0, 1) =~= seq![v@[0]]);
    while k < v.len()
        invariant
            1 <= k <= v@.len(),
            m as int == top_of(v@.subrange(0, k as int)),
        decreases v@.len() - k,
    {
        assert(v@.subrange(0, k + 1).drop_last() =~= v@.subrange(0, k as int));
        if v[k] > m {
            m = v[k];
        }
        k = k + 1;
    }
    assert(v@.subrange(0, v@.len() as int) =~= v@);
    m
}

fn time_axis_of(max: i128) -> (r: Axis)
    ensures
        r.label@ == time_label(prefix_symbol(time_scale_of(max as int).prefix)),
        r.scale_exponent == time_scale_of(max as int).exponent - 3,
        r.grid,
        r.limits is None,
        r.tics@.len() == 0,
{
    let ts = scale_time(max);
    let mut label = String::from_str("Average time (");
    label.append(ts.prefix.symbol());
    label.append("s)");
    let mut a = axis(label);
    a.scale_exponent = ts.exponent - 3;
    a.grid = true;
    a
}

/// Inputs are drawn in units of `10^-MAX_FRACTION_DIGITS`.
pub const INPUT_SCALE_EXPONENT: i32 = -18;

/// `c` is the numeric summary chart of statistic `s`, benchmarks in
/// `order`, each at its input `keys[i]`.
pub open spec fn numeric_chart_ok(
    c: ChartSpec,
    group: Seq<char>,
    entries: Seq<BenchEntry>,
    keys: Seq<i128>,
    order: Seq<usize>,
    s: Statistic,
    dir: Seq<char>,
    g: Generation,
) -> bool {
    let ubs = bounds_of(entries, order, s, true);
    &&& c.series@.len() == 1
    &&& c.series@[0].mark == Mark::YErrorBars
    &&& c.series@[0].color == Color::DarkBlue
    &&& c.series@[0].xs@ == Seq::new(order.len(), |k: int| keys[order[k] as int])
    &&& c.series@[0].ys@ == widen_seq(points_of(entries, order, s))
    &&& c.series@[0].lows@ == bounds_of(entries, order, s, false)
    &&& c.series@[0].highs@ == ubs
    &&& c.series@[0].legend matches Some(l) && l@ == statistic_name(s)
    &&& c.x_axis.label@ == "Input"@
    &&& c.x_axis.scale_exponent == INPUT_SCALE_EXPONENT
    &&& c.x_axis.grid
    &&& c.y_axis.label@ == time_label(prefix_symbol(time_scale_of(top_of(ubs)).prefix))
    &&& c.y_axis.scale_exponent == time_scale_of(top_of(ubs)).exponent - 3
    &&& c.y_axis.grid
    &&& c.title matches Some(t) && t@ == escape_underscores_of(group)
    &&& c.output@ == summary_path(dir, group, g, statistic_name(s) + "s"@)
    &&& c.key == KeyPlacement::InsideTopLeft
}

/// `c` is the categorical summary chart of statistic `s`, one row per
/// benchmark in `order`, with each time relative to the last row's.
pub open spec fn categorical_chart_ok(
    c: ChartSpec,
    group: Seq<char>,
    entries: Seq<BenchEntry>,
    order: Seq<usize>,
    s: Statistic,
    dir: Seq<char>,
    g: Generation,
) -> bool {
    let points = points_of(entries, order, s);
    let ubs = bounds_of(entries, order, s, true);
    &&& c.series@.len() == 1
    &&& c.series@[0].mark == Mark::XErrorBars
    &&& c.series@[0].color == Color::DarkBlue
    &&& c.series@[0].xs@ == widen_seq(points)
    &&& c.series@[0].ys@ == row_centers(order.len() as int)
    &&& c.series@[0].lows@ == bounds_of(entries, order, s, false)
    &&& c.series@[0].highs@ == ubs
    &&& c.x_axis.label@ == time_label(prefix_symbol(time_scale_of(top_of(ubs)).prefix))
    &&& c.x_axis.scale_exponent == time_scale_of(top_of(ubs)).exponent - 3
    &&& c.y_axis.label@ == "Input"@
    &&& c.y_axis.limits == Some((0i128, (order.len() * ROW) as i128))
    &&& c.y_axis.tics@.len() == order.len()
    &&& (forall|k: int|
        0 <= k < order.len() ==> (#[trigger] c.y_axis.tics@[k]).0 == row_center(k)
            && c.y_axis.tics@[k].1@ == entries[order[k] as int].label@)
    &&& c.right_axis matches Some(ax) && ax.label@ == "Relative time"@ && ax.tics@.len() == order.len()
        && (forall|k: int|
        0 <= k < order.len() ==> (#[trigger] ax.tics@[k]).0 == row_center(k) && ax.tics@[k].1@
            == ratio_text(points[k] as int, points.last() as int))
    &&& c.title matches Some(t) && t@ == escape_underscores_of(group) + ": Estimates of the "@
        + statistic_name(s) + "s"@
    &&& c.output@ == summary_path(dir, group, g, statistic_name(s) + "s"@)
}

/// The largest abscissa of each curve, benchmarks in `order`.
pub open spec fn last_abscissas(kdes: Seq<Curve>, order: Seq<usize>) -> Seq<i128> {
    Seq::new(order.len(), |k: int| kdes[order[k] as int].xs@.last() as i128)
}

/// `c` is the violin plot of the benchmarks in `order`.
pub open spec fn violin_chart_ok(
    c: ChartSpec,
    group: Seq<char>,
    entries: Seq<BenchEntry>,
    order: Seq<usize>,
    kdes: Seq<Curve>,
    medians: Seq<i64>,
    dir: Seq<char>,
    g: Generation,
) -> bool {
    &&& c.series@.len() == order.len() + 1
    &&& c.series@[0].mark == Mark::Plus
    &&& c.series@[0].color == Color::Black
    &&& c.series@[0].xs@ == Seq::new(order.len(), |k: int| medians[order[k] as int] as i128)
    &&& c.series@[0].ys@ == row_centers(order.len() as int)
    &&& (forall|k: int|
        0 <= k < order.len() ==> {
            let kde = kdes[order[k] as int];
            &&& (#[trigger] c.series@[k + 1]).mark == Mark::Fill
            &&& c.series@[k + 1].xs@ == widen_seq(kde.xs@)
            &&& seq_max(kde.ys@) > 0 ==> c.series@[k + 1].ys@ == violin_edge(kde.ys@, row_center(k), true)
                && c.series@[k + 1].lows@ == violin_edge(kde.ys@, row_center(k), false)
            &&& seq_max(kde.ys@) <= 0 ==> c.series@[k + 1].ys@ == Seq::new(
                kde.ys@.len(),
                |j: int| row_center(k) as i128,
            ) && c.series@[k + 1].lows@ == c.series@[k + 1].ys@
        })
    &&& c.x_axis.label@ == time_label(prefix_symbol(time_scale_of(top_of(last_abscissas(kdes, order))).prefix))
    &&& c.x_axis.scale_exponent == time_scale_of(top_of(last_abscissas(kdes, order))).exponent - 3
    &&& c.y_axis.label@ == "Input"@
    &&& c.y_axis.tics@.len() == order.len()
    &&& (forall|k: int|
        0 <= k < order.len() ==> (#[trigger] c.y_axis.tics@[k]).0 == row_center(k)
            && c.y_axis.tics@[k].1@ == entries[order[k] as int].label@)
    &&& c.title matches Some(t) && t@ == escape_underscores_of(group) + ": Violin plot"@
    &&& c.output@ == summary_path(dir, group, g, "violin_plot"@)
}

/// The summary chart of a group with numeric inputs: each benchmark's
/// estimate of `s` with its interval, against its input, in `order`.
pub fn numeric_chart(
    group_id: &str,
    entries: &Vec<BenchEntry>,
    keys: &Vec<i128>,
    order: &Vec<usize>,
    s: Statistic,
    output_directory: &str,
    g: Generation,
) -> (r: ChartSpec)
    requires
        order@.len() >= 1,
        keys@.len() == entries@.len(),
        forall|k: int| 0 <= k < order@.len() ==> order@[k] < entries@.len(),
    ensures
        numeric_chart_ok(r, group_id@, entries@, keys@, order@, s, output_directory@, g),
{
    let mut xs: Vec<i128> = Vec::new();
    let mut k: usize = 0;
    while k < order.len()
        invariant
            keys@.len() == entries@.len(),
            forall|j: int| 0 <= j < order@.len() ==> order@[j] < entries@.len(),
            k <= order@.len(),
            xs@ == Seq::new(order@.len(), |j: int| keys@[order@[j] as int]).subrange(0, k as int),
        decreases order@.len() - k,
    {
        xs.push(keys[order[k]]);
        k = k + 1;
        assert(xs@ =~= Seq::new(order@.len(), |j: int| keys@[order@[j] as int]).subrange(0, k as int));
    }
    assert(xs@ =~= Seq::new(order@.len(), |j: int| keys@[order@[j] as int]));
    let points = points_in_order(entries, order, s);
    let mut ys: Vec<i128> = Vec::new();
    let mut k: usize = 0;
    while k < points.len()
        invariant
            k <= points@.len(),
            ys@ == widen_seq(points@).subrange(0, k as int),
        decreases points@.len() - k,
    {
        ys.push(points[k] as i128);
        k = k + 1;
        assert(ys@ =~= widen_seq(points@).subrange(0, k as int));
    }
    assert(ys@ =~= widen_seq(points@));
    let lbs = bounds_in_order(entries, order, s, false);
    let ubs = bounds_in_order(entries, order, s, true);
    let y_axis = time_axis_of(top(&ubs));
    let mut x_axis = axis(String::from_str("Input"));
    x_axis.grid = true;
    x_axis.scale_exponent = INPUT_SCALE_EXPONENT;
    let mut bars = plain(Mark::YErrorBars, Color::DarkBlue, xs, ys);
    bars.lows = lbs;
    bars.highs = ubs;
    bars.legend = Some(String::from_str(s.name()));
    let series = vec![bars];
    assert(series@[0] == bars);
    ChartSpec {
        title: Some(escape_underscores(group_id)),
        size: chosen_size(None),
        x_axis,
        y_axis,
        right_axis: None,
        key: KeyPlacement::InsideTopLeft,
        series,
        output: summary_path_of(output_directory, group_id, g, s.name(), true),
    }
}

/// The middle of row `k` of a summary chart.
pub open spec fn row_center(k: int) -> int {
    k * ROW + ROW / 2
}

pub open spec fn row_centers(n: int) -> Seq<i128> {
    Seq::new(n as nat, |k: int| row_center(k) as i128)
}

fn centers(n: usize) -> (r: Vec<i128>)
    requires
        n <= 0x1_0000_0000,
    ensures
        r@ == row_centers(n as int),
{
    let mut r: Vec<i128> = Vec::new();
    let mut k: usize = 0;
    while k < n
        invariant
            k <= n <= 0x1_0000_0000,
            r@ == row_centers(n as int).subrange(0, k as int),
        decreases n - k,
    {
        r.push(k as i128 * ROW as i128 + (ROW / 2) as i128);
        k = k + 1;
        assert(r@ =~= row_centers(n as int).subrange(0, k as int));
    }
    assert(r@ =~= row_centers(n as int));
    r
}

/// An axis of one row per benchmark, each row labelled.
fn row_axis(label: &str, names: Vec<String>) -> (r: Axis)
    requires
        names@.len() <= 0x1_0000_0000,
    ensures
        r.label@ == label@,
        r.limits == Some((0i128, (names@.len() * ROW) as i128)),
        r.tics@.len() == names@.len(),
        forall|k: int|
            0 <= k < names@.len() ==> (#[trigger] r.tics@[k]).0 == row_center(k) && r.tics@[k].1@
                == names@[k]@,
{
    let n = names.len();
    let cs = centers(n);
    let mut tics: Vec<(i128, String)> = Vec::new();
    let mut k: usize = 0;
    while k < n
        invariant
            n == names@.len(),
            n <= 0x1_0000_0000,
            cs@ == row_centers(n as int),
            k <= n,
            tics@.len() == k,
            forall|j: int|
                0 <= j < k ==> (#[trigger] tics@[j]).0 == row_center(j) && tics@[j].1@ == names@[j]@,
        decreases n - k,
    {
        tics.push((cs[k], names[k].clone()));
        k = k + 1;
    }
    let mut a = axis(String::from_str(label));
    a.limits = Some((0, n as i128 * ROW as i128));
    a.tics = tics;
    a
}

fn labels_in_order(entries: &Vec<BenchEntry>, order: &Vec<usize>) -> (r: Vec<String>)
    requires
        forall|k: int| 0 <= k < order@.len() ==> order@[k] < entries@.len(),
    ensures
        r@.len() == order@.len(),
        forall|k: int| 0 <= k < order@.len() ==> (#[trigger] r@[k])@ == entries@[order@[k] as int].label@,
{
    let mut r: Vec<String> = Vec::new();
    let mut k: usize = 0;
    while k < order.len()
        invariant
            forall|j: int| 0 <= j < order@.len() ==> order@[j] < entries@.len(),
            k <= order@.len(),
            r@.len() == k,
            forall|j: int| 0 <= j < k ==> (#[trigger] r@[j])@ == entries@[order@[j] as int].label@,
        decreases order@.len() - k,
    {
        r.push(entries[order[k]].label.clone());
        k = k + 1;
    }
    r
}

/// The summary chart of a group without numeric inputs: one row per
/// benchmark in `order`, its estimate of `s` with its interval, and on the
/// right its time relative to the last row's.
pub fn categorical_chart(
    group_id: &str,
    entries: &Vec<BenchEntry>,
    order: &Vec<usize>,
    s: Statistic,
    output_directory: &str,
    g: Generation,
) -> (r: ChartSpec)
    requires
        1 <= order@.len() <= 0x1_0000_0000,
        forall|k: int| 0 <= k < order@.len() ==> order@[k] < entries@.len(),
    ensures
        categorical_chart_ok(r, group_id@, entries@, order@, s, output_directory@, g),
{
    let n = order.len();
    let points = points_in_order(entries, order, s);
    let mut xs: Vec<i128> = Vec::new();
    let mut k: usize = 0;
    while k < points.len()
        invariant
            k <= points@.len(),
            xs@ == widen_seq(points@).subrange(0, k as int),
        decreases points@.len() - k,
    {
        xs.push(points[k] as i128);
        k = k + 1;
        assert(xs@ =~= widen_seq(points@).subrange(0, k as int));
    }
    assert(xs@ =~= widen_seq(points@));
    let lbs = bounds_in_order(entries, order, s, false);
    let ubs = bounds_in_order(entries, order, s, true);
    let x_axis = time_axis_of(top(&ubs));
    let rel = relative_labels(&points);
    let y_axis = row_axis("Input", labels_in_order(entries, order));
    let right = row_axis("Relative time", rel);
    let mut bars = plain(Mark::XErrorBars, Color::DarkBlue, xs, centers(n));
    bars.lows = lbs;
    bars.highs = ubs;
    bars.legend = Some(String::from_str("Confidence Interval"));
    let series = vec![bars];
    assert(series@[0] == bars);
    let mut title = escape_underscores(group_id);
    title.append(": Estimates of the ");
    title.append(s.name());
    title.append("s");
    ChartSpec {
        title: Some(title),
        size: chosen_size(None),
        x_axis,
        y_axis,
        right_axis: Some(right),
        key: KeyPlacement::InsideTopLeft,
        series,
        output: summary_path_of(output_directory, group_id, g, s.name(), true),
    }
}

/// The heights of a violin drawn at row centre `c`: `c` plus or minus
/// half the normalised height.
pub open spec fn violin_edge(ys: Seq<i64>, c: int, upper: bool) -> Seq<i128> {
    Seq::new(
        ys.len(),
        |k: int|
            if upper {
                (c + normalized(ys)[k] / 2) as i128
            } else {
                (c - normalized(ys)[k] / 2) as i128
            },
    )
}

fn violin_body(curve: &Curve, row: usize, first: bool) -> (r: Series)
    requires
        curve.wf(),
        row < 0x1_0000_0000,
        forall|k: int| 0 <= k < curve.ys@.len() ==> curve.ys@[k] >= 0,
    ensures
        r.mark == Mark::Fill,
        r.xs@ == widen_seq(curve.xs@),
        seq_max(curve.ys@) > 0 ==> r.ys@ == violin_edge(curve.ys@, row_center(row as int), true)
            && r.lows@ == violin_edge(curve.ys@, row_center(row as int), false),
        seq_max(curve.ys@) <= 0 ==> r.ys@ == Seq::new(curve.ys@.len(), |k: int| row_center(row as int) as i128)
            && r.lows@ == r.ys@,
        first <==> r.legend is Some,
{
    let c = row as i128 * ROW as i128 + (ROW / 2) as i128;
    let n = curve.ys.len();
    let (upper, lower) = match normalize_peak(&curve.ys) {
        Some(h) => {
            proof {
                lemma_normalized_peak(curve.ys@);
            }
            let mut up: Vec<i128> = Vec::new();
            let mut lo: Vec<i128> = Vec::new();
            let mut k: usize = 0;
            while k < n
                invariant
                    n == curve.ys@.len(),
                    h@ == normalized(curve.ys@),
                    c == row_center(row as int),
                    0 <= c <= 0x1_0000_0000 * ROW,
                    forall|j: int| 0 <= j < n ==> 0 <= #[trigger] normalized(curve.ys@)[j] <= ROW,
                    k <= n,
                    up@ == violin_edge(curve.ys@, c as int, true).subrange(0, k as int),
                    lo@ == violin_edge(curve.ys@, c as int, false).subrange(0, k as int),
                decreases n - k,
            {
                assert(0 <= h@[k as int] <= ROW);
                let half = (h[k] / 2) as i128;
                up.push(c + half);
                lo.push(c - half);
                k = k + 1;
                assert(up@ =~= violin_edge(curve.ys@, c as int, true).subrange(0, k as int));
                assert(lo@ =~= violin_edge(curve.ys@, c as int, false).subrange(0, k as int));
            }
            assert(up@ =~= violin_edge(curve.ys@, c as int, true));
            assert(lo@ =~= violin_edge(curve.ys@, c as int, false));
            (up, lo)
        },
        None => (constant(c, n), constant(c, n)),
    };
    let mut body = plain(Mark::Fill, Color::DarkBlue, widen(&curve.xs), upper);
    body.lows = lower;
    body.opacity_percent = FILL_OPACITY;
    if first {
        body.legend = Some(String::from_str("PDF"));
    }
    body
}

pub open spec fn curves_ok(kdes: Seq<Curve>) -> bool {
    forall|k: int|
        0 <= k < kdes.len() ==> (#[trigger] kdes[k]).wf() && kdes[k].xs@.len() >= 1 && (forall|j: int|
            0 <= j < kdes[k].ys@.len() ==> kdes[k].ys@[j] >= 0)
}

/// The violin plot of a group: one row per benchmark in `order`, its
/// density curve scaled to a peak of one row and mirrored about the row's
/// centre, and its median marked. `kdes[i]` and `medians[i]` belong to
/// `entries[i]`.
pub fn violin_chart(
    group_id: &str,
    entries: &Vec<BenchEntry>,
    order: &Vec<usize>,
    kdes: &Vec<Curve>,
    medians: &Vec<i64>,
    output_directory: &str,
    g: Generation,
) -> (r: ChartSpec)
    requires
        1 <= order@.len() < 0x1_0000_0000,
        forall|k: int| 0 <= k < order@.len() ==> order@[k] < entries@.len(),
        kdes@.len() == entries@.len(),
        medians@.len() == entries@.len(),
        curves_ok(kdes@),
    ensures
        violin_chart_ok(r, group_id@, entries@, order@, kdes@, medians@, output_directory@, g),
{
    let n = order.len();
    let mut lasts: Vec<i128> = Vec::new();
    let mut meds: Vec<i128> = Vec::new();
    let mut k: usize = 0;
    while k < n
        invariant
            n == order@.len(),
            forall|j: int| 0 <= j < order@.len() ==> order@[j] < entries@.len(),
            kdes@.len() == entries@.len(),
            medians@.len() == entries@.len(),
            curves_ok(kdes@),
            k <= n,
            lasts@ == last_abscissas(kdes@, order@).subrange(0, k as int),
            meds@ == Seq::new(n as nat, |j: int| medians@[order@[j] as int] as i128).subrange(0, k as int),
        decreases n - k,
    {
        let c = &kdes[order[k]];
        assert(c.wf() && c.xs@.len() >= 1);
        lasts.push(c.xs[c.xs.len() - 1] as i128);
        meds.push(medians[order[k]] as i128);
        k = k + 1;
        assert(lasts@ =~= last_abscissas(kdes@, order@).subrange(0, k as int));
        assert(meds@ =~= Seq::new(n as nat, |j: int| medians@[order@[j] as int] as i128).subrange(0, k as int));
    }
    assert(meds@ =~= Seq::new(n as nat, |j: int| medians@[order@[j] as int] as i128));
    assert(lasts@ =~= last_abscissas(kdes@, order@));
    let x_axis = time_axis_of(top(&lasts));
    let y_axis = row_axis("Input", labels_in_order(entries, order));
    let mut marks = plain(Mark::Plus, Color::Black, meds, centers(n));
    marks.legend = Some(String::from_str("Median"));
    let mut series: Vec<Series> = vec![marks];
    let mut k: usize = 0;
    while k < n
        invariant
            n == order@.len(),
            n < 0x1_0000_0000,
            forall|j: int| 0 <= j < order@.len() ==> order@[j] < entries@.len(),
            kdes@.len() == entries@.len(),
            curves_ok(kdes@),
            k <= n,
            series@.len() == k + 1,
            series@[0] == marks,
            forall|j: int|
                0 <= j < k ==> {
                    let c = kdes@[order@[j] as int];
                    &&& (#[trigger] series@[j + 1]).mark == Mark::Fill
                    &&& series@[j + 1].xs@ == widen_seq(c.xs@)
                    &&& seq_max(c.ys@) > 0 ==> series@[j + 1].ys@ == violin_edge(c.ys@, row_center(j), true)
                        && series@[j + 1].lows@ == violin_edge(c.ys@, row_center(j), false)
                    &&& seq_max(c.ys@) <= 0 ==> series@[j + 1].ys@ == Seq::new(
                        c.ys@.len(),
                        |i: int| row_center(j) as i128,
                    ) && series@[j + 1].lows@ == series@[j + 1].ys@
                },
        decreases n - k,
    {
        let body = violin_body(&kdes[order[k]], k, k == 0);
        series.push(body);
        k = k + 1;
    }
    let mut title = escape_underscores(group_id);
    title.append(": Violin plot");
    ChartSpec {
        title: Some(title),
        size: chosen_size(None),
        x_axis,
        y_axis,
        right_axis: None,
        key: KeyPlacement::InsideTopLeft,
        series,
        output: summary_path_of(output_directory, group_id, g, "violin_plot", false),
    }
}

/// Every label of the group reads as a decimal number.
pub open spec fn all_numeric(entries: Seq<BenchEntry>) -> bool {
    forall|k: int| 0 <= k < entries.len() ==> (#[trigger] decimal_label(entries[k].label@)) is Some
}

/// The sort keys of a numeric group: each label's value.
pub open spec fn numeric_keys(entries: Seq<BenchEntry>) -> Seq<i128> {
    Seq::new(entries.len(), |k: int| input_value(decimal_label(entries[k].label@).unwrap()) as i128)
}

/// The summary of a numeric group: benchmarks stably sorted by input,
/// then the mean, median and slope charts in that order.
pub open spec fn numeric_outcome(
    r: Seq<ChartSpec>,
    order: Seq<usize>,
    group: Seq<char>,
    entries: Seq<BenchEntry>,
    dir: Seq<char>,
    g: Generation,
) -> bool {
    let keys = numeric_keys(entries);
    &&& r.len() == 3
    &&& is_permutation(order, entries.len() as int)
    &&& stably_sorted(order, keys)
    &&& numeric_chart_ok(r[0], group, entries, keys, order, Statistic::Mean, dir, g)
    &&& numeric_chart_ok(r[1], group, entries, keys, order, Statistic::Median, dir, g)
    &&& numeric_chart_ok(r[2], group, entries, keys, order, Statistic::Slope, dir, g)
}

/// The summary of a categorical group: the mean, slope and median charts,
/// each order a pass over the one before, and the violin plot in the
/// median's order.
pub open spec fn categorical_outcome(
    r: Seq<ChartSpec>,
    by_mean: Seq<usize>,
    by_slope: Seq<usize>,
    by_median: Seq<usize>,
    group: Seq<char>,
    entries: Seq<BenchEntry>,
    kdes: Seq<Curve>,
    medians: Seq<i64>,
    dir: Seq<char>,
    g: Generation,
) -> bool {
    &&& r.len() == 4
    &&& exists|p: Seq<usize>|
        #[trigger] sorted_pass(entries, identity(entries.len() as int), p, Statistic::Mean, by_mean)
    &&& exists|p: Seq<usize>| #[trigger] sorted_pass(entries, by_mean, p, Statistic::Slope, by_slope)
    &&& exists|p: Seq<usize>| #[trigger] sorted_pass(entries, by_slope, p, Statistic::Median, by_median)
    &&& categorical_chart_ok(r[0], group, entries, by_mean, Statistic::Mean, dir, g)
    &&& categorical_chart_ok(r[1], group, entries, by_slope, Statistic::Slope, dir, g)
    &&& categorical_chart_ok(r[2], group, entries, by_median, Statistic::Median, dir, g)
    &&& violin_chart_ok(r[3], group, entries, by_median, kdes, medians, dir, g)
}

/// The summary charts of one generation of a group. With fewer than two
/// benchmarks there are none. When every label is a decimal number the
/// group is numeric: the mean, median and slope charts with benchmarks in
/// ascending order of input. Otherwise the mean, slope and median charts,
/// each pass sorting the order of the one before from the largest estimate
/// down, and the violin plot in the median's order. `kdes[i]` and
/// `medians[i]` belong to `entries[i]`.
pub fn summarize_generation(
    group_id: &str,
    entries: &Vec<BenchEntry>,
    kdes: &Vec<Curve>,
    medians: &Vec<i64>,
    output_directory: &str,
    g: Generation,
) -> (r: Vec<ChartSpec>)
    requires
        entries@.len() < 0x1_0000_0000,
        kdes@.len() == entries@.len(),
        medians@.len() == entries@.len(),
        curves_ok(kdes@),
    ensures
        !enough_to_compare(entries@.len() as int) ==> r@.len() == 0,
        enough_to_compare(entries@.len() as int) && all_numeric(entries@) ==> exists|o: Seq<usize>|
            #[trigger] numeric_outcome(r@, o, group_id@, entries@, output_directory@, g),
        enough_to_compare(entries@.len() as int) && !all_numeric(entries@) ==> exists|
            m: Seq<usize>,
            sl: Seq<usize>,
            md: Seq<usize>,
        |
            #[trigger] categorical_outcome(
                r@,
                m,
                sl,
                md,
                group_id@,
                entries@,
                kdes@,
                medians@,
                output_directory@,
                g,
            ),
{
    let n = entries.len();
    if !crate::summary::should_summarize(n) {
        return Vec::new();
    }
    match numeric_inputs(entries) {
        Some(inputs) => {
            proof {
                assert forall|k: int| 0 <= k < inputs@.len() implies (#[trigger] inputs@[k]).scale
                    <= MAX_FRACTION_DIGITS by {
                    assert(decimal_label(entries@[k].label@) == Some(
                        (inputs@[k].mantissa as nat, inputs@[k].scale as nat),
                    ));
                }
            }
            let keys = input_keys(&inputs);
            assert(keys@ =~= numeric_keys(entries@)) by {
                assert forall|k: int| 0 <= k < keys@.len() implies keys@[k] == numeric_keys(entries@)[k] by {
                    assert(decimal_label(entries@[k].label@) == Some(
                        (inputs@[k].mantissa as nat, inputs@[k].scale as nat),
                    ));
                    assert(keys@[k] as int == input_value(
                        (inputs@[k].mantissa as nat, inputs@[k].scale as nat),
                    ));
                }
            }
            let positions = ascending_order(&keys);
            let mean = numeric_chart(group_id, entries, &keys, &positions, Statistic::Mean, output_directory, g);
            let median = numeric_chart(group_id, entries, &keys, &positions, Statistic::Median, output_directory, g);
            let slope = numeric_chart(group_id, entries, &keys, &positions, Statistic::Slope, output_directory, g);
            let r = vec![mean, median, slope];
            assert(numeric_outcome(r@, positions@, group_id@, entries@, output_directory@, g));
            r
        },
        None => {
            let orders = categorical_orders(entries);
            proof {
                let p0 = choose|p: Seq<usize>|
                    #[trigger] sorted_pass(entries@, identity(n as int), p, Statistic::Mean, orders.by_mean@);
                let p1 = choose|p: Seq<usize>|
                    #[trigger] sorted_pass(entries@, orders.by_mean@, p, Statistic::Slope, orders.by_slope@);
                let p2 = choose|p: Seq<usize>|
                    #[trigger] sorted_pass(entries@, orders.by_slope@, p, Statistic::Median, orders.by_median@);
                assert forall|k: int| 0 <= k < orders.by_mean@.len() implies orders.by_mean@[k] < n by {
                    assert(p0[k] < n);
                }
                assert forall|k: int| 0 <= k < orders.by_slope@.len() implies orders.by_slope@[k] < n by {
                    assert(p1[k] < n);
                }
                assert forall|k: int| 0 <= k < orders.by_median@.len() implies orders.by_median@[k] < n by {
                    assert(p2[k] < n);
                }
            }
            let mean = categorical_chart(group_id, entries, &orders.by_mean, Statistic::Mean, output_directory, g);
            let slope = categorical_chart(group_id, entries, &orders.by_slope, Statistic::Slope, output_directory, g);
            let median = categorical_chart(group_id, entries, &orders.by_median, Statistic::Median, output_directory, g);
            let violin = violin_chart(group_id, entries, &orders.by_median, kdes, medians, output_directory, g);
            let r = vec![mean, slope, median, violin];
            assert(categorical_outcome(
                r@,
                orders.by_mean@,
                orders.by_slope@,
                orders.by_median@,
                group_id@,
                entries@,
                kdes@,
                medians@,
                output_directory@,
                g,
            ));
            r
        },
    }
}

} // verus!

use vstd::prelude::*;
use crate::chart::{
    axis_is, same_axis, same_chart, same_series, series_is,
    axis, chosen_size, constant, plain, size_or_default, vertical, widen, widen_counts, widen_seq,
    widen_u64, ChartSpec, Color, KeyPlacement, Mark, Series, Size, FILL_OPACITY,
};
use crate::distribution::time_label;
use crate::geometry::{lemma_seq_max, max_count, max_of, seq_max, Curve};
use crate::outliers::{lemma_partition_exact, partition, select, LabeledSample, OutlierClass};
use crate::scale::{count_exponent, count_label, prefix_symbol, scale_count, scale_time, time_scale_of};
use crate::text::{escape_underscores, escape_underscores_of};

verus! {

/// An axis of average time in picoseconds, read in the unit of the scale
/// of `max_ps`.
pub open spec fn time_axis_ok(a: crate::chart::Axis, max_ps: int) -> bool {
    let ts = time_scale_of(max_ps);
    &&& a.label@ == time_label(prefix_symbol(ts.prefix))
    &&& a.scale_exponent == ts.exponent - 3
}

/// An axis of total time in picoseconds, read in the unit of the scale
/// of `max_ps`.
pub open spec fn elapsed_axis_ok(a: crate::chart::Axis, max_ps: int) -> bool {
    let ts = time_scale_of(max_ps);
    &&& a.label@ == "Total time ("@ + prefix_symbol(ts.prefix) + "s)"@
    &&& a.scale_exponent == ts.exponent - 3
}

fn time_axis_label(max_ps: i128) -> (r: (String, i32))
    ensures
        r.0@ == time_label(prefix_symbol(time_scale_of(max_ps as int).prefix)),
        r.1 == time_scale_of(max_ps as int).exponent - 3,
{
    let ts = scale_time(max_ps);
    let mut label = String::from_str("Average time (");
    label.append(ts.prefix.symbol());
    label.append("s)");
    (label, ts.exponent - 3)
}

/// Every field of the small density chart of a sample.
pub open spec fn pdf_small_ok(
    r: ChartSpec,
    curve: Curve,
    sample_max: i64,
    mean: i64,
    mean_height: i64,
    path: Seq<char>,
    size: Option<Size>,
) -> bool {
    let ts = time_scale_of(sample_max as int);
    let (xs, ys) = (curve.xs@, curve.ys@);
    &&& r.title is None
    &&& r.size == size_or_default(size)
    &&& axis_is(
        r.x_axis,
        time_label(prefix_symbol(ts.prefix)),
        Some((xs[0] as i128, xs.last() as i128)),
        ts.exponent - 3,
        false,
    )
    &&& axis_is(r.y_axis, "Density (a.u.)"@, Some((0i128, (seq_max(ys) * 11 / 10) as i128)), 0, false)
    &&& r.right_axis is None
    &&& r.key == KeyPlacement::Hidden
    &&& r.series@.len() == 2
    &&& series_is(
        r.series@[0],
        Mark::Fill,
        Color::DarkBlue,
        Some("PDF"@),
        FILL_OPACITY,
        true,
        widen_seq(xs),
        widen_seq(ys),
        Seq::new(xs.len(), |k: int| 0i128),
        Seq::empty(),
    )
    &&& series_is(
        r.series@[1],
        Mark::Line,
        Color::DarkBlue,
        Some("Mean"@),
        100,
        false,
        seq![mean as i128, mean as i128],
        seq![0i128, mean_height as i128],
        Seq::empty(),
        Seq::empty(),
    )
    &&& r.output@ == path
}

/// Building the small density chart holds no state of its own: two charts
/// built from the same inputs agree on every field.
pub proof fn lemma_pdf_small_repeatable(
    a: ChartSpec,
    b: ChartSpec,
    curve: Curve,
    sample_max: i64,
    mean: i64,
    mean_height: i64,
    path: Seq<char>,
    size: Option<Size>,
)
    requires
        pdf_small_ok(a, curve, sample_max, mean, mean_height, path, size),
        pdf_small_ok(b, curve, sample_max, mean, mean_height, path, size),
    ensures
        same_chart(a, b),
{
    assert forall|k: int| 0 <= k < a.series@.len() implies same_series(#[trigger] a.series@[k], b.series@[k]) by {
        if k == 0 {
        } else {
        }
    }
}

/// The small density chart of a sample: its swept density filled, and the
/// mean marked at the density's height there. `sample_max` and `mean` are
/// the sample's largest value and mean, `mean_height` the density at the
/// mean.
pub fn pdf_small(
    curve: &Curve,
    sample_max: i64,
    mean: i64,
    mean_height: i64,
    path: &str,
    size: Option<Size>,
) -> (r: ChartSpec)
    requires
        curve.wf(),
        curve.xs@.len() >= 1,
        forall|k: int| 0 <= k < curve.ys@.len() ==> curve.ys@[k] >= 0,
    ensures
        pdf_small_ok(r, *curve, sample_max, mean, mean_height, path@, size),
{
    let n = curve.xs.len();
    let (label, exponent) = time_axis_label(sample_max as i128);
    let mut x_axis = axis(label);
    x_axis.limits = Some((curve.xs[0] as i128, curve.xs[n - 1] as i128));
    x_axis.scale_exponent = exponent;
    let y_max = max_of(&curve.ys);
    let mut y_axis = axis(String::from_str("Density (a.u.)"));
    proof {
        lemma_seq_max(curve.ys@);
    }
    let y_top = ((y_max as u128 * 11) / 10) as i128;
    y_axis.limits = Some((0, y_top));
    let mut fill = plain(Mark::Fill, Color::DarkBlue, widen(&curve.xs), widen(&curve.ys));
    fill.lows = constant(0, n);
    fill.right_axis = true;
    fill.opacity_percent = FILL_OPACITY;
    fill.legend = Some(String::from_str("PDF"));
    let mut line = vertical(Mark::Line, Color::DarkBlue, mean as i128, 0, mean_height as i128);
    line.legend = Some(String::from_str("Mean"));
    let series = vec![fill, line];
    assert(series@[0] == fill && series@[1] == line);
    ChartSpec {
        title: None,
        size: chosen_size(size),
        x_axis,
        y_axis,
        right_axis: None,
        key: KeyPlacement::Hidden,
        series,
        output: String::from_str(path),
    }
}

pub open spec fn firsts(p: Seq<(i64, u64)>) -> Seq<i128> {
    Seq::new(p.len(), |k: int| p[k].0 as i128)
}

pub open spec fn seconds(p: Seq<(i64, u64)>) -> Seq<i128> {
    Seq::new(p.len(), |k: int| p[k].1 as i128)
}

fn points_series(p: &Vec<(i64, u64)>, color: Color, legend: &str) -> (r: Series)
    ensures
        series_is(r, Mark::Points, color, Some(legend@), 100, false, firsts(p@), seconds(p@), Seq::empty(), Seq::empty()),
{
    let mut xs: Vec<i128> = Vec::new();
    let mut ys: Vec<i128> = Vec::new();
    let mut k: usize = 0;
    while k < p.len()
        invariant
            k <= p@.len(),
            xs@ == firsts(p@).subrange(0, k as int),
            ys@ == seconds(p@).subrange(0, k as int),
        decreases p@.len() - k,
    {
        xs.push(p[k].0 as i128);
        ys.push(p[k].1 as i128);
        k = k + 1;
        assert(xs@ =~= firsts(p@).subrange(0, k as int));
        assert(ys@ =~= seconds(p@).subrange(0, k as int));
    }
    assert(xs@ =~= firsts(p@));
    assert(ys@ =~= seconds(p@));
    let mut s = plain(Mark::Points, color, xs, ys);
    s.legend = Some(String::from_str(legend));
    s
}

/// Every field of the density chart of a sample with its outliers.
pub open spec fn pdf_ok(
    r: ChartSpec,
    curve: Curve,
    sample: LabeledSample,
    iters: Vec<u64>,
    mean: i64,
    id: Seq<char>,
    path: Seq<char>,
    size: Option<Size>,
) -> bool {
    let (v, a, l, n) = (sample.values@, iters@, sample.labels@, sample.values@.len() as int);
    let f = sample.fences;
    let top = r.series@[1].ys@[1];
    let ts = time_scale_of(seq_max(v));
    let e = count_exponent(top as nat);
    &&& (forall|k: int| 0 <= k < a.len() ==> a[k] <= top)
    &&& (exists|k: int| 0 <= k < a.len() && a[k] == top)
    &&& axis_is(
        r.x_axis,
        time_label(prefix_symbol(ts.prefix)),
        Some((curve.xs@[0] as i128, curve.xs@.last() as i128)),
        ts.exponent - 3,
        false,
    )
    &&& axis_is(r.y_axis, count_label(e), Some((0i128, top)), -(e as int), false)
    &&& r.right_axis matches Some(ax) && axis_is(ax, "Density (a.u.)"@, None, 0, false)
    &&& r.title matches Some(t) && t@ == escape_underscores_of(id)
    &&& r.output@ == path
    &&& r.size == size_or_default(size)
    &&& r.key == KeyPlacement::OutsideTopRight
    &&& r.series@.len() == 9
    &&& series_is(
        r.series@[0],
        Mark::Fill,
        Color::DarkBlue,
        Some("PDF"@),
        FILL_OPACITY,
        true,
        widen_seq(curve.xs@),
        widen_seq(curve.ys@),
        Seq::new(curve.xs@.len(), |k: int| 0i128),
        Seq::empty(),
    )
    &&& series_is(
        r.series@[1],
        Mark::DashedLine,
        Color::DarkBlue,
        Some("Mean"@),
        100,
        false,
        seq![mean as i128, mean as i128],
        seq![0i128, top],
        Seq::empty(),
        Seq::empty(),
    )
    &&& series_is(
        r.series@[2],
        Mark::Points,
        Color::DarkBlue,
        Some("\"Clean\" sample"@),
        100,
        false,
        firsts(select(v, a, l, OutlierClass::Clean, n)),
        seconds(select(v, a, l, OutlierClass::Clean, n)),
        Seq::empty(),
        Seq::empty(),
    )
    &&& series_is(
        r.series@[3],
        Mark::Points,
        Color::DarkOrange,
        Some("Mild outliers"@),
        100,
        false,
        firsts(select(v, a, l, OutlierClass::Mild, n)),
        seconds(select(v, a, l, OutlierClass::Mild, n)),
        Seq::empty(),
        Seq::empty(),
    )
    &&& series_is(
        r.series@[4],
        Mark::Points,
        Color::DarkRed,
        Some("Severe outliers"@),
        100,
        false,
        firsts(select(v, a, l, OutlierClass::Severe, n)),
        seconds(select(v, a, l, OutlierClass::Severe, n)),
        Seq::empty(),
        Seq::empty(),
    )
    &&& fence_is(r.series@[5], f.low_mild, Color::DarkOrange, top)
    &&& fence_is(r.series@[6], f.high_mild, Color::DarkOrange, top)
    &&& fence_is(r.series@[7], f.low_severe, Color::DarkRed, top)
    &&& fence_is(r.series@[8], f.high_severe, Color::DarkRed, top)
}

/// A dashed threshold line at `x` from the axis up to `top`.
pub open spec fn fence_is(s: Series, x: i64, color: Color, top: i128) -> bool {
    series_is(
        s,
        Mark::DashedLine,
        color,
        None,
        100,
        false,
        seq![x as i128, x as i128],
        seq![0i128, top],
        Seq::empty(),
        Seq::empty(),
    )
}

/// Building the density chart with outliers holds no state of its own:
/// two charts built from the same inputs agree on every field.
pub proof fn lemma_pdf_repeatable(
    a: ChartSpec,
    b: ChartSpec,
    curve: Curve,
    sample: LabeledSample,
    iters: Vec<u64>,
    mean: i64,
    id: Seq<char>,
    path: Seq<char>,
    size: Option<Size>,
)
    requires
        pdf_ok(a, curve, sample, iters, mean, id, path, size),
        pdf_ok(b, curve, sample, iters, mean, id, path, size),
    ensures
        same_chart(a, b),
{
    let ka = choose|k: int| 0 <= k < iters@.len() && iters@[k] == a.series@[1].ys@[1];
    let kb = choose|k: int| 0 <= k < iters@.len() && iters@[k] == b.series@[1].ys@[1];
    assert(a.series@[1].ys@[1] == b.series@[1].ys@[1]);
    assert forall|k: int| 0 <= k < a.series@.len() implies same_series(#[trigger] a.series@[k], b.series@[k]) by {
        if k == 0 {
        } else if k == 1 {
        } else if k == 2 {
        } else if k == 3 {
        } else if k == 4 {
        } else if k == 5 {
        } else if k == 6 {
        } else if k == 7 {
        } else {
        }
    }
}

/// The density chart of a sample with each measurement drawn at its
/// iteration count, split into clean, mild and severe series, and the four
/// fences as dashed lines. `iters[k]` is the iteration count of
/// `sample.values[k]`; `mean` is the sample's mean.
pub fn pdf(
    curve: &Curve,
    sample: &LabeledSample,
    iters: &Vec<u64>,
    mean: i64,
    id: &str,
    path: &str,
    size: Option<Size>,
) -> (r: ChartSpec)
    requires
        curve.wf(),
        curve.xs@.len() >= 1,
        sample.wf(),
        sample.values@.len() >= 1,
        iters@.len() == sample.values@.len(),
        forall|k: int| 0 <= k < iters@.len() ==> iters@[k] >= 1,
    ensures
        pdf_ok(r, *curve, *sample, *iters, mean, id@, path@, size),
        r.series@[2].xs@.len() + r.series@[3].xs@.len() + r.series@[4].xs@.len() == sample.values@.len(),
{
    let n = curve.xs.len();
    let (label, exponent) = time_axis_label(max_of(&sample.values) as i128);
    let mut x_axis = axis(label);
    x_axis.limits = Some((curve.xs[0] as i128, curve.xs[n - 1] as i128));
    x_axis.scale_exponent = exponent;

    let max_iters = max_count(iters);
    let cs = scale_count(max_iters);
    let top = max_iters as i128;
    let mut y_axis = axis(cs.label());
    y_axis.limits = Some((0, top));
    y_axis.scale_exponent = -(cs.exponent as i32);

    let parts = partition(sample, iters);
    proof {
        lemma_partition_exact(sample.values@, iters@, sample.labels@, sample.values@.len() as int);
    }
    let f = parts.fences;

    let mut fill = plain(Mark::Fill, Color::DarkBlue, widen(&curve.xs), widen(&curve.ys));
    fill.lows = constant(0, n);
    fill.right_axis = true;
    fill.opacity_percent = FILL_OPACITY;
    fill.legend = Some(String::from_str("PDF"));
    let mut mean_line = vertical(Mark::DashedLine, Color::DarkBlue, mean as i128, 0, top);
    mean_line.legend = Some(String::from_str("Mean"));
    let clean = points_series(&parts.clean, Color::DarkBlue, "\"Clean\" sample");
    let mild = points_series(&parts.mild, Color::DarkOrange, "Mild outliers");
    let severe = points_series(&parts.severe, Color::DarkRed, "Severe outliers");
    let lomt = vertical(Mark::DashedLine, Color::DarkOrange, f.low_mild as i128, 0, top);
    let himt = vertical(Mark::DashedLine, Color::DarkOrange, f.high_mild as i128, 0, top);
    let lost = vertical(Mark::DashedLine, Color::DarkRed, f.low_severe as i128, 0, top);
    let hist = vertical(Mark::DashedLine, Color::DarkRed, f.high_severe as i128, 0, top);
    let series = vec![fill, mean_line, clean, mild, severe, lomt, himt, lost, hist];
    assert(series@[0] == fill && series@[1] == mean_line && series@[2] == clean);
    assert(series@[3] == mild && series@[4] == severe && series@[5] == lomt);
    assert(series@[6] == himt && series@[7] == lost && series@[8] == hist);
    ChartSpec {
        title: Some(escape_underscores(id)),
        size: chosen_size(size),
        x_axis,
        y_axis,
        right_axis: Some(axis(String::from_str("Density (a.u.)"))),
        key: KeyPlacement::OutsideTopRight,
        series,
        output: String::from_str(path),
    }
}

/// The parts of a regression chart that thumbnail mode leaves as they are:
/// everything but the title and the key.
pub open spec fn regression_ok(
    r: ChartSpec,
    iters: Vec<u64>,
    elapsed: Vec<u64>,
    slope: crate::estimate::Estimate,
    path: Seq<char>,
    size: Option<Size>,
) -> bool {
    let m = r.series@[1].xs@[1];
    let e = count_exponent(m as nat);
    &&& (forall|k: int| 0 <= k < iters@.len() ==> iters@[k] <= m)
    &&& (exists|k: int| 0 <= k < iters@.len() && iters@[k] == m)
    &&& r.x_axis.scale_exponent == -(e as i32)
    &&& r.x_axis.label@ == count_label(e)
    &&& r.x_axis.limits is None && r.x_axis.tics@.len() == 0 && r.x_axis.grid
    &&& (exists|k: int| 0 <= k < elapsed@.len() && elapsed_axis_ok(r.y_axis, elapsed@[k] as int)
        && forall|j: int| 0 <= j < elapsed@.len() ==> elapsed@[j] <= elapsed@[k])
    &&& r.y_axis.limits is None && r.y_axis.tics@.len() == 0 && r.y_axis.grid
    &&& r.right_axis is None
    &&& r.series@.len() == 3
    &&& (forall|k: int| 0 <= k < 3 ==> (#[trigger] r.series@[k]).color == Color::DarkBlue
        && !r.series@[k].right_axis && r.series@[k].highs@.len() == 0)
    &&& r.series@[0].mark == Mark::Points
    &&& r.series@[0].xs@ == widen_counts(iters@)
    &&& r.series@[0].ys@ == widen_counts(elapsed@)
    &&& r.series@[0].lows@.len() == 0
    &&& r.series@[0].opacity_percent == 100
    &&& r.series@[0].legend matches Some(l) && l@ == "Sample"@
    &&& r.series@[1].mark == Mark::Line
    &&& r.series@[1].xs@ == seq![0i128, m]
    &&& r.series@[1].ys@ == seq![0i128, (slope.point_estimate * m) as i128]
    &&& r.series@[1].lows@.len() == 0
    &&& r.series@[1].opacity_percent == 100
    &&& r.series@[1].legend matches Some(l) && l@ == "Linear regression"@
    &&& r.series@[2].mark == Mark::Fill
    &&& r.series@[2].xs@ == seq![0i128, m]
    &&& r.series@[2].ys@ == seq![0i128, (slope.lower_bound * m) as i128]
    &&& r.series@[2].lows@ == seq![0i128, (slope.upper_bound * m) as i128]
    &&& r.series@[2].opacity_percent == FILL_OPACITY
    &&& r.series@[2].legend matches Some(l) && l@ == "Confidence interval"@
    &&& r.output@ == path
    &&& r.size == size_or_default(size)
}

/// Every field of the regression chart: thumbnail mode drops the title
/// and hides the key, and changes nothing else.
pub open spec fn regression_chart_ok(
    r: ChartSpec,
    iters: Vec<u64>,
    elapsed: Vec<u64>,
    slope: crate::estimate::Estimate,
    id: Seq<char>,
    path: Seq<char>,
    size: Option<Size>,
    thumbnail_mode: bool,
) -> bool {
    &&& regression_ok(r, iters, elapsed, slope, path, size)
    &&& thumbnail_mode ==> r.title is None && r.key == KeyPlacement::Hidden
    &&& !thumbnail_mode ==> r.key == KeyPlacement::InsideTopLeft && (r.title matches Some(t) && t@
        == escape_underscores_of(id))
}

/// Building the regression chart holds no state of its own: two charts
/// built from the same inputs agree on every field.
pub proof fn lemma_regression_repeatable(
    a: ChartSpec,
    b: ChartSpec,
    iters: Vec<u64>,
    elapsed: Vec<u64>,
    slope: crate::estimate::Estimate,
    id: Seq<char>,
    path: Seq<char>,
    size: Option<Size>,
    thumbnail_mode: bool,
)
    requires
        regression_chart_ok(a, iters, elapsed, slope, id, path, size, thumbnail_mode),
        regression_chart_ok(b, iters, elapsed, slope, id, path, size, thumbnail_mode),
    ensures
        same_chart(a, b),
{
    let ka = choose|k: int| 0 <= k < iters@.len() && iters@[k] == a.series@[1].xs@[1];
    let kb = choose|k: int| 0 <= k < iters@.len() && iters@[k] == b.series@[1].xs@[1];
    assert(a.series@[1].xs@[1] == b.series@[1].xs@[1]);
    let ea = choose|k: int| 0 <= k < elapsed@.len() && elapsed_axis_ok(a.y_axis, elapsed@[k] as int)
        && forall|j: int| 0 <= j < elapsed@.len() ==> elapsed@[j] <= elapsed@[k];
    let eb = choose|k: int| 0 <= k < elapsed@.len() && elapsed_axis_ok(b.y_axis, elapsed@[k] as int)
        && forall|j: int| 0 <= j < elapsed@.len() ==> elapsed@[j] <= elapsed@[k];
    assert(elapsed@[ea] == elapsed@[eb]);
    assert(same_axis(a.y_axis, b.y_axis));
    assert(same_axis(a.x_axis, b.x_axis));
    assert forall|k: int| 0 <= k < a.series@.len() implies same_series(#[trigger] a.series@[k], b.series@[k]) by {
        assert(a.series@[k].color == Color::DarkBlue && b.series@[k].color == Color::DarkBlue);
        assert(a.series@[k].highs@ =~= b.series@[k].highs@);
        if k < 2 {
            assert(a.series@[k].lows@ =~= b.series@[k].lows@);
        }
    }
}

proof fn lemma_product_fits(a: int, m: int)
    requires
        i64::MIN <= a <= i64::MAX,
        0 <= m <= u64::MAX,
    ensures
        i128::MIN <= a * m <= i128::MAX,
{
    assert(-0x8000_0000_0000_0000 * 0x1_0000_0000_0000_0000 <= a * m <= 0x7fff_ffff_ffff_ffff
        * 0x1_0000_0000_0000_0000) by (nonlinear_arith)
        requires -0x8000_0000_0000_0000 <= a <= 0x7fff_ffff_ffff_ffff, 0 <= m <= 0xffff_ffff_ffff_ffff;
}

/// The linear regression chart: each measurement as total time against
/// iteration count, the fitted line through the origin, and the band
/// between the slope's confidence bounds. In thumbnail mode title and
/// legend are left out; the geometry stays the same. `slope` is in
/// picoseconds per iteration.
pub fn regression(
    iters: &Vec<u64>,
    elapsed: &Vec<u64>,
    slope: &crate::estimate::Estimate,
    id: &str,
    path: &str,
    size: Option<Size>,
    thumbnail_mode: bool,
) -> (r: ChartSpec)
    requires
        iters@.len() >= 1,
        elapsed@.len() == iters@.len(),
        forall|k: int| 0 <= k < iters@.len() ==> iters@[k] >= 1,
    ensures
        regression_chart_ok(r, *iters, *elapsed, *slope, id@, path@, size, thumbnail_mode),
{
    let max_iters = max_count(iters);
    let max_elapsed = max_count(elapsed);
    let cs = scale_count(max_iters);
    let mut x_axis = axis(cs.label());
    x_axis.scale_exponent = -(cs.exponent as i32);
    x_axis.grid = true;
    let ts = scale_time(max_elapsed as i128);
    let mut label = String::from_str("Total time (");
    label.append(ts.prefix.symbol());
    label.append("s)");
    let mut y_axis = axis(label);
    y_axis.scale_exponent = ts.exponent - 3;
    y_axis.grid = true;
    proof {
        assert("Total time ("@ + prefix_symbol(ts.prefix) + "s)"@ == y_axis.label@);
    }

    let m = max_iters as i128;
    proof {
        lemma_product_fits(slope.point_estimate as int, m as int);
        lemma_product_fits(slope.lower_bound as int, m as int);
        lemma_product_fits(slope.upper_bound as int, m as int);
    }
    let mut points = plain(Mark::Points, Color::DarkBlue, widen_u64(iters), widen_u64(elapsed));
    points.legend = Some(String::from_str("Sample"));
    let mut line = plain(
        Mark::Line,
        Color::DarkBlue,
        vec![0, m],
        vec![0, slope.point_estimate as i128 * m],
    );
    line.legend = Some(String::from_str("Linear regression"));
    let mut band = plain(
        Mark::Fill,
        Color::DarkBlue,
        vec![0, m],
        vec![0, slope.lower_bound as i128 * m],
    );
    band.lows = vec![0, slope.upper_bound as i128 * m];
    band.opacity_percent = FILL_OPACITY;
    band.legend = Some(String::from_str("Confidence interval"));
    assert(line.xs@ =~= seq![0i128, m]);
    assert(line.ys@ =~= seq![0i128, (slope.point_estimate * m) as i128]);
    assert(band.xs@ =~= seq![0i128, m]);
    assert(band.ys@ =~= seq![0i128, (slope.lower_bound * m) as i128]);
    assert(band.lows@ =~= seq![0i128, (slope.upper_bound * m) as i128]);
    let series = vec![points, line, band];
    assert(series@[0] == points && series@[1] == line && series@[2] == band);
    proof {
        let w = choose|k: int| 0 <= k < elapsed@.len() && elapsed@[k] == max_elapsed;
        assert(elapsed_axis_ok(y_axis, elapsed@[w] as int));
    }
    let (title, key) = if thumbnail_mode {
        (None, KeyPlacement::Hidden)
    } else {
        (Some(escape_underscores(id)), KeyPlacement::InsideTopLeft)
    };
    ChartSpec {
        title,
        size: chosen_size(size),
        x_axis,
        y_axis,
        right_axis: None,
        key,
        series,
        output: String::from_str(path),
    }
}

} // verus!

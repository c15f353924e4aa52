use vstd::prelude::*;
use crate::chart::{
    axis_is, same_chart, same_series, series_is,
    axis, chosen_size, constant, plain, size_or_default, vertical, widen, widen_seq, ChartSpec, Color,
    KeyPlacement, Mark, Series, BAND_OPACITY, FILL_OPACITY,
};
use crate::estimate::{estimate_of, statistic_name, Estimate, Estimates, Statistic};
use crate::geometry::{first_at_least, height_at, last_at_most, Curve, GeometryError};
use crate::scale::{prefix_symbol, scale_time, time_scale_of};
use crate::text::{escape_underscores, escape_underscores_of};

verus! {

/// The window a bootstrap distribution is swept over: the confidence
/// interval widened on each side by a ninth of its width, rounded up so
/// that any interval of positive width gets some room.
pub open spec fn kde_bounds(e: Estimate) -> (int, int) {
    let d = (e.upper_bound - e.lower_bound + 8) / 9;
    (e.lower_bound - d, e.upper_bound + d)
}

/// Where to sweep the density of a statistic's bootstrap distribution.
pub fn kde_window(e: &Estimate) -> (r: (i128, i128))
    requires
        e.wf(),
    ensures
        r.0 as int == kde_bounds(*e).0,
        r.1 as int == kde_bounds(*e).1,
        e.lower_bound < e.upper_bound ==> r.0 < e.lower_bound && e.upper_bound < r.1,
{
    let d = (e.upper_bound as i128 - e.lower_bound as i128 + 8) / 9;
    (e.lower_bound as i128 - d, e.upper_bound as i128 + d)
}

/// The noise band over `[-nt, nt]` clipped to `[x_min, x_max]`; when the two
/// do not meet, a band of no width at the middle of the domain.
pub open spec fn noise_band(x_min: int, x_max: int, nt: int) -> (int, int) {
    if nt < x_min || -nt > x_max {
        ((x_min + x_max) / 2, (x_min + x_max) / 2)
    } else {
        (if -nt < x_min { x_min } else { -nt }, if nt > x_max { x_max } else { nt })
    }
}

/// Places the noise band of a relative change chart.
pub fn noise_band_of(x_min: i64, x_max: i64, nt: i64) -> (r: (i128, i128))
    ensures
        r.0 as int == noise_band(x_min as int, x_max as int, nt as int).0,
        r.1 as int == noise_band(x_min as int, x_max as int, nt as int).1,
{
    let lo = x_min as i128;
    let hi = x_max as i128;
    let t = nt as i128;
    if t < lo || -t > hi {
        let s = lo + hi;
        let mid = if s >= 0 {
            s / 2
        } else {
            -((-s + 1) / 2)
        };
        (mid, mid)
    } else {
        (if -t < lo { lo } else { -t }, if t > hi { hi } else { t })
    }
}

pub open spec fn time_label(prefix: Seq<char>) -> Seq<char> {
    "Average time ("@ + prefix + "s)"@
}

/// `v[s..=e]` as chart coordinates.
pub fn span(v: &Vec<i64>, s: usize, e: usize) -> (r: Vec<i128>)
    requires
        s <= e < v@.len(),
    ensures
        r@ == widen_seq(v@).subrange(s as int, e + 1),
{
    let mut r: Vec<i128> = Vec::new();
    let mut k: usize = s;
    let len = v.len();
    while k <= e
        invariant
            len == v@.len(),
            s <= k <= e + 1,
            e < v@.len(),
            r@ == widen_seq(v@).subrange(s as int, k as int),
        decreases e + 1 - k,
    {
        r.push(v[k] as i128);
        k = k + 1;
        assert(r@ =~= widen_seq(v@).subrange(s as int, k as int));
    }
    r
}

/// The parts of a bootstrap distribution chart that both kinds share:
/// the curve, the confidence interval filled, and the point estimate.
pub open spec fn distribution_series(c: Curve, e: Estimate, series: Seq<Series>) -> bool {
    let s = first_at_least(c.xs@, e.lower_bound as int, 0);
    let t = last_at_most(c.xs@, e.upper_bound as int, c.xs@.len() - 1);
    let p = e.point_estimate;
    &&& series.len() >= 3
    &&& series_is(
        series[0],
        Mark::Line,
        Color::DarkBlue,
        Some("Bootstrap distribution"@),
        100,
        false,
        widen_seq(c.xs@),
        widen_seq(c.ys@),
        Seq::empty(),
        Seq::empty(),
    )
    &&& series_is(
        series[1],
        Mark::Fill,
        Color::DarkBlue,
        Some("Confidence interval"@),
        FILL_OPACITY,
        false,
        widen_seq(c.xs@).subrange(s, t + 1),
        widen_seq(c.ys@).subrange(s, t + 1),
        Seq::new((t + 1 - s) as nat, |k: int| 0i128),
        Seq::empty(),
    )
    &&& series_is(
        series[2],
        Mark::DashedLine,
        Color::DarkBlue,
        Some("Point estimate"@),
        100,
        false,
        seq![p as i128, p as i128],
        seq![0i128, height_at(c.xs@, c.ys@, p as int).unwrap() as i128],
        Seq::empty(),
        Seq::empty(),
    )
}

/// Building a distribution chart holds no state of its own: two charts
/// built from the same curve and estimate carry the same marks, the same
/// coordinates and the same legends.
pub proof fn lemma_distribution_geometry_repeatable(c: Curve, e: Estimate, a: Seq<Series>, b: Seq<Series>)
    requires
        distribution_series(c, e, a),
        distribution_series(c, e, b),
    ensures
        forall|k: int|
            0 <= k < 3 ==> (#[trigger] a[k]).mark == b[k].mark && a[k].xs@ == b[k].xs@ && a[k].ys@
                == b[k].ys@,
        a[1].lows@ == b[1].lows@,
        a[0].legend.unwrap()@ == b[0].legend.unwrap()@,
        a[1].legend.unwrap()@ == b[1].legend.unwrap()@,
        a[2].legend.unwrap()@ == b[2].legend.unwrap()@,
{
}

/// Whether the curve can carry the interval and the point estimate of `e`.
pub open spec fn drawable(c: Curve, e: Estimate) -> bool {
    &&& height_at(c.xs@, c.ys@, e.point_estimate as int) is Some
    &&& first_at_least(c.xs@, e.lower_bound as int, 0) < c.xs@.len()
    &&& last_at_most(c.xs@, e.upper_bound as int, c.xs@.len() - 1) >= 0
    &&& first_at_least(c.xs@, e.lower_bound as int, 0) <= last_at_most(
        c.xs@,
        e.upper_bound as int,
        c.xs@.len() - 1,
    )
}

/// Why a curve cannot carry the estimate: its point estimate lies outside
/// the curve, or no sample lies within its interval.
pub open spec fn failure(c: Curve, e: Estimate) -> GeometryError {
    if height_at(c.xs@, c.ys@, e.point_estimate as int) is None {
        GeometryError::OutOfDomain
    } else {
        GeometryError::EmptyWindow
    }
}

fn build_distribution_series(c: &Curve, e: &Estimate) -> (r: Result<Vec<Series>, GeometryError>)
    requires
        c.wf(),
    ensures
        match r {
            Ok(v) => drawable(*c, *e) && distribution_series(*c, *e, v@) && v@.len() == 3,
            Err(err) => !drawable(*c, *e) && err == failure(*c, *e),
        },
{
    let h = match c.interpolated_height(e.point_estimate) {
        Ok(h) => h,
        Err(err) => return Err(err),
    };
    let (s, t) = match c.window(e.lower_bound, e.upper_bound) {
        Ok(w) => w,
        Err(err) => return Err(err),
    };
    let len = c.xs.len();
    if s > t {
        return Err(GeometryError::EmptyWindow);
    }
    let mut line = plain(Mark::Line, Color::DarkBlue, widen(&c.xs), widen(&c.ys));
    line.legend = Some(String::from_str("Bootstrap distribution"));
    let n = t - s + 1;
    let mut fill = plain(Mark::Fill, Color::DarkBlue, span(&c.xs, s, t), span(&c.ys, s, t));
    fill.lows = constant(0, n);
    fill.opacity_percent = FILL_OPACITY;
    fill.legend = Some(String::from_str("Confidence interval"));
    let p = e.point_estimate as i128;
    let mut marker = vertical(Mark::DashedLine, Color::DarkBlue, p, 0, h as i128);
    marker.legend = Some(String::from_str("Point estimate"));
    let v = vec![line, fill, marker];
    assert(v@[0] == line && v@[1] == fill && v@[2] == marker);
    Ok(v)
}

pub open spec fn titled(id: Seq<char>, what: Seq<char>) -> Seq<char> {
    escape_underscores_of(id) + ": "@ + what
}

/// Builds `"{id_escaped}: {what}"`.
fn title_of(id: &str, what: &str) -> (r: String)
    ensures
        r@ == titled(id@, what@),
{
    let mut t = escape_underscores(id);
    t.append(": ");
    t.append(what);
    t
}

pub open spec fn chart_path(dir: Seq<char>, id: Seq<char>, sub: Seq<char>, name: Seq<char>) -> Seq<char> {
    dir + "/"@ + id + "/"@ + sub + "/"@ + name + ".svg"@
}

fn path_of(dir: &str, id: &str, sub: &str, name: &str) -> (r: String)
    ensures
        r@ == chart_path(dir@, id@, sub@, name@),
{
    let mut p = String::from_str(dir);
    p.append("/");
    p.append(id);
    p.append("/");
    p.append(sub);
    p.append("/");
    p.append(name);
    p.append(".svg");
    p
}

/// `chart` is the absolute distribution chart of statistic `s` with
/// estimate `e` over the swept curve `c`.
pub open spec fn abs_chart_ok(chart: ChartSpec, s: Statistic, e: Estimate, c: Curve, id: Seq<char>, dir: Seq<char>) -> bool {
    let ts = time_scale_of(c.xs@.last() as int);
    &&& drawable(c, e)
    &&& distribution_series(c, e, chart.series@)
    &&& chart.series@.len() == 3
    &&& chart.output@ == chart_path(dir, id, "new"@, statistic_name(s))
    &&& chart.title matches Some(t) && t@ == titled(id, statistic_name(s))
    &&& axis_is(
        chart.x_axis,
        time_label(prefix_symbol(ts.prefix)),
        Some((c.xs@[0] as i128, c.xs@.last() as i128)),
        ts.exponent - 3,
        false,
    )
    &&& axis_is(chart.y_axis, "Density (a.u.)"@, None, 3 - ts.exponent, false)
    &&& chart.right_axis is None
    &&& chart.key == KeyPlacement::OutsideTopRight
    &&& chart.size == size_or_default(None)
}

/// `chart` is the relative change chart of statistic `s` with estimate `e`
/// over the swept curve `c` and noise threshold `nt`.
pub open spec fn rel_chart_ok(
    chart: ChartSpec,
    s: Statistic,
    e: Estimate,
    c: Curve,
    id: Seq<char>,
    dir: Seq<char>,
    nt: i64,
) -> bool {
    let (x_min, x_max) = (c.xs@[0] as int, c.xs@.last() as int);
    let band = noise_band(x_min, x_max, nt as int);
    &&& drawable(c, e)
    &&& distribution_series(c, e, chart.series@)
    &&& chart.series@.len() == 4
    &&& series_is(
        chart.series@[3],
        Mark::Fill,
        Color::DarkRed,
        Some("Noise threshold"@),
        BAND_OPACITY,
        true,
        seq![band.0 as i128, band.1 as i128],
        seq![1i128, 1i128],
        seq![0i128, 0i128],
        Seq::empty(),
    )
    &&& chart.output@ == chart_path(dir, id, "change"@, statistic_name(s))
    &&& chart.title matches Some(t) && t@ == titled(id, statistic_name(s))
    &&& axis_is(
        chart.x_axis,
        "Relative change (%)"@,
        Some((x_min as i128, x_max as i128)),
        PPM_TO_PERCENT_EXPONENT as int,
        false,
    )
    &&& axis_is(chart.y_axis, "Density (a.u.)"@, None, 0, false)
    &&& chart.right_axis is None
    &&& chart.key == KeyPlacement::OutsideTopRight
    &&& chart.size == size_or_default(None)
}

/// The chart of a statistic's bootstrap distribution, in absolute time:
/// the swept density, its confidence interval filled, and the point
/// estimate marked at the curve's height there.
pub fn abs_distribution(
    statistic: Statistic,
    estimate: &Estimate,
    curve: &Curve,
    id: &str,
    output_directory: &str,
) -> (r: Result<ChartSpec, GeometryError>)
    requires
        curve.wf(),
        curve.xs@.len() >= 1,
    ensures
        match r {
            Ok(c) => abs_chart_ok(c, statistic, *estimate, *curve, id@, output_directory@),
            Err(err) => !drawable(*curve, *estimate) && err == failure(*curve, *estimate),
        },
{
    let series = match build_distribution_series(curve, estimate) {
        Ok(v) => v,
        Err(e) => return Err(e),
    };
    let n = curve.xs.len();
    let ts = scale_time(curve.xs[n - 1] as i128);
    let mut label = String::from_str("Average time (");
    label.append(ts.prefix.symbol());
    label.append("s)");
    let mut x_axis = axis(label);
    x_axis.limits = Some((curve.xs[0] as i128, curve.xs[n - 1] as i128));
    x_axis.scale_exponent = ts.exponent - 3;
    let mut y_axis = axis(String::from_str("Density (a.u.)"));
    y_axis.scale_exponent = 3 - ts.exponent;
    Ok(ChartSpec {
        title: Some(title_of(id, statistic.name())),
        size: chosen_size(None),
        x_axis,
        y_axis,
        right_axis: None,
        key: KeyPlacement::OutsideTopRight,
        series,
        output: path_of(output_directory, id, "new", statistic.name()),
    })
}

/// Relative changes are in parts per million; the axis reads in percent.
pub const PPM_TO_PERCENT_EXPONENT: i32 = -4;

/// The chart of a statistic's bootstrap distribution of relative change:
/// as the absolute chart, on a percent axis, with the noise band over
/// `[-nt, nt]` drawn against the right axis.
pub fn rel_distribution(
    statistic: Statistic,
    estimate: &Estimate,
    curve: &Curve,
    id: &str,
    output_directory: &str,
    nt: i64,
) -> (r: Result<ChartSpec, GeometryError>)
    requires
        curve.wf(),
        curve.xs@.len() >= 1,
    ensures
        match r {
            Ok(c) => rel_chart_ok(c, statistic, *estimate, *curve, id@, output_directory@, nt),
            Err(err) => !drawable(*curve, *estimate) && err == failure(*curve, *estimate),
        },
{
    let mut series = match build_distribution_series(curve, estimate) {
        Ok(v) => v,
        Err(e) => return Err(e),
    };
    let n = curve.xs.len();
    let x_min = curve.xs[0];
    let x_max = curve.xs[n - 1];
    let (fc_start, fc_end) = noise_band_of(x_min, x_max, nt);
    let mut band = plain(Mark::Fill, Color::DarkRed, vec![fc_start, fc_end], vec![1, 1]);
    band.lows = vec![0, 0];
    band.right_axis = true;
    band.opacity_percent = BAND_OPACITY;
    band.legend = Some(String::from_str("Noise threshold"));
    let ghost before = series@;
    series.push(band);
    assert(series@[3] == band);
    assert(series@[0] == before[0] && series@[1] == before[1] && series@[2] == before[2]);
    assert(distribution_series(*curve, *estimate, series@));
    assert(band.xs@ =~= seq![fc_start, fc_end]);
    assert(band.ys@ =~= seq![1i128, 1i128]);
    assert(band.lows@ =~= seq![0i128, 0i128]);
    let mut x_axis = axis(String::from_str("Relative change (%)"));
    x_axis.limits = Some((x_min as i128, x_max as i128));
    x_axis.scale_exponent = PPM_TO_PERCENT_EXPONENT;
    Ok(ChartSpec {
        title: Some(title_of(id, statistic.name())),
        size: chosen_size(None),
        x_axis,
        y_axis: axis(String::from_str("Density (a.u.)")),
        right_axis: None,
        key: KeyPlacement::OutsideTopRight,
        series,
        output: path_of(output_directory, id, "change", statistic.name()),
    })
}

/// Every field of the t statistic chart.
pub open spec fn t_test_ok(r: ChartSpec, t: i64, curve: Curve, id: Seq<char>, dir: Seq<char>) -> bool {
    &&& r.title matches Some(s) && s@ == titled(id, "Welch t test"@)
    &&& r.size == size_or_default(None)
    &&& axis_is(r.x_axis, "t score"@, None, 0, false)
    &&& axis_is(r.y_axis, "Density"@, None, 0, false)
    &&& r.right_axis is None
    &&& r.key == KeyPlacement::OutsideTopRight
    &&& r.series@.len() == 2
    &&& series_is(
        r.series@[0],
        Mark::Fill,
        Color::DarkBlue,
        Some("t distribution"@),
        FILL_OPACITY,
        false,
        widen_seq(curve.xs@),
        widen_seq(curve.ys@),
        Seq::new(curve.xs@.len(), |k: int| 0i128),
        Seq::empty(),
    )
    &&& series_is(
        r.series@[1],
        Mark::Line,
        Color::DarkBlue,
        Some("t statistic"@),
        100,
        true,
        seq![t as i128, t as i128],
        seq![0i128, 1i128],
        Seq::empty(),
        Seq::empty(),
    )
    &&& r.output@ == chart_path(dir, id, "change"@, "t-test"@)
}

/// Building the t statistic chart holds no state of its own: two charts
/// built from the same inputs agree on every field.
pub proof fn lemma_t_test_repeatable(a: ChartSpec, b: ChartSpec, t: i64, curve: Curve, id: Seq<char>, dir: Seq<char>)
    requires
        t_test_ok(a, t, curve, id, dir),
        t_test_ok(b, t, curve, id, dir),
    ensures
        same_chart(a, b),
{
    assert forall|k: int| 0 <= k < a.series@.len() implies same_series(#[trigger] a.series@[k], b.series@[k]) by {
        if k == 0 {
        } else {
        }
    }
}

/// The chart of the distribution of Welch's t statistic, with a full-height
/// line at the observed value `t`.
pub fn t_test(t: i64, curve: &Curve, id: &str, output_directory: &str) -> (r: ChartSpec)
    requires
        curve.wf(),
    ensures
        t_test_ok(r, t, *curve, id@, output_directory@),
{
    let mut fill = plain(Mark::Fill, Color::DarkBlue, widen(&curve.xs), widen(&curve.ys));
    fill.lows = constant(0, curve.xs.len());
    fill.opacity_percent = FILL_OPACITY;
    fill.legend = Some(String::from_str("t distribution"));
    let mut line = vertical(Mark::Line, Color::DarkBlue, t as i128, 0, 1);
    line.right_axis = true;
    line.legend = Some(String::from_str("t statistic"));
    let series = vec![fill, line];
    assert(series@[0] == fill && series@[1] == line);
    ChartSpec {
        title: Some(title_of(id, "Welch t test")),
        size: chosen_size(None),
        x_axis: axis(String::from_str("t score")),
        y_axis: axis(String::from_str("Density")),
        right_axis: None,
        key: KeyPlacement::OutsideTopRight,
        series,
        output: path_of(output_directory, id, "change", "t-test"),
    }
}

pub open spec fn curves_wf(curves: Seq<(Statistic, Curve)>) -> bool {
    forall|k: int| 0 <= k < curves.len() ==> (#[trigger] curves[k]).1.wf() && curves[k].1.xs@.len() >= 1
}

/// The chart for one statistic: relative change when `nt` is given,
/// absolute time otherwise.
pub open spec fn chart_ok(chart: ChartSpec, s: Statistic, e: Estimate, c: Curve, id: Seq<char>, dir: Seq<char>, nt: Option<i64>) -> bool {
    match nt {
        Some(t) => rel_chart_ok(chart, s, e, c, id, dir, t),
        None => abs_chart_ok(chart, s, e, c, id, dir),
    }
}

pub open spec fn all_drawable(curves: Seq<(Statistic, Curve)>, estimates: Estimates) -> bool {
    forall|k: int|
        0 <= k < curves.len() ==> drawable((#[trigger] curves[k]).1, estimate_of(estimates, curves[k].0))
}

pub open spec fn charts_ok(
    v: Seq<ChartSpec>,
    curves: Seq<(Statistic, Curve)>,
    estimates: Estimates,
    id: Seq<char>,
    dir: Seq<char>,
    nt: Option<i64>,
) -> bool {
    &&& v.len() == curves.len()
    &&& forall|k: int|
        0 <= k < v.len() ==> chart_ok(
            #[trigger] v[k],
            curves[k].0,
            estimate_of(estimates, curves[k].0),
            curves[k].1,
            id,
            dir,
            nt,
        )
}

/// Building a distribution chart holds no state of its own: two charts
/// of the same kind built from the same inputs agree on every field.
pub proof fn lemma_chart_repeatable(
    a: ChartSpec,
    b: ChartSpec,
    s: Statistic,
    e: Estimate,
    c: Curve,
    id: Seq<char>,
    dir: Seq<char>,
    nt: Option<i64>,
)
    requires
        chart_ok(a, s, e, c, id, dir, nt),
        chart_ok(b, s, e, c, id, dir, nt),
    ensures
        same_chart(a, b),
{
    assert forall|k: int| 0 <= k < a.series@.len() implies same_series(#[trigger] a.series@[k], b.series@[k]) by {
        if k == 0 {
        } else if k == 1 {
        } else if k == 2 {
        } else {
        }
    }
}

/// Building the charts of a benchmark twice from the same curves and
/// estimates gives charts that agree on every field, in the same order.
pub proof fn lemma_charts_repeatable(
    a: Seq<ChartSpec>,
    b: Seq<ChartSpec>,
    curves: Seq<(Statistic, Curve)>,
    estimates: Estimates,
    id: Seq<char>,
    dir: Seq<char>,
    nt: Option<i64>,
)
    requires
        charts_ok(a, curves, estimates, id, dir, nt),
        charts_ok(b, curves, estimates, id, dir, nt),
    ensures
        a.len() == b.len(),
        forall|k: int| 0 <= k < a.len() ==> same_chart(#[trigger] a[k], b[k]),
{
    assert forall|k: int| 0 <= k < a.len() implies same_chart(#[trigger] a[k], b[k]) by {
        lemma_chart_repeatable(a[k], b[k], curves[k].0, estimate_of(estimates, curves[k].0), curves[k].1, id, dir, nt);
    }
}

fn distribution_charts(
    curves: &Vec<(Statistic, Curve)>,
    estimates: &Estimates,
    id: &str,
    output_directory: &str,
    nt: Option<i64>,
) -> (r: Result<Vec<ChartSpec>, GeometryError>)
    requires
        curves_wf(curves@),
    ensures
        r is Ok <==> all_drawable(curves@, *estimates),
        r matches Ok(v) ==> charts_ok(v@, curves@, *estimates, id@, output_directory@, nt),
{
    let mut v: Vec<ChartSpec> = Vec::new();
    let mut k: usize = 0;
    while k < curves.len()
        invariant
            curves_wf(curves@),
            k <= curves@.len(),
            v@.len() == k,
            all_drawable(curves@.subrange(0, k as int), *estimates),
            forall|j: int|
                0 <= j < k ==> chart_ok(
                    #[trigger] v@[j],
                    curves@[j].0,
                    estimate_of(*estimates, curves@[j].0),
                    curves@[j].1,
                    id@,
                    output_directory@,
                    nt,
                ),
        decreases curves@.len() - k,
    {
        let (s, c) = (curves[k].0, &curves[k].1);
        assert(curves@[k as int].1.wf());
        let chart = match nt {
            Some(t) => rel_distribution(s, &estimates.get(s), c, id, output_directory, t),
            None => abs_distribution(s, &estimates.get(s), c, id, output_directory),
        };
        match chart {
            Ok(chart) => v.push(chart),
            Err(e) => {
                assert(!all_drawable(curves@, *estimates)) by {
                    assert(!drawable(curves@[k as int].1, estimate_of(*estimates, curves@[k as int].0)));
                }
                return Err(e);
            },
        }
        assert(curves@.subrange(0, k + 1).drop_last() =~= curves@.subrange(0, k as int));
        assert forall|j: int| 0 <= j < k + 1 implies drawable(
            (#[trigger] curves@.subrange(0, k + 1)[j]).1,
            estimate_of(*estimates, curves@.subrange(0, k + 1)[j].0),
        ) by {
            if j < k {
                assert(curves@.subrange(0, k + 1)[j] == curves@.subrange(0, k as int)[j]);
            }
        }
        k = k + 1;
    }
    assert(curves@.subrange(0, k as int) =~= curves@);
    Ok(v)
}

/// The absolute distribution charts of a benchmark, one for each statistic
/// in `curves`, each with the density swept over that statistic's
/// bootstrap distribution. The first statistic whose estimate the curve
/// cannot carry makes the whole call fail.
pub fn abs_distributions(
    curves: &Vec<(Statistic, Curve)>,
    estimates: &Estimates,
    id: &str,
    output_directory: &str,
) -> (r: Result<Vec<ChartSpec>, GeometryError>)
    requires
        curves_wf(curves@),
    ensures
        r is Ok <==> all_drawable(curves@, *estimates),
        r matches Ok(v) ==> charts_ok(v@, curves@, *estimates, id@, output_directory@, None),
{
    distribution_charts(curves, estimates, id, output_directory, None)
}

/// The relative change charts of a benchmark, one for each statistic in
/// `curves`, with the noise threshold `nt` in parts per million.
pub fn rel_distributions(
    curves: &Vec<(Statistic, Curve)>,
    estimates: &Estimates,
    id: &str,
    output_directory: &str,
    nt: i64,
) -> (r: Result<Vec<ChartSpec>, GeometryError>)
    requires
        curves_wf(curves@),
    ensures
        r is Ok <==> all_drawable(curves@, *estimates),
        r matches Ok(v) ==> charts_ok(v@, curves@, *estimates, id@, output_directory@, Some(nt)),
{
    distribution_charts(curves, estimates, id, output_directory, Some(nt))
}

} // verus!

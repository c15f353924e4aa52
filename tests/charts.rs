use benchplot::chart::{KeyPlacement, Mark, Size};
use benchplot::distribution::{abs_distribution, rel_distribution, t_test};
use benchplot::estimate::{Estimate, Statistic};
use benchplot::geometry::{Curve, GeometryError};
use benchplot::measurement::{pdf, pdf_small, regression};
use benchplot::outliers::{Fences, LabeledSample, OutlierLabel};

fn curve() -> Curve {
    Curve { xs: vec![0, 10, 20, 30, 40], ys: vec![0, 100, 50, 50, 0] }
}

#[test]
fn abs_distribution_fills_the_interval_and_marks_the_estimate() {
    let e = Estimate { point_estimate: 15, lower_bound: 10, upper_bound: 30 };
    let c = abs_distribution(Statistic::Mean, &e, &curve(), "my_bench", "out").unwrap();
    assert_eq!(c.output, "out/my_bench/new/mean.svg");
    assert_eq!(c.title.as_deref(), Some("my\\_bench: mean"));
    assert_eq!(c.x_axis.label, "Average time (ps)");
    assert_eq!(c.x_axis.limits, Some((0, 40)));
    assert_eq!(c.series.len(), 3);
    assert_eq!(c.series[1].xs, vec![10, 20, 30]);
    assert_eq!(c.series[1].ys, vec![100, 50, 50]);
    assert_eq!(c.series[1].lows, vec![0, 0, 0]);
    assert_eq!(c.series[2].xs, vec![15, 15]);
    assert_eq!(c.series[2].ys, vec![0, 75]);
    assert_eq!(c.key, KeyPlacement::OutsideTopRight);
}

#[test]
fn abs_distribution_outside_the_curve_fails() {
    let e = Estimate { point_estimate: 50, lower_bound: 45, upper_bound: 60 };
    assert_eq!(abs_distribution(Statistic::Mean, &e, &curve(), "b", "out").unwrap_err(), GeometryError::OutOfDomain);
}

#[test]
fn rel_distribution_adds_the_noise_band() {
    let e = Estimate { point_estimate: 15, lower_bound: 10, upper_bound: 30 };
    let c = rel_distribution(Statistic::Median, &e, &curve(), "b", "out", 5).unwrap();
    assert_eq!(c.output, "out/b/change/median.svg");
    assert_eq!(c.x_axis.label, "Relative change (%)");
    assert_eq!(c.x_axis.scale_exponent, -4);
    assert_eq!(c.series.len(), 4);
    assert_eq!(c.series[3].xs, vec![0, 5]);
    let far = rel_distribution(Statistic::Median, &e, &curve(), "b", "out", -100).unwrap();
    assert_eq!(far.series[3].xs, vec![20, 20]);
}

#[test]
fn t_test_marks_the_statistic() {
    let c = t_test(12, &curve(), "b", "out");
    assert_eq!(c.output, "out/b/change/t-test.svg");
    assert_eq!(c.title.as_deref(), Some("b: Welch t test"));
    assert_eq!(c.series[1].xs, vec![12, 12]);
    assert_eq!(c.series[1].ys, vec![0, 1]);
    assert!(c.series[1].right_axis);
}

#[test]
fn pdf_small_scales_time_and_marks_the_mean() {
    let c = pdf_small(&curve(), 2_500_000, 15, 75, "out/b/pdf_small.svg", None);
    assert_eq!(c.x_axis.label, "Average time (us)");
    assert_eq!(c.x_axis.scale_exponent, -6);
    assert_eq!(c.y_axis.limits, Some((0, 110)));
    assert_eq!(c.size, Size { width: 1280, height: 720 });
    assert_eq!(c.series[1].xs, vec![15, 15]);
    assert_eq!(c.series[1].ys, vec![0, 75]);
    assert_eq!(c.key, KeyPlacement::Hidden);
}

#[test]
fn pdf_draws_outliers_and_fences() {
    let sample = LabeledSample {
        values: vec![5, 20, 22, 90],
        labels: vec![OutlierLabel::LowMild, OutlierLabel::NotAnOutlier, OutlierLabel::NotAnOutlier, OutlierLabel::HighSevere],
        fences: Fences { low_severe: 1, low_mild: 8, high_mild: 40, high_severe: 80 },
    };
    let iters = vec![1_000, 2_000, 3_000, 4_000];
    let c = pdf(&curve(), &sample, &iters, 30, "a_b", "out/a_b/pdf.svg", Some(Size { width: 10, height: 20 }));
    assert_eq!(c.title.as_deref(), Some("a\\_b"));
    assert_eq!(c.y_axis.label, "Iterations (x 10^3)");
    assert_eq!(c.y_axis.limits, Some((0, 4_000)));
    assert_eq!(c.y_axis.scale_exponent, -3);
    assert_eq!(c.series[5].color, benchplot::chart::Color::DarkOrange);
    assert_eq!(c.series[8].color, benchplot::chart::Color::DarkRed);
    assert_eq!(c.series.len(), 9);
    assert_eq!(c.series[2].xs, vec![20, 22]);
    assert_eq!(c.series[2].ys, vec![2_000, 3_000]);
    assert_eq!(c.series[3].xs, vec![5]);
    assert_eq!(c.series[4].xs, vec![90]);
    assert_eq!(c.series[5].xs, vec![8, 8]);
    assert_eq!(c.series[8].xs, vec![80, 80]);
    assert_eq!(c.size, Size { width: 10, height: 20 });
}

#[test]
fn regression_fits_through_the_origin() {
    let slope = Estimate { point_estimate: 3, lower_bound: 2, upper_bound: 4 };
    let c = regression(&vec![10, 20], &vec![30, 61], &slope, "b", "p.svg", None, false);
    assert_eq!(c.series[1].xs, vec![0, 20]);
    assert_eq!(c.series[1].ys, vec![0, 60]);
    assert_eq!(c.series[2].ys, vec![0, 40]);
    assert_eq!(c.series[2].lows, vec![0, 80]);
    assert_eq!(c.y_axis.label, "Total time (ps)");
    assert_eq!(c.x_axis.label, "Iterations");
    assert_eq!(c.key, KeyPlacement::InsideTopLeft);
    assert_eq!(c.title.as_deref(), Some("b"));
    let thumb = regression(&vec![10, 20], &vec![30, 61], &slope, "b", "p.svg", None, true);
    assert_eq!(thumb.title, None);
    assert_eq!(thumb.key, KeyPlacement::Hidden);
    assert_eq!(thumb.series, c.series);
    assert_eq!(thumb.series[0].mark, Mark::Points);
}

#[test]
fn assembling_twice_gives_identical_charts() {
    let e = Estimate { point_estimate: 15, lower_bound: 10, upper_bound: 30 };
    let a = abs_distribution(Statistic::Slope, &e, &curve(), "b", "out").unwrap();
    let b = abs_distribution(Statistic::Slope, &e, &curve(), "b", "out").unwrap();
    assert_eq!(a, b);
    let c = pdf_small(&curve(), 100, 15, 75, "x.svg", None);
    let d = pdf_small(&curve(), 100, 15, 75, "x.svg", None);
    assert_eq!(c, d);
}

fn estimates(e: Estimate) -> benchplot::estimate::Estimates {
    benchplot::estimate::Estimates { mean: e, median: e, median_abs_dev: e, slope: e, std_dev: e }
}

#[test]
fn one_distribution_chart_per_statistic() {
    let e = Estimate { point_estimate: 15, lower_bound: 10, upper_bound: 30 };
    let curves = vec![(Statistic::Mean, curve()), (Statistic::StdDev, curve())];
    let abs = benchplot::distribution::abs_distributions(&curves, &estimates(e), "b", "out").unwrap();
    assert_eq!(abs.len(), 2);
    assert_eq!(abs[0].output, "out/b/new/mean.svg");
    assert_eq!(abs[1].output, "out/b/new/SD.svg");
    let rel = benchplot::distribution::rel_distributions(&curves, &estimates(e), "b", "out", 5).unwrap();
    assert_eq!(rel[1].output, "out/b/change/SD.svg");
    let bad = Estimate { point_estimate: 35, lower_bound: 32, upper_bound: 38 };
    assert_eq!(
        benchplot::distribution::abs_distributions(&curves, &estimates(bad), "b", "out").unwrap_err(),
        GeometryError::EmptyWindow
    );
}

#[test]
fn regression_count_axis_reads_in_thousands() {
    let slope = Estimate { point_estimate: 1_000_000, lower_bound: 900_000, upper_bound: 1_100_000 };
    let c = regression(&vec![1_000, 2_000, 5_000], &vec![1_000_000_000, 2_000_000_000, 5_000_000_000], &slope, "b", "p.svg", None, false);
    assert_eq!(c.x_axis.label, "Iterations (x 10^3)");
    assert_eq!(c.x_axis.scale_exponent, -3);
    assert_eq!(c.y_axis.label, "Total time (ms)");
    assert_eq!(c.y_axis.scale_exponent, -9);
    assert_eq!(c.series[1].ys, vec![0, 5_000_000_000]);
    assert_eq!(c.series[2].ys, vec![0, 4_500_000_000]);
    assert_eq!(c.series[2].lows, vec![0, 5_500_000_000]);
}

#[test]
fn an_estimate_on_its_lower_bound_is_drawn() {
    let e = Estimate { point_estimate: 0, lower_bound: 0, upper_bound: 5 };
    let (lo, hi) = benchplot::distribution::kde_window(&e);
    assert!(lo < 0 && hi > 5);
    let swept = Curve { xs: vec![lo as i64, 0, 3, 5, hi as i64], ys: vec![1, 4, 6, 4, 1] };
    let c = abs_distribution(Statistic::Mean, &e, &swept, "b", "out").unwrap();
    assert_eq!(c.series[2].xs, vec![0, 0]);
    assert_eq!(c.series[2].ys, vec![0, 4]);
    assert_eq!(c.series[1].xs, vec![0, 3, 5]);
}

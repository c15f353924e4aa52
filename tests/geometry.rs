use benchplot::distribution::{kde_window, noise_band_of};
use benchplot::estimate::Estimate;
use benchplot::geometry::{Curve, GeometryError};
use benchplot::outliers::{partition, Fences, LabeledSample, OutlierLabel};

fn curve() -> Curve {
    Curve { xs: vec![0, 10, 20, 30], ys: vec![0, 100, 50, 50] }
}

#[test]
fn height_is_exact_at_samples() {
    let c = curve();
    assert_eq!(c.interpolated_height(10), Ok(100));
    assert_eq!(c.interpolated_height(20), Ok(50));
    assert_eq!(c.interpolated_height(30), Ok(50));
}

#[test]
fn height_interpolates_between_samples() {
    let c = curve();
    assert_eq!(c.interpolated_height(5), Ok(50));
    assert_eq!(c.interpolated_height(15), Ok(75));
    assert_eq!(c.interpolated_height(13), Ok(85));
    assert_eq!(c.interpolated_height(25), Ok(50));
}

#[test]
fn height_outside_domain_fails() {
    let c = curve();
    assert_eq!(c.interpolated_height(0), Err(GeometryError::OutOfDomain));
    assert_eq!(c.interpolated_height(-1), Err(GeometryError::OutOfDomain));
    assert_eq!(c.interpolated_height(31), Err(GeometryError::OutOfDomain));
    let empty = Curve { xs: vec![], ys: vec![] };
    assert_eq!(empty.interpolated_height(0), Err(GeometryError::OutOfDomain));
}

#[test]
fn window_spans_samples_within_bounds() {
    let c = curve();
    assert_eq!(c.window(5, 25), Ok((1, 2)));
    assert_eq!(c.window(10, 20), Ok((1, 2)));
    assert_eq!(c.window(0, 30), Ok((0, 3)));
    assert_eq!(c.window(-100, 100), Ok((0, 3)));
    let (s, e) = c.window(12, 28).unwrap();
    assert!(s <= e);
}

#[test]
fn window_beyond_domain_is_empty() {
    let c = curve();
    assert_eq!(c.window(31, 40), Err(GeometryError::EmptyWindow));
    assert_eq!(c.window(-10, -1), Err(GeometryError::EmptyWindow));
}

#[test]
fn window_between_two_samples_runs_backwards() {
    // no sample lies in [12, 18]: the first at or after 12 is index 2,
    // the last at or before 18 is index 1
    assert_eq!(curve().window(12, 18), Ok((2, 1)));
}

#[test]
fn kde_window_pads_by_a_ninth() {
    let e = Estimate { point_estimate: 50, lower_bound: 10, upper_bound: 100 };
    assert_eq!(kde_window(&e), (0, 110));
    let narrow = Estimate { point_estimate: 0, lower_bound: 0, upper_bound: 5 };
    assert_eq!(kde_window(&narrow), (-1, 6));
    let point = Estimate { point_estimate: 7, lower_bound: 7, upper_bound: 7 };
    assert_eq!(kde_window(&point), (7, 7));
}

#[test]
fn noise_band_is_clipped_or_collapses() {
    assert_eq!(noise_band_of(-100, 100, 50), (-50, 50));
    assert_eq!(noise_band_of(-30, 100, 50), (-30, 50));
    assert_eq!(noise_band_of(-100, 20, 50), (-50, 20));
    assert_eq!(noise_band_of(100, 200, 50), (150, 150));
    assert_eq!(noise_band_of(-201, -100, 50), (-151, -151));
}

#[test]
fn partition_splits_by_label() {
    let sample = LabeledSample {
        values: vec![1, 2, 3, 4, 5, 6],
        labels: vec![
            OutlierLabel::LowSevere,
            OutlierLabel::LowMild,
            OutlierLabel::NotAnOutlier,
            OutlierLabel::NotAnOutlier,
            OutlierLabel::HighMild,
            OutlierLabel::HighSevere,
        ],
        fences: Fences { low_severe: 0, low_mild: 1, high_mild: 5, high_severe: 6 },
    };
    let iters = vec![10, 20, 30, 40, 50, 60];
    let p = partition(&sample, &iters);
    assert_eq!(p.clean, vec![(3, 30), (4, 40)]);
    assert_eq!(p.mild, vec![(2, 20), (5, 50)]);
    assert_eq!(p.severe, vec![(1, 10), (6, 60)]);
    assert_eq!(p.clean.len() + p.mild.len() + p.severe.len(), sample.values.len());
    assert_eq!(p.fences, sample.fences);
}

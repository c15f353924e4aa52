use benchplot::estimate::{Estimate, Estimates};
use benchplot::geometry::Curve;
use benchplot::report::{summarize_generation, Generation};
use benchplot::summary::{
    average_times, categorical_orders, normalize_peak, numeric_inputs, relative_labels,
    relative_ratio, should_summarize, BenchEntry, ROW,
};

fn est(p: i64) -> Estimate {
    Estimate { point_estimate: p, lower_bound: p - 1, upper_bound: p + 1 }
}

fn entry(label: &str, mean: i64, slope: i64, median: i64) -> BenchEntry {
    BenchEntry {
        label: label.to_string(),
        estimates: Estimates {
            mean: est(mean),
            median: est(median),
            median_abs_dev: est(1),
            slope: est(slope),
            std_dev: est(1),
        },
        avg_times: vec![median as u64],
    }
}

fn kde() -> Curve {
    Curve { xs: vec![1_000, 2_000, 3_000], ys: vec![1, 4, 2] }
}

#[test]
fn numeric_labels_select_numeric_mode_in_ascending_order() {
    let entries = vec![entry("4", 40, 40, 40), entry("1", 10, 10, 10), entry("8", 80, 80, 80), entry("2", 20, 20, 20)];
    let inputs = numeric_inputs(&entries).unwrap();
    let mantissas: Vec<u64> = inputs.iter().map(|d| d.mantissa).collect();
    assert_eq!(mantissas, vec![4, 1, 8, 2]);
    assert!(inputs.iter().all(|d| d.scale == 0));
    let kdes = vec![kde(), kde(), kde(), kde()];
    let charts = summarize_generation("grp", &entries, &kdes, &vec![4, 1, 8, 2], "out", Generation::New);
    assert_eq!(charts.len(), 3);
    let unit: i128 = 1_000_000_000_000_000_000;
    for c in &charts {
        assert_eq!(c.series[0].xs, vec![unit, 2 * unit, 4 * unit, 8 * unit]);
        assert_eq!(c.x_axis.scale_exponent, -18);
    }
    assert_eq!(charts[0].output, "out/grp/summary/new/means.svg");
    assert_eq!(charts[1].output, "out/grp/summary/new/medians.svg");
    assert_eq!(charts[2].output, "out/grp/summary/new/slopes.svg");
    assert_eq!(charts[0].series[0].ys, vec![10, 20, 40, 80]);
}

#[test]
fn a_label_that_is_no_count_selects_categorical_mode() {
    let entries = vec![entry("a", 10, 10, 10), entry("b", 20, 20, 20)];
    assert_eq!(numeric_inputs(&entries), None);
    let mixed = vec![entry("1", 10, 10, 10), entry("b", 20, 20, 20)];
    assert_eq!(numeric_inputs(&mixed), None);
    let charts = summarize_generation("grp", &entries, &vec![kde(), kde()], &vec![10, 20], "out", Generation::Base);
    assert_eq!(charts.len(), 4);
    assert_eq!(charts[0].output, "out/grp/summary/base/means.svg");
    assert_eq!(charts[1].output, "out/grp/summary/base/slopes.svg");
    assert_eq!(charts[2].output, "out/grp/summary/base/medians.svg");
    assert_eq!(charts[3].output, "out/grp/summary/base/violin_plot.svg");
}

#[test]
fn categorical_ratios_are_relative_to_the_smallest() {
    let entries = vec![entry("x", 10, 10, 10), entry("y", 5, 5, 5), entry("z", 20, 20, 20)];
    let orders = categorical_orders(&entries);
    assert_eq!(orders.by_median, vec![2, 0, 1]);
    let charts = summarize_generation("grp", &entries, &vec![kde(), kde(), kde()], &vec![10, 5, 20], "out", Generation::New);
    let median = &charts[2];
    let rel = &median.right_axis.as_ref().unwrap().tics;
    let rows: Vec<&str> = median.y_axis.tics.iter().map(|t| t.1.as_str()).collect();
    assert_eq!(rows, vec!["z", "x", "y"]);
    let ratios: Vec<&str> = rel.iter().map(|t| t.1.as_str()).collect();
    assert_eq!(ratios, vec!["4.00", "2.00", "1.00"]);
    // per entry, in input order: 10, 5, 20 against the minimum 5
    assert_eq!(relative_labels(&vec![10, 5, 20, 5]), vec!["2.00", "1.00", "4.00", "1.00"]);
}

#[test]
fn median_pass_sorts_the_slope_order() {
    // equal medians keep the order the slope pass left them in
    let entries = vec![entry("a", 1, 1, 7), entry("b", 2, 3, 7), entry("c", 3, 2, 9)];
    let orders = categorical_orders(&entries);
    assert_eq!(orders.by_mean, vec![2, 1, 0]);
    assert_eq!(orders.by_slope, vec![1, 2, 0]);
    assert_eq!(orders.by_median, vec![2, 1, 0]);
    let charts = summarize_generation("g", &entries, &vec![kde(), kde(), kde()], &vec![7, 7, 9], "o", Generation::New);
    let violin_rows: Vec<&str> = charts[3].y_axis.tics.iter().map(|t| t.1.as_str()).collect();
    assert_eq!(violin_rows, vec!["c", "b", "a"]);
}

#[test]
fn relative_ratio_rounds_and_handles_zero() {
    assert_eq!(relative_ratio(10, 5), "2.00");
    assert_eq!(relative_ratio(1, 3), "0.33");
    assert_eq!(relative_ratio(2, 3), "0.67");
    assert_eq!(relative_ratio(-10, 5), "-2.00");
    assert_eq!(relative_ratio(3, 0), "inf");
    assert_eq!(relative_ratio(-3, 0), "-inf");
    assert_eq!(relative_ratio(0, 0), "NaN");
}

#[test]
fn violin_curves_peak_at_one_row() {
    let v = normalize_peak(&vec![1, 4, 2, 0]).unwrap();
    assert_eq!(v, vec![ROW / 4, ROW, ROW / 2, 0]);
    assert_eq!(*v.iter().max().unwrap(), ROW);
    assert_eq!(normalize_peak(&vec![0, 0]), None);
    assert_eq!(normalize_peak(&vec![]), None);
}

#[test]
fn a_single_benchmark_is_not_summarized() {
    assert!(!should_summarize(0));
    assert!(!should_summarize(1));
    assert!(should_summarize(2));
    let entries = vec![entry("1", 10, 10, 10)];
    let charts = summarize_generation("grp", &entries, &vec![kde()], &vec![10], "out", Generation::New);
    assert!(charts.is_empty());
}

#[test]
fn average_times_divide_elapsed_by_iterations() {
    assert_eq!(average_times(&vec![1, 2, 4], &vec![10, 30, 100]), vec![10, 15, 25]);
}

#[test]
fn decimal_labels_select_numeric_mode_sorted_by_value() {
    let entries = vec![entry("1.5", 15, 15, 15), entry("2", 20, 20, 20), entry("0.25", 3, 3, 3)];
    let kdes = vec![kde(), kde(), kde()];
    let charts = summarize_generation("grp", &entries, &kdes, &vec![15, 20, 3], "out", Generation::New);
    assert_eq!(charts.len(), 3);
    let unit: i128 = 1_000_000_000_000_000_000;
    assert_eq!(charts[0].series[0].xs, vec![unit / 4, 3 * unit / 2, 2 * unit]);
    assert_eq!(charts[0].series[0].ys, vec![3, 15, 20]);
    let odd = vec![entry("1.5", 15, 15, 15), entry("two", 20, 20, 20)];
    let charts = summarize_generation("grp", &odd, &vec![kde(), kde()], &vec![15, 20], "out", Generation::New);
    assert_eq!(charts.len(), 4);
}

use vstd::prelude::*;

verus! {

/// The statistics a benchmark is summarised by.
#[derive(Clone, Copy, Debug, PartialEq, Eq, Structural)]
pub enum Statistic {
    Mean,
    Median,
    MedianAbsDev,
    Slope,
    StdDev,
}

pub open spec fn statistic_name(s: Statistic) -> Seq<char> {
    match s {
        Statistic::Mean => "mean"@,
        Statistic::Median => "median"@,
        Statistic::MedianAbsDev => "MAD"@,
        Statistic::Slope => "slope"@,
        Statistic::StdDev => "SD"@,
    }
}

impl Statistic {
    /// The name used in file names and chart titles.
    pub fn name(&self) -> (r: &'static str)
        ensures
            r@ == statistic_name(*self),
    {
        match self {
            Statistic::Mean => "mean",
            Statistic::Median => "median",
            Statistic::MedianAbsDev => "MAD",
            Statistic::Slope => "slope",
            Statistic::StdDev => "SD",
        }
    }
}

/// A point estimate with its confidence interval. Durations are in
/// picoseconds; relative changes in parts per million.
#[derive(Clone, Copy, Debug, PartialEq, Eq, Structural)]
pub struct Estimate {
    pub point_estimate: i64,
    pub lower_bound: i64,
    pub upper_bound: i64,
}

impl Estimate {
    pub open spec fn wf(&self) -> bool {
        self.lower_bound <= self.point_estimate <= self.upper_bound
    }
}

/// One estimate for each statistic.
#[derive(Clone, Copy, Debug, PartialEq, Eq, Structural)]
pub struct Estimates {
    pub mean: Estimate,
    pub median: Estimate,
    pub median_abs_dev: Estimate,
    pub slope: Estimate,
    pub std_dev: Estimate,
}

pub open spec fn estimate_of(e: Estimates, s: Statistic) -> Estimate {
    match s {
        Statistic::Mean => e.mean,
        Statistic::Median => e.median,
        Statistic::MedianAbsDev => e.median_abs_dev,
        Statistic::Slope => e.slope,
        Statistic::StdDev => e.std_dev,
    }
}

impl Estimates {
    pub open spec fn wf(&self) -> bool {
        &&& self.mean.wf()
        &&& self.median.wf()
        &&& self.median_abs_dev.wf()
        &&& self.slope.wf()
        &&& self.std_dev.wf()
    }

    /// The estimate of statistic `s`.
    pub fn get(&self, s: Statistic) -> (r: Estimate)
        ensures
            r == estimate_of(*self, s),
    {
        match s {
            Statistic::Mean => self.mean,
            Statistic::Median => self.median,
            Statistic::MedianAbsDev => self.median_abs_dev,
            Statistic::Slope => self.slope,
            Statistic::StdDev => self.std_dev,
        }
    }
}

} // verus!

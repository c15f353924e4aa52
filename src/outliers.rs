use vstd::prelude::*;

verus! {

/// Classification of one observation against the four fences.
#[derive(Clone, Copy, Debug, PartialEq, Eq, Structural)]
pub enum OutlierLabel {
    LowSevere,
    LowMild,
    NotAnOutlier,
    HighMild,
    HighSevere,
}

/// The three point series an observation can be drawn in.
#[derive(Clone, Copy, Debug, PartialEq, Eq, Structural)]
pub enum OutlierClass {
    Clean,
    Mild,
    Severe,
}

pub open spec fn class_of(l: OutlierLabel) -> OutlierClass {
    match l {
        OutlierLabel::NotAnOutlier => OutlierClass::Clean,
        OutlierLabel::LowMild | OutlierLabel::HighMild => OutlierClass::Mild,
        OutlierLabel::LowSevere | OutlierLabel::HighSevere => OutlierClass::Severe,
    }
}

impl OutlierLabel {
    /// The series this label draws its observation in.
    pub fn class(&self) -> (r: OutlierClass)
        ensures
            r == class_of(*self),
    {
        match self {
            OutlierLabel::NotAnOutlier => OutlierClass::Clean,
            OutlierLabel::LowMild | OutlierLabel::HighMild => OutlierClass::Mild,
            OutlierLabel::LowSevere | OutlierLabel::HighSevere => OutlierClass::Severe,
        }
    }
}

/// The fences separating clean observations from mild and severe outliers,
/// in picoseconds.
#[derive(Clone, Copy, Debug, PartialEq, Eq, Structural)]
pub struct Fences {
    pub low_severe: i64,
    pub low_mild: i64,
    pub high_mild: i64,
    pub high_severe: i64,
}

impl Fences {
    pub open spec fn wf(&self) -> bool {
        self.low_severe <= self.low_mild <= self.high_mild <= self.high_severe
    }
}

/// Observations in picoseconds, each with its outlier label.
#[derive(Clone, Debug, PartialEq, Eq)]
pub struct LabeledSample {
    pub values: Vec<i64>,
    pub labels: Vec<OutlierLabel>,
    pub fences: Fences,
}

impl LabeledSample {
    pub open spec fn wf(&self) -> bool {
        &&& self.values@.len() == self.labels@.len()
        &&& self.fences.wf()
    }
}

/// The points `(values[i], aux[i])` among the first `n` whose label falls
/// in class `c`, in the order they come in.
pub open spec fn select(
    values: Seq<i64>,
    aux: Seq<u64>,
    labels: Seq<OutlierLabel>,
    c: OutlierClass,
    n: int,
) -> Seq<(i64, u64)>
    decreases n,
{
    if n <= 0 {
        Seq::empty()
    } else if class_of(labels[n - 1]) == c {
        select(values, aux, labels, c, n - 1).push((values[n - 1], aux[n - 1]))
    } else {
        select(values, aux, labels, c, n - 1)
    }
}

/// The observations of a labelled sample split into the three series, with
/// the fences to draw as threshold lines.
#[derive(Clone, Debug, PartialEq, Eq)]
pub struct Partition {
    pub clean: Vec<(i64, u64)>,
    pub mild: Vec<(i64, u64)>,
    pub severe: Vec<(i64, u64)>,
    pub fences: Fences,
}

/// Splits the observations of `sample`, paired with the values of `aux`
/// at the same index, into clean, mild and severe series.
pub fn partition(sample: &LabeledSample, aux: &Vec<u64>) -> (r: Partition)
    requires
        sample.wf(),
        aux@.len() == sample.values@.len(),
    ensures
        ({
            let (v, a, l, n) = (sample.values@, aux@, sample.labels@, sample.values@.len() as int);
            &&& r.clean@ == select(v, a, l, OutlierClass::Clean, n)
            &&& r.mild@ == select(v, a, l, OutlierClass::Mild, n)
            &&& r.severe@ == select(v, a, l, OutlierClass::Severe, n)
        }),
        r.fences == sample.fences,
{
    let n = sample.values.len();
    let mut clean: Vec<(i64, u64)> = Vec::new();
    let mut mild: Vec<(i64, u64)> = Vec::new();
    let mut severe: Vec<(i64, u64)> = Vec::new();
    let mut i: usize = 0;
    while i < n
        invariant
            n == sample.values@.len(),
            sample.wf(),
            aux@.len() == n,
            i <= n,
            clean@ == select(sample.values@, aux@, sample.labels@, OutlierClass::Clean, i as int),
            mild@ == select(sample.values@, aux@, sample.labels@, OutlierClass::Mild, i as int),
            severe@ == select(sample.values@, aux@, sample.labels@, OutlierClass::Severe, i as int),
        decreases n - i,
    {
        let point = (sample.values[i], aux[i]);
        match sample.labels[i].class() {
            OutlierClass::Clean => clean.push(point),
            OutlierClass::Mild => mild.push(point),
            OutlierClass::Severe => severe.push(point),
        }
        i = i + 1;
    }
    Partition { clean, mild, severe, fences: sample.fences }
}

/// Every observation lands in exactly one of the three series: their
/// lengths add up to the sample's.
pub proof fn lemma_partition_exact(values: Seq<i64>, aux: Seq<u64>, labels: Seq<OutlierLabel>, n: int)
    requires
        0 <= n <= values.len(),
        values.len() == labels.len(),
        aux.len() == values.len(),
    ensures
        select(values, aux, labels, OutlierClass::Clean, n).len() + select(
            values,
            aux,
            labels,
            OutlierClass::Mild,
            n,
        ).len() + select(values, aux, labels, OutlierClass::Severe, n).len() == n,
    decreases n,
{
    if n > 0 {
        lemma_partition_exact(values, aux, labels, n - 1);
    }
}

} // verus!

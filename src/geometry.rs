use vstd::prelude::*;

verus! {

/// A sampled curve, such as a kernel density estimate: `ys[i]` is the
/// height at `xs[i]`, and `xs` never decreases.
#[derive(Clone, Debug, PartialEq, Eq)]
pub struct Curve {
    pub xs: Vec<i64>,
    pub ys: Vec<i64>,
}

/// Why a point or a window cannot be placed on a curve.
#[derive(Clone, Copy, Debug, PartialEq, Eq, Structural)]
pub enum GeometryError {
    /// The abscissa lies at or before the first sample or after the last.
    OutOfDomain,
    /// No sample lies at or after the lower bound, or none at or before
    /// the upper bound.
    EmptyWindow,
}

pub open spec fn sorted(xs: Seq<i64>) -> bool {
    forall|i: int, j: int| 0 <= i <= j < xs.len() ==> xs[i] <= xs[j]
}

impl Curve {
    pub open spec fn wf(&self) -> bool {
        &&& self.xs@.len() == self.ys@.len()
        &&& sorted(self.xs@)
    }
}

/// Index of the first sample at or after `v`, searching from `i`; the
/// length when there is none.
pub open spec fn first_at_least(xs: Seq<i64>, v: int, i: int) -> int
    decreases xs.len() - i,
{
    if i < 0 || i >= xs.len() {
        xs.len() as int
    } else if xs[i] >= v {
        i
    } else {
        first_at_least(xs, v, i + 1)
    }
}

/// Index of the last sample at or before `v`, searching down from `j`;
/// `-1` when there is none.
pub open spec fn last_at_most(xs: Seq<i64>, v: int, j: int) -> int
    decreases j + 1,
{
    if j < 0 || j >= xs.len() {
        -1
    } else if xs[j] <= v {
        j
    } else {
        last_at_most(xs, v, j - 1)
    }
}

/// The height at `p` on the segment from `(x0, y0)` to `(x1, y1)`,
/// rounded towards `y0`.
pub open spec fn lerp(x0: int, y0: int, x1: int, y1: int, p: int) -> int {
    if y1 >= y0 {
        y0 + (y1 - y0) * (p - x0) / (x1 - x0)
    } else {
        y0 - (y0 - y1) * (p - x0) / (x1 - x0)
    }
}

/// The height of the curve at `p`, by linear interpolation between the
/// sample before `p` and the first sample at or after it.
pub open spec fn height_at(xs: Seq<i64>, ys: Seq<i64>, p: int) -> Option<int> {
    let i = first_at_least(xs, p, 0);
    if 1 <= i < xs.len() {
        Some(lerp(xs[i - 1] as int, ys[i - 1] as int, xs[i] as int, ys[i] as int, p))
    } else {
        None
    }
}

proof fn lemma_first_at_least(xs: Seq<i64>, v: int, i: int)
    requires
        0 <= i <= xs.len(),
    ensures
        i <= first_at_least(xs, v, i) <= xs.len(),
        first_at_least(xs, v, i) < xs.len() ==> xs[first_at_least(xs, v, i)] >= v,
        forall|k: int| i <= k < first_at_least(xs, v, i) ==> xs[k] < v,
    decreases xs.len() - i,
{
    if i < xs.len() && xs[i] < v {
        lemma_first_at_least(xs, v, i + 1);
    }
}

proof fn lemma_last_at_most(xs: Seq<i64>, v: int, j: int)
    requires
        -1 <= j < xs.len(),
    ensures
        -1 <= last_at_most(xs, v, j) <= j,
        last_at_most(xs, v, j) >= 0 ==> xs[last_at_most(xs, v, j)] <= v,
        forall|k: int| last_at_most(xs, v, j) < k <= j ==> xs[k] > v,
    decreases j + 1,
{
    if j >= 0 && xs[j] > v {
        lemma_last_at_most(xs, v, j - 1);
    }
}

proof fn lemma_lerp_between(x0: int, y0: int, x1: int, y1: int, p: int)
    requires
        x0 < x1,
        x0 <= p <= x1,
    ensures
        y0 <= y1 ==> y0 <= lerp(x0, y0, x1, y1, p) <= y1,
        y1 < y0 ==> y1 <= lerp(x0, y0, x1, y1, p) <= y0,
        p == x1 ==> lerp(x0, y0, x1, y1, p) == y1,
{
    let d = x1 - x0;
    let a = if y1 >= y0 { y1 - y0 } else { y0 - y1 };
    let q = p - x0;
    assert(0 <= a * q <= a * d) by (nonlinear_arith)
        requires 0 <= a, 0 <= q <= d;
    assert((a * d) / d == a) by (nonlinear_arith)
        requires d > 0;
    assert(0 <= (a * q) / d <= (a * d) / d) by (nonlinear_arith)
        requires d > 0, 0 <= a * q <= a * d;
}

impl Curve {
    /// Index of the first sample at or after `v`.
    pub fn first_index_at_least(&self, v: i64) -> (r: usize)
        ensures
            r == first_at_least(self.xs@, v as int, 0),
    {
        let n = self.xs.len();
        let mut i: usize = 0;
        while i < n
            invariant
                n == self.xs@.len(),
                i <= n,
                first_at_least(self.xs@, v as int, i as int) == first_at_least(
                    self.xs@,
                    v as int,
                    0,
                ),
            decreases n - i,
        {
            if self.xs[i] >= v {
                return i;
            }
            i = i + 1;
        }
        i
    }

    /// Index of the last sample at or before `v`, if any.
    pub fn last_index_at_most(&self, v: i64) -> (r: Option<usize>)
        ensures
            match r {
                Some(j) => j as int == last_at_most(self.xs@, v as int, self.xs@.len() - 1),
                None => last_at_most(self.xs@, v as int, self.xs@.len() - 1) == -1,
            },
    {
        let n = self.xs.len();
        let mut j: usize = n;
        while j > 0
            invariant
                n == self.xs@.len(),
                j <= n,
                last_at_most(self.xs@, v as int, j - 1) == last_at_most(
                    self.xs@,
                    v as int,
                    n - 1,
                ),
            decreases j,
        {
            if self.xs[j - 1] <= v {
                return Some(j - 1);
            }
            j = j - 1;
        }
        None
    }

    /// The height of the curve at `p`, interpolated linearly between the
    /// samples around it.
    pub fn interpolated_height(&self, p: i64) -> (r: Result<i64, GeometryError>)
        requires
            self.wf(),
        ensures
            r is Ok <==> height_at(self.xs@, self.ys@, p as int) is Some,
            r matches Ok(h) ==> height_at(self.xs@, self.ys@, p as int) == Some(h as int),
            r matches Err(err) ==> err == GeometryError::OutOfDomain,
    {
        let i = self.first_index_at_least(p);
        proof {
            lemma_first_at_least(self.xs@, p as int, 0);
        }
        if i == 0 || i >= self.xs.len() {
            return Err(GeometryError::OutOfDomain);
        }
        let x0 = self.xs[i - 1];
        let x1 = self.xs[i];
        let y0 = self.ys[i - 1];
        let y1 = self.ys[i];
        proof {
            lemma_lerp_between(x0 as int, y0 as int, x1 as int, y1 as int, p as int);
        }
        let d = (x1 as i128 - x0 as i128) as u128;
        let q = (p as i128 - x0 as i128) as u128;
        if y1 >= y0 {
            let a = (y1 as i128 - y0 as i128) as u128;
            assert(a * q <= u128::MAX) by (nonlinear_arith)
                requires a <= u64::MAX, q <= u64::MAX;
            let h = y0 as i128 + ((a * q) / d) as i128;
            Ok(h as i64)
        } else {
            let a = (y0 as i128 - y1 as i128) as u128;
            assert(a * q <= u128::MAX) by (nonlinear_arith)
                requires a <= u64::MAX, q <= u64::MAX;
            let h = y0 as i128 - ((a * q) / d) as i128;
            Ok(h as i64)
        }
    }

    /// The span of samples, first and last inclusive, that lies within
    /// `[lb, ub]`: from the first sample at or after `lb` to the last one
    /// at or before `ub`.
    pub fn window(&self, lb: i64, ub: i64) -> (r: Result<(usize, usize), GeometryError>)
        ensures
            r is Ok <==> first_at_least(self.xs@, lb as int, 0) < self.xs@.len() && last_at_most(
                self.xs@,
                ub as int,
                self.xs@.len() - 1,
            ) >= 0,
            r matches Err(err) ==> err == GeometryError::EmptyWindow,
            r matches Ok((s, e)) ==> {
                &&& s as int == first_at_least(self.xs@, lb as int, 0)
                &&& e as int == last_at_most(self.xs@, ub as int, self.xs@.len() - 1)
                &&& s < self.xs@.len()
                &&& e < self.xs@.len()
            },
    {
        let s = self.first_index_at_least(lb);
        proof {
            lemma_first_at_least(self.xs@, lb as int, 0);
        }
        if s >= self.xs.len() {
            return Err(GeometryError::EmptyWindow);
        }
        proof {
            lemma_last_at_most(self.xs@, ub as int, self.xs@.len() - 1);
        }
        match self.last_index_at_most(ub) {
            Some(e) => Ok((s, e)),
            None => Err(GeometryError::EmptyWindow),
        }
    }
}

/// On a curve whose samples rise strictly into `xs[k]`, the interpolated
/// height at `xs[k]` is `ys[k]` itself.
pub proof fn lemma_height_exact_at_samples(c: Curve, k: int)
    requires
        c.wf(),
        1 <= k < c.xs@.len(),
        c.xs@[k - 1] < c.xs@[k],
    ensures
        height_at(c.xs@, c.ys@, c.xs@[k] as int) == Some(c.ys@[k] as int),
{
    let xs = c.xs@;
    let p = xs[k] as int;
    lemma_first_at_least(xs, p, 0);
    let i = first_at_least(xs, p, 0);
    assert(i == k) by {
        if i < k {
            assert(xs[i] <= xs[k - 1]);
        }
    }
    lemma_lerp_between(xs[k - 1] as int, c.ys@[k - 1] as int, p, c.ys@[k] as int, p);
}

/// When some sample lies in `[lb, ub]` the window is non-empty and starts
/// no later than it ends.
pub proof fn lemma_window_ordered(c: Curve, lb: int, ub: int, k: int)
    requires
        c.wf(),
        lb <= ub,
        0 <= k < c.xs@.len(),
        lb <= c.xs@[k] <= ub,
    ensures
        0 <= first_at_least(c.xs@, lb, 0) <= k,
        k <= last_at_most(c.xs@, ub, c.xs@.len() - 1) < c.xs@.len(),
        first_at_least(c.xs@, lb, 0) <= last_at_most(c.xs@, ub, c.xs@.len() - 1),
{
    lemma_first_at_least(c.xs@, lb, 0);
    lemma_last_at_most(c.xs@, ub, c.xs@.len() - 1);
}

pub open spec fn seq_max(ys: Seq<i64>) -> int
    decreases ys.len(),
{
    if ys.len() == 0 {
        0
    } else if ys.len() == 1 {
        ys[0] as int
    } else {
        let m = seq_max(ys.drop_last());
        if ys.last() > m {
            ys.last() as int
        } else {
            m
        }
    }
}

pub proof fn lemma_seq_max(ys: Seq<i64>)
    requires
        ys.len() >= 1,
    ensures
        forall|k: int| 0 <= k < ys.len() ==> ys[k] <= seq_max(ys),
        exists|k: int| 0 <= k < ys.len() && ys[k] == seq_max(ys),
    decreases ys.len(),
{
    if ys.len() > 1 {
        lemma_seq_max(ys.drop_last());
        let m = seq_max(ys.drop_last());
        let w = choose|k: int| 0 <= k < ys.drop_last().len() && ys.drop_last()[k] == m;
        assert forall|k: int| 0 <= k < ys.len() implies ys[k] <= seq_max(ys) by {
            if k < ys.len() - 1 {
                assert(ys[k] == ys.drop_last()[k]);
            }
        }
        if ys.last() > m {
            assert(ys[ys.len() - 1] == seq_max(ys));
        } else {
            assert(ys[w] == seq_max(ys));
        }
    } else {
        assert(ys[0] == seq_max(ys));
    }
}

/// The largest of `ys`.
pub fn max_of(ys: &Vec<i64>) -> (r: i64)
    requires
        ys@.len() >= 1,
    ensures
        r == seq_max(ys@),
        forall|k: int| 0 <= k < ys@.len() ==> ys@[k] <= r,
{
    let n = ys.len();
    let mut m: i64 = ys[0];
    let mut k: usize = 1;
    assert(ys@.subrange(0, 1).drop_last() =~= Seq::<i64>::empty());
    assert(seq_max(ys@.subrange(0, 1)) == ys@[0]);
    while k < n
        invariant
            n == ys@.len(),
            1 <= k <= n,
            m == seq_max(ys@.subrange(0, k as int)),
        decreases n - k,
    {
        assert(ys@.subrange(0, k + 1).drop_last() =~= ys@.subrange(0, k as int));
        if ys[k] > m {
            m = ys[k];
        }
        k = k + 1;
    }
    assert(ys@.subrange(0, n as int) =~= ys@);
    proof {
        lemma_seq_max(ys@);
    }
    m
}

/// The largest of `v`.
pub fn max_count(v: &Vec<u64>) -> (r: u64)
    requires
        v@.len() >= 1,
    ensures
        forall|k: int| 0 <= k < v@.len() ==> v@[k] <= r,
        exists|k: int| 0 <= k < v@.len() && v@[k] == r,
{
    let mut m: u64 = v[0];
    let mut k: usize = 1;
    while k < v.len()
        invariant
            1 <= k <= v@.len(),
            forall|j: int| 0 <= j < k ==> v@[j] <= m,
            exists|j: int| 0 <= j < v@.len() && v@[j] == m,
        decreases v@.len() - k,
    {
        if v[k] > m {
            m = v[k];
        }
        k = k + 1;
    }
    m
}

} // verus!

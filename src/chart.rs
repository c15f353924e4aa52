use vstd::prelude::*;

verus! {

/// Colours of the chart palette.
#[derive(Clone, Copy, Debug, PartialEq, Eq, Structural)]
pub enum Color {
    DarkBlue,
    DarkOrange,
    DarkRed,
    Black,
}

/// How a series is drawn.
#[derive(Clone, Copy, Debug, PartialEq, Eq, Structural)]
pub enum Mark {
    /// A solid line through the points.
    Line,
    /// A dashed line through the points.
    DashedLine,
    /// The area between `ys` and `lows`.
    Fill,
    /// Filled circles.
    Points,
    /// Plus-shaped points.
    Plus,
    /// Points with horizontal bars from `lows` to `highs`.
    XErrorBars,
    /// Points with vertical bars from `lows` to `highs`.
    YErrorBars,
}

/// One drawn series. Coordinates are in the units of the axes that carry
/// them; `lows` and `highs` are empty where the mark needs none.
#[derive(Clone, Debug, PartialEq, Eq)]
pub struct Series {
    pub mark: Mark,
    pub color: Color,
    pub legend: Option<String>,
    pub opacity_percent: u32,
    pub right_axis: bool,
    pub xs: Vec<i128>,
    pub ys: Vec<i128>,
    pub lows: Vec<i128>,
    pub highs: Vec<i128>,
}

/// An axis: coordinates are displayed multiplied by `10^scale_exponent`.
#[derive(Clone, Debug, PartialEq, Eq)]
pub struct Axis {
    pub label: String,
    pub limits: Option<(i128, i128)>,
    pub scale_exponent: i32,
    pub grid: bool,
    /// Labels written at given coordinates in place of numbers.
    pub tics: Vec<(i128, String)>,
}

/// Where the legend goes.
#[derive(Clone, Copy, Debug, PartialEq, Eq, Structural)]
pub enum KeyPlacement {
    Hidden,
    OutsideTopRight,
    InsideTopLeft,
}

/// Image size in pixels.
#[derive(Clone, Copy, Debug, PartialEq, Eq, Structural)]
pub struct Size {
    pub width: u32,
    pub height: u32,
}

/// The size of a chart when the caller asks for none.
pub const DEFAULT_WIDTH: u32 = 1280;
pub const DEFAULT_HEIGHT: u32 = 720;

/// Opacity of filled areas, and of the noise band.
pub const FILL_OPACITY: u32 = 25;
pub const BAND_OPACITY: u32 = 10;

/// A declarative description of one chart, handed whole to a renderer.
#[derive(Clone, Debug, PartialEq, Eq)]
pub struct ChartSpec {
    pub title: Option<String>,
    pub size: Size,
    pub x_axis: Axis,
    pub y_axis: Axis,
    pub right_axis: Option<Axis>,
    pub key: KeyPlacement,
    pub series: Vec<Series>,
    pub output: String,
}

pub open spec fn size_or_default(size: Option<Size>) -> Size {
    match size {
        Some(s) => s,
        None => Size { width: DEFAULT_WIDTH, height: DEFAULT_HEIGHT },
    }
}

/// The requested size, or the default one.
pub fn chosen_size(size: Option<Size>) -> (r: Size)
    ensures
        r == size_or_default(size),
{
    match size {
        Some(s) => s,
        None => Size { width: DEFAULT_WIDTH, height: DEFAULT_HEIGHT },
    }
}

pub open spec fn widen_seq(v: Seq<i64>) -> Seq<i128> {
    Seq::new(v.len(), |k: int| v[k] as i128)
}

pub open spec fn widen_counts(v: Seq<u64>) -> Seq<i128> {
    Seq::new(v.len(), |k: int| v[k] as i128)
}

/// The values of `v` as chart coordinates.
pub fn widen(v: &Vec<i64>) -> (r: Vec<i128>)
    ensures
        r@ == widen_seq(v@),
{
    let mut r: Vec<i128> = Vec::new();
    let mut k: usize = 0;
    while k < v.len()
        invariant
            k <= v@.len(),
            r@ == widen_seq(v@).subrange(0, k as int),
        decreases v@.len() - k,
    {
        r.push(v[k] as i128);
        k = k + 1;
        assert(r@ =~= widen_seq(v@).subrange(0, k as int));
    }
    assert(r@ =~= widen_seq(v@));
    r
}

/// The counts of `v` as chart coordinates.
pub fn widen_u64(v: &Vec<u64>) -> (r: Vec<i128>)
    ensures
        r@ == widen_counts(v@),
{
    let mut r: Vec<i128> = Vec::new();
    let mut k: usize = 0;
    while k < v.len()
        invariant
            k <= v@.len(),
            r@ == widen_counts(v@).subrange(0, k as int),
        decreases v@.len() - k,
    {
        r.push(v[k] as i128);
        k = k + 1;
        assert(r@ =~= widen_counts(v@).subrange(0, k as int));
    }
    assert(r@ =~= widen_counts(v@));
    r
}

/// `n` copies of `c`.
pub fn constant(c: i128, n: usize) -> (r: Vec<i128>)
    ensures
        r@ == Seq::new(n as nat, |k: int| c),
{
    let mut r: Vec<i128> = Vec::new();
    let mut k: usize = 0;
    while k < n
        invariant
            k <= n,
            r@ == Seq::new(k as nat, |j: int| c),
        decreases n - k,
    {
        r.push(c);
        k = k + 1;
        assert(r@ =~= Seq::new(k as nat, |j: int| c));
    }
    r
}

/// A series with no legend entry, opaque, on the left axis, whose
/// `lows` and `highs` are empty.
pub fn plain(mark: Mark, color: Color, xs: Vec<i128>, ys: Vec<i128>) -> (r: Series)
    ensures
        r.mark == mark,
        r.color == color,
        r.legend is None,
        r.opacity_percent == 100,
        !r.right_axis,
        r.xs@ == xs@,
        r.ys@ == ys@,
        r.lows@ == Seq::<i128>::empty(),
        r.highs@ == Seq::<i128>::empty(),
{
    let lows: Vec<i128> = Vec::new();
    let highs: Vec<i128> = Vec::new();
    assert(lows@ =~= Seq::<i128>::empty() && highs@ =~= Seq::<i128>::empty());
    Series {
        mark,
        color,
        legend: None,
        opacity_percent: 100,
        right_axis: false,
        xs,
        ys,
        lows,
        highs,
    }
}

/// A vertical segment at `x` from `y0` to `y1`.
pub fn vertical(mark: Mark, color: Color, x: i128, y0: i128, y1: i128) -> (r: Series)
    ensures
        r.mark == mark,
        r.color == color,
        r.legend is None,
        r.opacity_percent == 100,
        !r.right_axis,
        r.xs@ == seq![x, x],
        r.ys@ == seq![y0, y1],
        r.lows@ == Seq::<i128>::empty(),
        r.highs@ == Seq::<i128>::empty(),
{
    let r = plain(mark, color, vec![x, x], vec![y0, y1]);
    assert(r.lows@ =~= Seq::<i128>::empty());
    assert(r.xs@ =~= seq![x, x]);
    assert(r.ys@ =~= seq![y0, y1]);
    r
}

/// An axis with a label and nothing else set.
pub fn axis(label: String) -> (r: Axis)
    ensures
        r.label@ == label@,
        r.limits is None,
        r.scale_exponent == 0,
        !r.grid,
        r.tics@.len() == 0,
{
    Axis { label, limits: None, scale_exponent: 0, grid: false, tics: Vec::new() }
}

/// `o` is the legend `l`: the same text, or both absent.
pub open spec fn legend_is(o: Option<String>, l: Option<Seq<char>>) -> bool {
    match o {
        Some(x) => l == Some(x@),
        None => l is None,
    }
}

/// Every field of series `s`.
pub open spec fn series_is(
    s: Series,
    mark: Mark,
    color: Color,
    legend: Option<Seq<char>>,
    opacity_percent: u32,
    right_axis: bool,
    xs: Seq<i128>,
    ys: Seq<i128>,
    lows: Seq<i128>,
    highs: Seq<i128>,
) -> bool {
    &&& s.mark == mark
    &&& s.color == color
    &&& legend_is(s.legend, legend)
    &&& s.opacity_percent == opacity_percent
    &&& s.right_axis == right_axis
    &&& s.xs@ == xs
    &&& s.ys@ == ys
    &&& s.lows@ == lows
    &&& s.highs@ == highs
}

/// Every field of an axis without tic labels.
pub open spec fn axis_is(
    a: Axis,
    label: Seq<char>,
    limits: Option<(i128, i128)>,
    scale_exponent: int,
    grid: bool,
) -> bool {
    &&& a.label@ == label
    &&& a.limits == limits
    &&& a.scale_exponent as int == scale_exponent
    &&& a.grid == grid
    &&& a.tics@.len() == 0
}

pub open spec fn same_text(a: Option<String>, b: Option<String>) -> bool {
    match (a, b) {
        (Some(x), Some(y)) => x@ == y@,
        (None, None) => true,
        _ => false,
    }
}

pub open spec fn same_series(a: Series, b: Series) -> bool {
    &&& a.mark == b.mark
    &&& a.color == b.color
    &&& same_text(a.legend, b.legend)
    &&& a.opacity_percent == b.opacity_percent
    &&& a.right_axis == b.right_axis
    &&& a.xs@ == b.xs@
    &&& a.ys@ == b.ys@
    &&& a.lows@ == b.lows@
    &&& a.highs@ == b.highs@
}

pub open spec fn same_axis(a: Axis, b: Axis) -> bool {
    &&& a.label@ == b.label@
    &&& a.limits == b.limits
    &&& a.scale_exponent == b.scale_exponent
    &&& a.grid == b.grid
    &&& a.tics@.len() == b.tics@.len()
    &&& forall|k: int|
        0 <= k < a.tics@.len() ==> (#[trigger] a.tics@[k]).0 == b.tics@[k].0 && a.tics@[k].1@
            == b.tics@[k].1@
}

/// Two chart descriptions that agree on every field, text compared by
/// its characters.
pub open spec fn same_chart(a: ChartSpec, b: ChartSpec) -> bool {
    &&& same_text(a.title, b.title)
    &&& a.size == b.size
    &&& same_axis(a.x_axis, b.x_axis)
    &&& same_axis(a.y_axis, b.y_axis)
    &&& match (a.right_axis, b.right_axis) {
        (Some(x), Some(y)) => same_axis(x, y),
        (None, None) => true,
        _ => false,
    }
    &&& a.key == b.key
    &&& a.series@.len() == b.series@.len()
    &&& forall|k: int| 0 <= k < a.series@.len() ==> same_series(#[trigger] a.series@[k], b.series@[k])
    &&& a.output@ == b.output@
}

} // verus!

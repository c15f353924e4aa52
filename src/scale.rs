use vstd::prelude::*;
use crate::text::{decimal, decimal_string};

verus! {

/// Unit prefix of a time axis.
#[derive(Clone, Copy, Debug, PartialEq, Eq, Structural)]
pub enum TimePrefix {
    Pico,
    Nano,
    Micro,
    Milli,
    Unit,
}

impl TimePrefix {
    /// The prefix as it is written before `s`.
    pub fn symbol(&self) -> (r: &'static str)
        ensures
            r@ == prefix_symbol(*self),
    {
        proof {
            reveal_strlit("p");
            reveal_strlit("n");
            reveal_strlit("u");
            reveal_strlit("m");
            reveal_strlit("");
        }
        match self {
            TimePrefix::Pico => "p",
            TimePrefix::Nano => "n",
            TimePrefix::Micro => "u",
            TimePrefix::Milli => "m",
            TimePrefix::Unit => "",
        }
    }
}

pub open spec fn prefix_symbol(p: TimePrefix) -> Seq<char> {
    match p {
        TimePrefix::Pico => seq!['p'],
        TimePrefix::Nano => seq!['n'],
        TimePrefix::Micro => seq!['u'],
        TimePrefix::Milli => seq!['m'],
        TimePrefix::Unit => Seq::empty(),
    }
}

/// A time axis scale: values in nanoseconds are multiplied by
/// `10^exponent` to be read in the unit that `prefix` names.
#[derive(Clone, Copy, Debug, PartialEq, Eq, Structural)]
pub struct TimeScale {
    pub exponent: i32,
    pub prefix: TimePrefix,
}

/// Picoseconds in one nanosecond, microsecond, millisecond and second.
pub const PS_PER_NS: u64 = 1000;
pub const PS_PER_US: u64 = 1000000;
pub const PS_PER_MS: u64 = 1000000000;
pub const PS_PER_S: u64 = 1000000000000;

/// The scale for a largest value of `ps` picoseconds; each prefix covers a
/// half-open range of magnitudes.
pub open spec fn time_scale_of(ps: int) -> TimeScale {
    if ps < PS_PER_NS {
        TimeScale { exponent: 3, prefix: TimePrefix::Pico }
    } else if ps < PS_PER_US {
        TimeScale { exponent: 0, prefix: TimePrefix::Nano }
    } else if ps < PS_PER_MS {
        TimeScale { exponent: -3i32, prefix: TimePrefix::Micro }
    } else if ps < PS_PER_S {
        TimeScale { exponent: -6i32, prefix: TimePrefix::Milli }
    } else {
        TimeScale { exponent: -9i32, prefix: TimePrefix::Unit }
    }
}

/// Picks the unit in which a time axis whose largest value is `max_ps`
/// picoseconds is labelled.
pub fn scale_time(max_ps: i128) -> (r: TimeScale)
    ensures
        r == time_scale_of(max_ps as int),
{
    if max_ps < PS_PER_NS as i128 {
        TimeScale { exponent: 3, prefix: TimePrefix::Pico }
    } else if max_ps < PS_PER_US as i128 {
        TimeScale { exponent: 0, prefix: TimePrefix::Nano }
    } else if max_ps < PS_PER_MS as i128 {
        TimeScale { exponent: -3i32, prefix: TimePrefix::Micro }
    } else if max_ps < PS_PER_S as i128 {
        TimeScale { exponent: -6i32, prefix: TimePrefix::Milli }
    } else {
        TimeScale { exponent: -9i32, prefix: TimePrefix::Unit }
    }
}

/// Below one nanosecond the axis reads in picoseconds; one nanosecond
/// itself already reads in nanoseconds, and a thousand in microseconds.
pub proof fn lemma_time_scale_half_open(ps: int)
    requires
        0 < ps < PS_PER_NS,
    ensures
        time_scale_of(ps) == (TimeScale { exponent: 3, prefix: TimePrefix::Pico }),
        time_scale_of(PS_PER_NS as int) == (TimeScale { exponent: 0, prefix: TimePrefix::Nano }),
        time_scale_of(PS_PER_US as int) == (TimeScale { exponent: -3i32, prefix: TimePrefix::Micro }),
{
}

pub open spec fn pow10(e: nat) -> nat
    decreases e,
{
    if e == 0 {
        1
    } else {
        10 * pow10((e - 1) as nat)
    }
}

/// The scale of an iteration count axis: counts are divided by
/// `10^exponent`, a multiple of three.
#[derive(Clone, Copy, Debug, PartialEq, Eq, Structural)]
pub struct CountScale {
    pub exponent: u32,
}

/// `e` is the count scale exponent of `m`: the largest multiple of three
/// whose power of ten does not exceed `m`.
pub open spec fn is_count_exponent(m: int, e: nat) -> bool {
    &&& e % 3 == 0
    &&& pow10(e) <= m
    &&& m < pow10(e + 3)
}

proof fn lemma_pow10_step(e: nat)
    ensures
        pow10(e + 3) == 1000 * pow10(e),
        pow10(e) >= 1,
    decreases e,
{
    reveal_with_fuel(pow10, 4);
    if e > 0 {
        lemma_pow10_step((e - 1) as nat);
    }
}

/// The count scale exponent of `m`: three for each factor of a thousand.
pub open spec fn count_exponent(m: nat) -> nat
    decreases m,
{
    if m < 1000 {
        0
    } else {
        3 + count_exponent(m / 1000)
    }
}

/// Picks the scale of an iteration count axis whose largest count is
/// `max_iters`.
pub fn scale_count(max_iters: u64) -> (r: CountScale)
    requires
        max_iters >= 1,
    ensures
        is_count_exponent(max_iters as int, r.exponent as nat),
        r.exponent as nat == count_exponent(max_iters as nat),
        r.exponent <= 18,
{
    let mut rest: u64 = max_iters;
    let mut e: u32 = 0;
    proof {
        assert(pow10(0) == 1);
        assert(1 * max_iters == max_iters);
    }
    while rest >= 1000
        invariant
            rest >= 1,
            e % 3 == 0,
            e <= 18,
            pow10(e as nat) * rest <= max_iters,
            max_iters < pow10(e as nat) * (rest + 1),
            count_exponent(max_iters as nat) == e + count_exponent(rest as nat),
        decreases rest,
    {
        proof {
            lemma_pow10_step(e as nat);
            let q = rest / 1000;
            let p = pow10(e as nat);
            assert(rest == 1000 * q + rest % 1000);
            assert(p * rest == p * (1000 * q) + p * (rest % 1000)) by (nonlinear_arith)
                requires rest == 1000 * q + rest % 1000;
            assert(p * (1000 * q) == (1000 * p) * q) by (nonlinear_arith);
            assert(p * (rest + 1) <= (1000 * p) * (q + 1)) by (nonlinear_arith)
                requires rest == 1000 * q + rest % 1000, rest % 1000 < 1000, p >= 1;
            assert(p * (rest % 1000) >= 0) by (nonlinear_arith)
                requires p >= 1;
            assert(p * 1000 <= max_iters) by (nonlinear_arith)
                requires p * rest <= max_iters, rest >= 1000, p >= 1;
            if e >= 18 {
                lemma_pow10_monotone(21, (e + 3) as nat);
                lemma_pow10_21();
            }
        }
        rest = rest / 1000;
        e = e + 3;
    }
    proof {
        lemma_pow10_step(e as nat);
        let p = pow10(e as nat);
        assert(p * rest >= p) by (nonlinear_arith)
            requires rest >= 1, p >= 1;
        assert(p * (rest + 1) <= 1000 * p) by (nonlinear_arith)
            requires rest < 1000, p >= 1;
    }
    CountScale { exponent: e }
}

/// Label of an iteration count axis scaled by `10^e`.
pub open spec fn count_label(e: nat) -> Seq<char> {
    if e == 0 {
        "Iterations"@
    } else {
        "Iterations (x 10^"@ + decimal(e) + ")"@
    }
}

impl CountScale {
    /// The axis label: `Iterations`, with the power of ten when there is one.
    pub fn label(&self) -> (r: String)
        ensures
            r@ == count_label(self.exponent as nat),
    {
        if self.exponent == 0 {
            String::from_str("Iterations")
        } else {
            let mut s = String::from_str("Iterations (x 10^");
            let d = decimal_string(self.exponent as u128);
            s.append(d.as_str());
            s.append(")");
            s
        }
    }
}

pub proof fn lemma_pow10_monotone(a: nat, b: nat)
    requires
        a <= b,
    ensures
        pow10(a) <= pow10(b),
    decreases b,
{
    if a < b {
        lemma_pow10_monotone(a, (b - 1) as nat);
    }
}

proof fn lemma_pow10_21()
    ensures
        pow10(21) == 1000000000000000000000,
{
    reveal_with_fuel(pow10, 22);
}

} // verus!

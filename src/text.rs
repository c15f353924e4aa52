use vstd::prelude::*;

verus! {

pub open spec fn digit_char(d: nat) -> char {
    seq!['0', '1', '2', '3', '4', '5', '6', '7', '8', '9'][d as int]
}

/// Decimal digits of `n`, most significant first, without leading zeros.
pub open spec fn decimal(n: nat) -> Seq<char>
    decreases n,
{
    if n < 10 {
        seq![digit_char(n)]
    } else {
        decimal(n / 10).push(digit_char(n % 10))
    }
}

/// `h` hundredths written with two decimals, as `12.05`.
pub open spec fn fixed2(h: nat) -> Seq<char> {
    decimal(h / 100) + seq!['.', digit_char((h / 10) % 10), digit_char(h % 10)]
}

fn digit_str(d: u128) -> (r: &'static str)
    requires
        d < 10,
    ensures
        r@ == seq![digit_char(d as nat)],
{
    proof {
        reveal_strlit("0");
        reveal_strlit("1");
        reveal_strlit("2");
        reveal_strlit("3");
        reveal_strlit("4");
        reveal_strlit("5");
        reveal_strlit("6");
        reveal_strlit("7");
        reveal_strlit("8");
        reveal_strlit("9");
    }
    let r = if d == 0 {
        "0"
    } else if d == 1 {
        "1"
    } else if d == 2 {
        "2"
    } else if d == 3 {
        "3"
    } else if d == 4 {
        "4"
    } else if d == 5 {
        "5"
    } else if d == 6 {
        "6"
    } else if d == 7 {
        "7"
    } else if d == 8 {
        "8"
    } else {
        "9"
    };
    assert(r@ =~= seq![digit_char(d as nat)]);
    r
}

/// Writes `n` in decimal.
pub fn decimal_string(n: u128) -> (r: String)
    ensures
        r@ == decimal(n as nat),
    decreases n,
{
    if n < 10 {
        String::from_str(digit_str(n))
    } else {
        let mut s = decimal_string(n / 10);
        s.append(digit_str(n % 10));
        assert(s@ =~= decimal(n as nat));
        s
    }
}

/// Writes `h` hundredths with two decimals.
pub fn fixed2_string(h: u128) -> (r: String)
    ensures
        r@ == fixed2(h as nat),
{
    let mut s = decimal_string(h / 100);
    proof {
        reveal_strlit(".");
    }
    s.append(".");
    s.append(digit_str((h / 10) % 10));
    s.append(digit_str(h % 10));
    assert(s@ =~= fixed2(h as nat));
    s
}

/// `s` with each underscore preceded by a backslash, so that a renderer
/// does not read it as a subscript.
pub open spec fn escape_underscores_of(s: Seq<char>) -> Seq<char>
    decreases s.len(),
{
    if s.len() == 0 {
        Seq::empty()
    } else if s.last() == '_' {
        escape_underscores_of(s.drop_last()) + seq!['\\', '_']
    } else {
        escape_underscores_of(s.drop_last()).push(s.last())
    }
}

/// Escapes the underscores of an identifier for use in a chart title.
pub fn escape_underscores(s: &str) -> (r: String)
    ensures
        r@ == escape_underscores_of(s@),
{
    let n = s.unicode_len();
    let mut r = String::new();
    let mut i: usize = 0;
    proof {
        reveal_strlit("\\_");
        assert(s@.subrange(0, 0) =~= Seq::<char>::empty());
    }
    while i < n
        invariant
            n == s@.len(),
            i <= n,
            r@ == escape_underscores_of(s@.subrange(0, i as int)),
        decreases n - i,
    {
        let c = s.get_char(i);
        let ghost pre = s@.subrange(0, i + 1);
        assert(pre.drop_last() =~= s@.subrange(0, i as int));
        assert(pre.last() == c);
        if c == '_' {
            proof {
                reveal_strlit("\\_");
            }
            r.append("\\_");
            assert("\\_"@ =~= seq!['\\', '_']);
        } else {
            let one = s.substring_char(i, i + 1);
            r.append(one);
            assert(one@ =~= seq![c]);
        }
        assert(r@ =~= escape_underscores_of(pre));
        i = i + 1;
    }
    assert(s@.subrange(0, n as int) =~= s@);
    r
}

pub open spec fn is_digit(c: char) -> bool {
    '0' <= c && c <= '9'
}

pub open spec fn digit_value(c: char) -> nat {
    (c as u32 - '0' as u32) as nat
}

/// The value of a string of decimal digits.
pub open spec fn digits_value(s: Seq<char>) -> nat
    decreases s.len(),
{
    if s.len() == 0 {
        0
    } else {
        digits_value(s.drop_last()) * 10 + digit_value(s.last())
    }
}

/// What a label reads as a count: a non-empty string of decimal digits
/// whose value fits in 64 bits.
pub open spec fn numeral(s: Seq<char>) -> Option<nat> {
    if s.len() > 0 && (forall|i: int| 0 <= i < s.len() ==> is_digit(#[trigger] s[i]))
        && digits_value(s) <= u64::MAX {
        Some(digits_value(s))
    } else {
        None
    }
}

proof fn lemma_digits_value_grows(s: Seq<char>, j: int, k: int)
    requires
        0 <= j <= k <= s.len(),
        forall|i: int| 0 <= i < s.len() ==> is_digit(#[trigger] s[i]),
    ensures
        digits_value(s.subrange(0, j)) <= digits_value(s.subrange(0, k)),
    decreases k - j,
{
    if j < k {
        lemma_digits_value_grows(s, j, k - 1);
        assert(s.subrange(0, k).drop_last() =~= s.subrange(0, k - 1));
    }
}

/// Reads a label as a count, as `numeral` says.
pub fn parse_numeral(s: &str) -> (r: Option<u64>)
    ensures
        match r {
            Some(v) => numeral(s@) == Some(v as nat),
            None => numeral(s@) is None,
        },
{
    let n = s.unicode_len();
    if n == 0 {
        return None;
    }
    let mut i: usize = 0;
    while i < n
        invariant
            n == s@.len(),
            i <= n,
            forall|k: int| 0 <= k < i ==> is_digit(#[trigger] s@[k]),
        decreases n - i,
    {
        let c = s.get_char(i);
        if !('0' <= c && c <= '9') {
            return None;
        }
        i = i + 1;
    }
    let mut acc: u64 = 0;
    let mut i: usize = 0;
    assert(s@.subrange(0, 0) =~= Seq::<char>::empty());
    while i < n
        invariant
            n == s@.len(),
            i <= n,
            forall|k: int| 0 <= k < n ==> is_digit(#[trigger] s@[k]),
            acc == digits_value(s@.subrange(0, i as int)),
        decreases n - i,
    {
        let c = s.get_char(i);
        let d = (c as u32 - '0' as u32) as u64;
        assert(s@.subrange(0, i + 1).drop_last() =~= s@.subrange(0, i as int));
        if acc > (u64::MAX - d) / 10 {
            proof {
                lemma_digits_value_grows(s@, i + 1, n as int);
                assert(s@.subrange(0, n as int) =~= s@);
            }
            return None;
        }
        acc = acc * 10 + d;
        i = i + 1;
    }
    assert(s@.subrange(0, n as int) =~= s@);
    Some(acc)
}

/// Fraction digits a decimal label may have.
pub const MAX_FRACTION_DIGITS: u32 = 18;

/// A non-negative decimal number held exactly: `mantissa / 10^scale`.
#[derive(Clone, Copy, Debug, PartialEq, Eq, Structural)]
pub struct Decimal {
    pub mantissa: u64,
    pub scale: u32,
}

/// Index of the first character from `i` on that is no digit; the length
/// when there is none.
pub open spec fn first_non_digit(s: Seq<char>, i: int) -> int
    decreases s.len() - i,
{
    if i < 0 || i >= s.len() {
        s.len() as int
    } else if !is_digit(s[i]) {
        i
    } else {
        first_non_digit(s, i + 1)
    }
}

proof fn lemma_first_non_digit(s: Seq<char>, i: int)
    requires
        0 <= i <= s.len(),
    ensures
        i <= first_non_digit(s, i) <= s.len(),
        first_non_digit(s, i) < s.len() ==> !is_digit(s[first_non_digit(s, i)]),
        forall|k: int| i <= k < first_non_digit(s, i) ==> is_digit(s[k]),
    decreases s.len() - i,
{
    if i < s.len() && is_digit(s[i]) {
        lemma_first_non_digit(s, i + 1);
    }
}

/// What a label reads as a number: digits, optionally a point and at most
/// `MAX_FRACTION_DIGITS` more digits, whose digits together form a count
/// that fits in 64 bits. The result is the mantissa and the number of
/// fraction digits.
pub open spec fn decimal_label(s: Seq<char>) -> Option<(nat, nat)> {
    let k = first_non_digit(s, 0);
    if k == s.len() {
        match numeral(s) {
            Some(m) => Some((m, 0nat)),
            None => None,
        }
    } else if 0 < k && k + 1 < s.len() && s[k] == '.' && s.len() - k - 1 <= MAX_FRACTION_DIGITS {
        match numeral(s.subrange(0, k) + s.subrange(k + 1, s.len() as int)) {
            Some(m) => Some((m, (s.len() - k - 1) as nat)),
            None => None,
        }
    } else {
        None
    }
}

fn digit_at(s: &str, k: usize) -> (r: bool)
    requires
        k < s@.len(),
    ensures
        r == is_digit(s@[k as int]),
{
    let c = s.get_char(k);
    '0' <= c && c <= '9'
}

/// Reads a label as a non-negative decimal number, as `decimal_label` says.
pub fn parse_decimal(s: &str) -> (r: Option<Decimal>)
    ensures
        match r {
            Some(d) => decimal_label(s@) == Some((d.mantissa as nat, d.scale as nat)),
            None => decimal_label(s@) is None,
        },
{
    let n = s.unicode_len();
    let mut k: usize = 0;
    proof {
        lemma_first_non_digit(s@, 0);
    }
    while k < n && digit_at(s, k)
        invariant
            n == s@.len(),
            k <= n,
            first_non_digit(s@, k as int) == first_non_digit(s@, 0),
        decreases n - k,
    {
        k = k + 1;
    }
    if k == n {
        return match parse_numeral(s) {
            Some(m) => Some(Decimal { mantissa: m, scale: 0 }),
            None => None,
        };
    }
    let c = s.get_char(k);
    assert(!is_digit(c));
    assert(first_non_digit(s@, k as int) == k);
    if k == 0 || k + 1 >= n || c != '.' || n - k - 1 > MAX_FRACTION_DIGITS as usize {
        return None;
    }
    let mut joined = String::from_str(s.substring_char(0, k));
    joined.append(s.substring_char(k + 1, n));
    assert(joined@ =~= s@.subrange(0, k as int) + s@.subrange(k + 1, n as int));
    match parse_numeral(joined.as_str()) {
        Some(m) => Some(Decimal { mantissa: m, scale: (n - k - 1) as u32 }),
        None => None,
    }
}

} // verus!

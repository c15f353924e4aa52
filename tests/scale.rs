use benchplot::scale::{scale_count, scale_time, TimePrefix, TimeScale};
use benchplot::text::{decimal_string, escape_underscores, fixed2_string, parse_decimal, parse_numeral, Decimal};

#[test]
fn sub_nanosecond_reads_in_picoseconds() {
    for ps in [1i128, 500, 999] {
        let s = scale_time(ps);
        assert_eq!(s, TimeScale { exponent: 3, prefix: TimePrefix::Pico });
        assert_eq!(s.prefix.symbol(), "p");
    }
}

#[test]
fn time_scale_ranges_are_half_open() {
    assert_eq!(scale_time(1_000).prefix, TimePrefix::Nano);
    assert_eq!(scale_time(1_000).exponent, 0);
    assert_eq!(scale_time(999_999).prefix, TimePrefix::Nano);
    assert_eq!(scale_time(1_000_000).prefix, TimePrefix::Micro);
    assert_eq!(scale_time(1_000_000).exponent, -3);
    assert_eq!(scale_time(999_999_999).prefix, TimePrefix::Micro);
    assert_eq!(scale_time(1_000_000_000).prefix, TimePrefix::Milli);
    assert_eq!(scale_time(1_000_000_000).exponent, -6);
    assert_eq!(scale_time(1_000_000_000_000).prefix, TimePrefix::Unit);
    assert_eq!(scale_time(1_000_000_000_000).exponent, -9);
    assert_eq!(scale_time(1_000_000_000_000).prefix.symbol(), "");
}

#[test]
fn count_scale_exponents_and_labels() {
    assert_eq!(scale_count(1).exponent, 0);
    assert_eq!(scale_count(999).exponent, 0);
    assert_eq!(scale_count(999).label(), "Iterations");
    assert_eq!(scale_count(1_000).exponent, 3);
    assert_eq!(scale_count(1_000).label(), "Iterations (x 10^3)");
    assert_eq!(scale_count(5_400_000).exponent, 6);
    assert_eq!(scale_count(5_400_000).label(), "Iterations (x 10^6)");
    assert_eq!(scale_count(u64::MAX).exponent, 18);
    assert_eq!(scale_count(u64::MAX).label(), "Iterations (x 10^18)");
}

#[test]
fn decimal_and_fixed_strings() {
    assert_eq!(decimal_string(0), "0");
    assert_eq!(decimal_string(7), "7");
    assert_eq!(decimal_string(1205), "1205");
    assert_eq!(fixed2_string(200), "2.00");
    assert_eq!(fixed2_string(5), "0.05");
    assert_eq!(fixed2_string(12345), "123.45");
}

#[test]
fn underscores_are_escaped() {
    assert_eq!(escape_underscores("fib_20"), "fib\\_20");
    assert_eq!(escape_underscores("a__b"), "a\\_\\_b");
    assert_eq!(escape_underscores("plain"), "plain");
    assert_eq!(escape_underscores(""), "");
}

#[test]
fn numerals_parse_only_digits_that_fit() {
    assert_eq!(parse_numeral("8"), Some(8));
    assert_eq!(parse_numeral("0042"), Some(42));
    assert_eq!(parse_numeral("18446744073709551615"), Some(u64::MAX));
    assert_eq!(parse_numeral("18446744073709551616"), None);
    assert_eq!(parse_numeral(""), None);
    assert_eq!(parse_numeral("a"), None);
    assert_eq!(parse_numeral("1a"), None);
    assert_eq!(parse_numeral("-1"), None);
}

#[test]
fn decimals_parse_exactly() {
    assert_eq!(parse_decimal("1.5"), Some(Decimal { mantissa: 15, scale: 1 }));
    assert_eq!(parse_decimal("42"), Some(Decimal { mantissa: 42, scale: 0 }));
    assert_eq!(parse_decimal("0.250"), Some(Decimal { mantissa: 250, scale: 3 }));
    assert_eq!(parse_decimal("1."), None);
    assert_eq!(parse_decimal(".5"), None);
    assert_eq!(parse_decimal("1.2.3"), None);
    assert_eq!(parse_decimal("-1.5"), None);
    assert_eq!(parse_decimal("1.5x"), None);
    assert_eq!(parse_decimal("0.1234567890123456789"), None);
    assert_eq!(parse_decimal(""), None);
}

use tastyworks::common::ExpirationDate;
use tastyworks::decimal::{Decimal, DecimalErrorKind};

#[test]
fn parse_with_separators_round_trips() {
    let d = Decimal::parse("12,345.4321").unwrap();
    assert_eq!(d.units(), 123_454_321);
    assert_eq!(d.to_string(), "12345.4321");
    assert_eq!(Decimal::parse(&d.to_string()).unwrap(), d);
}

#[test]
fn parse_small_values() {
    assert_eq!(Decimal::parse("0.3").unwrap().units(), 3_000);
    let d = Decimal::parse("-9.12").unwrap();
    assert_eq!(d.units(), -91_200);
    assert_eq!(d.to_string(), "-9.12");
}

#[test]
fn format_is_canonical() {
    assert_eq!(Decimal::parse("1.5000").unwrap().to_string(), "1.5");
    assert_eq!(Decimal::parse("007").unwrap().to_string(), "7");
    assert_eq!(Decimal::parse("5.").unwrap().to_string(), "5");
    assert_eq!(Decimal::parse("+2.25").unwrap().to_string(), "2.25");
    assert_eq!(Decimal::parse("-0.0001").unwrap().to_string(), "-0.0001");
    assert_eq!(Decimal::parse("-0").unwrap().to_string(), "0");
    assert_eq!(Decimal::parse("-0.5").unwrap().units(), -5_000);
}

#[test]
fn parse_errors_name_the_part() {
    let e = Decimal::parse("1.23456").unwrap_err();
    assert_eq!(e.kind, DecimalErrorKind::Fraction);
    assert_eq!(e.text, "23456");
    let e = Decimal::parse("abc").unwrap_err();
    assert_eq!(e.kind, DecimalErrorKind::Integer);
    assert_eq!(e.text, "abc");
    let e = Decimal::parse(".5").unwrap_err();
    assert_eq!(e.kind, DecimalErrorKind::Integer);
    let e = Decimal::parse("1.-5").unwrap_err();
    assert_eq!(e.kind, DecimalErrorKind::Fraction);
    let e = Decimal::parse("1.2.3").unwrap_err();
    assert_eq!(e.kind, DecimalErrorKind::Fraction);
    assert_eq!(e.text, "2.3");
    let e = Decimal::parse("").unwrap_err();
    assert_eq!(e.kind, DecimalErrorKind::Integer);
}

#[test]
fn parse_range_limit() {
    let max = Decimal::parse("922337203685477.5807").unwrap();
    assert_eq!(max.units(), i64::MAX);
    assert_eq!(max.to_string(), "922337203685477.5807");
    let e = Decimal::parse("922337203685477.5808").unwrap_err();
    assert_eq!(e.kind, DecimalErrorKind::Range);
    assert_eq!(e.text, "922337203685477.5808");
    let e = Decimal::parse("99999999999999999999999").unwrap_err();
    assert_eq!(e.kind, DecimalErrorKind::Range);
    let min = Decimal::parse("-922337203685477.5807").unwrap();
    assert_eq!(min.abs(), max);
}

#[test]
fn arithmetic() {
    let a = Decimal::parse("-9.12").unwrap();
    assert_eq!(a.abs().to_string(), "9.12");
    assert_eq!(a.neg().to_string(), "9.12");
    let b = Decimal::parse("0.12").unwrap();
    assert_eq!(a.checked_add(&b).unwrap().to_string(), "-9");
    assert_eq!(Decimal::from_integer(42).unwrap().to_string(), "42");
    assert!(Decimal::from_integer(i64::MAX).is_none());
    assert!(Decimal::zero().to_string() == "0");
    let max = Decimal::parse("922337203685477.5807").unwrap();
    assert!(max.checked_add(&Decimal::parse("0.0001").unwrap()).is_none());
}

#[test]
fn calendar_dates() {
    assert!(ExpirationDate::new(2020, 2, 29).is_some());
    assert!(ExpirationDate::new(2021, 2, 29).is_none());
    assert!(ExpirationDate::new(1900, 2, 29).is_none());
    assert!(ExpirationDate::new(2000, 2, 29).is_some());
    assert!(ExpirationDate::new(2020, 4, 31).is_none());
    assert!(ExpirationDate::new(2020, 13, 1).is_none());
    assert!(ExpirationDate::new(2020, 1, 0).is_none());
}

#[test]
fn calendar_dates_over_chrono_range() {
    assert!(ExpirationDate::new(-4800, 2, 29).is_some());
    assert!(ExpirationDate::new(-5000, 2, 29).is_none());
    assert!(ExpirationDate::new(262142, 12, 31).is_some());
    assert!(ExpirationDate::new(262143, 1, 1).is_none());
    assert!(ExpirationDate::new(i32::MIN, 1, 1).is_none());
}

#[test]
fn most_negative_units_are_refused() {
    let e = Decimal::parse("-922337203685477.5808").unwrap_err();
    assert_eq!(e.kind, DecimalErrorKind::Range);
}

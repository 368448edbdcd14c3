use ai_stock::decimal::Decimal;
use ai_stock::money::{Currency, Money};

fn d(s: &str) -> Decimal {
    Decimal::parse(s).unwrap()
}

#[test]
fn arithmetic_matches_rust_decimal() {
    assert_eq!(d("1.5").checked_add(&d("2.25")).unwrap().to_text(), "3.75");
    assert_eq!(d("1.5").checked_sub(&d("2.25")).unwrap().to_text(), "-0.75");
    assert_eq!(d("1.5").checked_mul(&d("2.2")).unwrap().to_text(), "3.30");
    assert_eq!(d("1").checked_div(&d("8")).unwrap().to_text(), "0.125");
    assert!(d("1").checked_div(&Decimal::zero()).is_none());
}

#[test]
fn overflow_is_reported() {
    let max = d("79228162514264337593543950335");
    assert!(max.checked_add(&Decimal::one()).is_none());
    assert!(max.checked_mul(&Decimal::from_int(2)).is_none());
    assert!(max.neg().checked_sub(&Decimal::one()).is_none());
    assert!(max.checked_add(&Decimal::zero()).is_some());
}

#[test]
fn comparisons_are_by_value() {
    assert!(d("1.0").eq_value(&d("1.00")));
    assert_eq!(d("1.0"), d("1.00"));
    assert!(d("0.99").lt(&d("1")));
    assert!(!d("1").lt(&d("1.000")));
    assert!(d("1").le(&d("1.000")));
    assert!(d("-2").lt(&d("-1.5")));
}

#[test]
fn parsing_reports_the_error_text() {
    assert_eq!(d("12.50").mantissa(), 1250);
    assert_eq!(d("12.50").scale(), 2);
    assert!(Decimal::parse("twelve").is_none());
    let e = Decimal::parse_with_error("twelve").err().unwrap();
    assert!(!e.is_empty());
}

#[test]
fn construction_and_signs() {
    assert_eq!(Decimal::new(-125, 2).to_text(), "-1.25");
    assert_eq!(Decimal::from_parts(5, 1).to_text(), "0.5");
    assert_eq!(Decimal::from_u64(18_446_744_073_709_551_615).to_text(), "18446744073709551615");
    assert!(d("-3").is_negative());
    assert!(d("3").is_positive());
    assert!(d("0.000").is_zero());
    assert_eq!(d("-3.5").abs(), d("3.5"));
}

#[test]
fn subtracts_same_currency() {
    let usd = Currency::new("USD").unwrap();
    let a = Money::new(d("10"), usd);
    let b = Money::new(d("2.5"), usd);
    assert_eq!(a.sub(b).unwrap(), Money::new(d("7.5"), usd));
}

#[test]
fn quotients_are_rounded_at_their_last_place() {
    let two_thirds = Decimal::parse("2").unwrap().checked_div(&Decimal::parse("3").unwrap()).unwrap();
    assert_eq!(two_thirds, Decimal::parse("0.6666666666666666666666666667").unwrap());
    let finest = Decimal::parse("0.0000000000000000000000000001").unwrap();
    let third = finest.checked_div(&Decimal::parse("3").unwrap()).unwrap();
    assert!(!third.is_positive() && !third.is_negative());
    let two_thirds_finest = finest.checked_div(&Decimal::parse("1.5").unwrap()).unwrap();
    assert_eq!(two_thirds_finest, finest);
}

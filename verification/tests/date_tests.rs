use tally::Date;

#[test]
fn valid_dates() {
    assert!(Date { year: 2024, month: 1, day: 1 }.is_valid());
    assert!(Date { year: 2024, month: 12, day: 31 }.is_valid());
    assert!(Date { year: 2024, month: 2, day: 29 }.is_valid());
    assert!(Date { year: 2000, month: 2, day: 29 }.is_valid());
}

#[test]
fn invalid_dates() {
    assert!(!Date { year: 2023, month: 2, day: 29 }.is_valid());
    assert!(!Date { year: 1900, month: 2, day: 29 }.is_valid());
    assert!(!Date { year: 2024, month: 0, day: 1 }.is_valid());
    assert!(!Date { year: 2024, month: 13, day: 1 }.is_valid());
    assert!(!Date { year: 2024, month: 4, day: 31 }.is_valid());
    assert!(!Date { year: 0, month: 1, day: 1 }.is_valid());
    assert!(!Date { year: 10000, month: 1, day: 1 }.is_valid());
}

#[test]
fn date_ordering() {
    let a = Date { year: 2024, month: 1, day: 31 };
    let b = Date { year: 2024, month: 2, day: 1 };
    let c = Date { year: 2025, month: 1, day: 1 };
    assert!(a.lt(&b));
    assert!(b.lt(&c));
    assert!(a.le(&a));
    assert!(!a.lt(&a));
    assert!(!b.le(&a));
}

#[test]
fn date_range_membership() {
    let d = Date { year: 2024, month: 6, day: 15 };
    let lo = Date { year: 2024, month: 1, day: 1 };
    let hi = Date { year: 2024, month: 12, day: 31 };
    assert!(d.in_range(&Some(lo), &Some(hi)));
    assert!(d.in_range(&None, &None));
    assert!(d.in_range(&Some(d), &Some(d)));
    assert!(!d.in_range(&Some(hi), &None));
    assert!(!d.in_range(&None, &Some(lo)));
}

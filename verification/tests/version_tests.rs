use vidfetch::version::{compare, parse_version, Version};

#[test]
fn parse_accepts_prefix_with_trailing_text() {
    let v = parse_version("2024.3.5 extra text").unwrap();
    assert_eq!(v, Version { year: 2024, month: 3, day: 5 });
}

#[test]
fn parse_rejects_non_version() {
    assert!(parse_version("not-a-version").is_none());
}

#[test]
fn parse_tolerates_leading_whitespace() {
    let v = parse_version("  \t2023.12.31").unwrap();
    assert_eq!(v, Version { year: 2023, month: 12, day: 31 });
}

#[test]
fn parse_requires_three_groups() {
    assert!(parse_version("2024.3").is_none());
    assert!(parse_version("2024.3.").is_none());
    assert!(parse_version("2024").is_none());
    assert!(parse_version("").is_none());
}

#[test]
fn parse_requires_four_year_digits() {
    assert!(parse_version("24.3.5").is_none());
    assert!(parse_version("20245.3.5").is_none());
}

#[test]
fn parse_rejects_three_month_digits() {
    assert!(parse_version("2024.123.5").is_none());
}

#[test]
fn parse_takes_first_two_day_digits() {
    let v = parse_version("2024.3.567").unwrap();
    assert_eq!(v, Version { year: 2024, month: 3, day: 56 });
}

#[test]
fn compare_orders_lexicographically() {
    let a = Version { year: 2024, month: 1, day: 1 };
    let b = Version { year: 2024, month: 2, day: 10 };
    let c = Version { year: 2023, month: 12, day: 31 };
    assert_eq!(compare(&a, &b), -1);
    assert_eq!(compare(&b, &a), 1);
    assert_eq!(compare(&c, &a), -1);
    assert_eq!(compare(&a, &a), 0);
    let d = Version { year: 2024, month: 1, day: 2 };
    assert_eq!(compare(&a, &d), -1);
}

#[test]
fn compare_is_antisymmetric_on_samples() {
    let samples = [
        Version { year: 2020, month: 1, day: 1 },
        Version { year: 2020, month: 1, day: 2 },
        Version { year: 2020, month: 2, day: 1 },
        Version { year: 2021, month: 1, day: 1 },
    ];
    for a in samples.iter() {
        for b in samples.iter() {
            assert_eq!(compare(a, b), -compare(b, a));
        }
    }
}

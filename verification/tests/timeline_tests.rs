use declart_core::{date_to_days, normalize_date};

#[test]
fn date_to_days_orders_correctly() {
    assert!(date_to_days("2024-01-01") < date_to_days("2024-06-01"));
    assert!(date_to_days("2024-06-01") < date_to_days("2024-12-31"));
    assert!(date_to_days("2023-12-31") < date_to_days("2024-01-01"));
}

#[test]
fn date_to_days_gives_julian_day_numbers() {
    assert_eq!(date_to_days("2000-01-01"), 2451545);
    assert_eq!(date_to_days("1970-01-01"), 2440588);
}

#[test]
fn date_to_days_counts_consecutive_days() {
    assert_eq!(date_to_days("2024-03-01") - date_to_days("2024-02-28"), 2);
    assert_eq!(date_to_days("2023-03-01") - date_to_days("2023-02-28"), 1);
    assert_eq!(date_to_days("2024-01-01") - date_to_days("2023-12-31"), 1);
}

#[test]
fn date_to_days_is_zero_for_other_lengths() {
    assert_eq!(date_to_days("2024"), 0);
    assert_eq!(date_to_days(""), 0);
}

#[test]
fn normalize_date_completes_partial_dates() {
    assert_eq!(normalize_date("2024").as_deref(), Some("2024-01-01"));
    assert_eq!(normalize_date("2024-06").as_deref(), Some("2024-06-01"));
    assert_eq!(normalize_date("2024-06-15").as_deref(), Some("2024-06-15"));
    assert_eq!(normalize_date("24-06"), None);
    assert_eq!(normalize_date("2024/06/15"), None);
}

#[test]
fn normalize_date_is_stable() {
    for s in ["2024", "2024-06", "2024-06-15"] {
        let d = normalize_date(s).unwrap();
        assert_eq!(normalize_date(&d).as_deref(), Some(d.as_str()));
    }
}

#[test]
fn date_to_days_reads_bytes_of_non_ascii_text() {
    // Ten bytes: the month figures are the two bytes of 'é', each counted from '0'.
    assert_eq!(date_to_days("2024-é-01"), 2508707);
    // Ten characters but more than ten bytes: not a date.
    assert_eq!(date_to_days("2024-0é-01"), 0);
}

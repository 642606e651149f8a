use bomanis_bank::database::parse_u32;
use bomanis_bank::date::{parse_date, Date};

#[test]
fn parse_date_accepts_valid_calendar_days() {
    assert_eq!(parse_date("1990-05-17"), Some(Date { year: 1990, month: 5, day: 17 }));
    assert_eq!(parse_date("0001-01-01"), Some(Date { year: 1, month: 1, day: 1 }));
    assert_eq!(parse_date("9999-12-31"), Some(Date { year: 9999, month: 12, day: 31 }));
}

#[test]
fn parse_date_handles_leap_years() {
    assert_eq!(parse_date("2000-02-29"), Some(Date { year: 2000, month: 2, day: 29 }));
    assert_eq!(parse_date("2024-02-29"), Some(Date { year: 2024, month: 2, day: 29 }));
    assert_eq!(parse_date("1900-02-29"), None);
    assert_eq!(parse_date("2023-02-29"), None);
    assert_eq!(parse_date("2023-02-28"), Some(Date { year: 2023, month: 2, day: 28 }));
}

#[test]
fn parse_date_rejects_out_of_range_fields() {
    assert_eq!(parse_date("1990-00-10"), None);
    assert_eq!(parse_date("1990-13-10"), None);
    assert_eq!(parse_date("1990-04-31"), None);
    assert_eq!(parse_date("1990-06-00"), None);
    assert_eq!(parse_date("1990-01-32"), None);
}

#[test]
fn parse_date_demands_the_strict_shape() {
    assert_eq!(parse_date("1990-5-17"), None);
    assert_eq!(parse_date("90-05-17"), None);
    assert_eq!(parse_date("1990/05/17"), None);
    assert_eq!(parse_date("1990-05-17 "), None);
    assert_eq!(parse_date(" 1990-05-17"), None);
    assert_eq!(parse_date(""), None);
    assert_eq!(parse_date("birthday"), None);
}

#[test]
fn parse_u32_reads_plain_numerals() {
    assert_eq!(parse_u32("0"), Some(0));
    assert_eq!(parse_u32("42"), Some(42));
    assert_eq!(parse_u32("007"), Some(7));
    assert_eq!(parse_u32("4294967295"), Some(u32::MAX));
}

#[test]
fn parse_u32_accepts_a_leading_plus_sign() {
    assert_eq!(parse_u32("+42"), Some(42));
    assert_eq!(parse_u32("+0"), Some(0));
    assert_eq!(parse_u32("+"), None);
}

#[test]
fn parse_u32_rejects_everything_else() {
    assert_eq!(parse_u32(""), None);
    assert_eq!(parse_u32("-1"), None);
    assert_eq!(parse_u32("4294967296"), None);
    assert_eq!(parse_u32("99999999999999999999"), None);
    assert_eq!(parse_u32("12a"), None);
    assert_eq!(parse_u32(" 12"), None);
    assert_eq!(parse_u32("1 2"), None);
}

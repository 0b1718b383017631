use gospels::dates::Date;
use gospels::dates::days_in_month;
use gospels::dates::is_leap_year;
use gospels::dates::month_days;
use gospels::dates::month_range;
use gospels::iso::DateError;
use gospels::iso::format_date;
use gospels::iso::format_year_month;
use gospels::iso::parse_iso_date;
use gospels::iso::parse_month_arg;

#[test]
fn leap_year_rule() {
    assert!(is_leap_year(2024));
    assert!(!is_leap_year(2023));
    assert!(is_leap_year(2000));
    assert!(!is_leap_year(1900));
    assert!(!is_leap_year(2100));
}

#[test]
fn month_range_february_leap() {
    let (first, last) = month_range(2024, 2);
    assert_eq!(first, Date { year: 2024, month: 2, day: 1 });
    assert_eq!(last, Date { year: 2024, month: 2, day: 29 });
}

#[test]
fn month_range_february_nonleap() {
    let (first, last) = month_range(2023, 2);
    assert_eq!(first, Date { year: 2023, month: 2, day: 1 });
    assert_eq!(last, Date { year: 2023, month: 2, day: 28 });
}

#[test]
fn month_range_december_rolls_over_within_year() {
    let (first, last) = month_range(2025, 12);
    assert_eq!(first, Date { year: 2025, month: 12, day: 1 });
    assert_eq!(last, Date { year: 2025, month: 12, day: 31 });
}

#[test]
fn month_lengths_all_months() {
    let lengths_2023 = [31, 28, 31, 30, 31, 30, 31, 31, 30, 31, 30, 31];
    let lengths_2024 = [31, 29, 31, 30, 31, 30, 31, 31, 30, 31, 30, 31];
    for m in 1..=12u32 {
        assert_eq!(days_in_month(2023, m), lengths_2023[(m - 1) as usize]);
        assert_eq!(days_in_month(2024, m), lengths_2024[(m - 1) as usize]);
        assert_eq!(month_range(2023, m).1.day, lengths_2023[(m - 1) as usize]);
        assert_eq!(month_range(2024, m).1.day, lengths_2024[(m - 1) as usize]);
    }
}

#[test]
fn month_days_in_calendar_order() {
    let days = month_days(2024, 2);
    assert_eq!(days.len(), 29);
    assert_eq!(days[0], Date { year: 2024, month: 2, day: 1 });
    assert_eq!(days[28], Date { year: 2024, month: 2, day: 29 });
    for (i, d) in days.iter().enumerate() {
        assert_eq!(*d, Date { year: 2024, month: 2, day: (i + 1) as u32 });
    }
}

#[test]
fn format_date_pads_with_zeros() {
    assert_eq!(format_date(&Date { year: 2024, month: 3, day: 5 }), "2024-03-05");
    assert_eq!(format_date(&Date { year: 33, month: 12, day: 25 }), "0033-12-25");
    assert_eq!(format_year_month(2024, 6), "2024-06");
}

#[test]
fn parse_day_valid() {
    assert_eq!(parse_iso_date("2024-03-05").unwrap(), Date { year: 2024, month: 3, day: 5 });
    assert_eq!(parse_iso_date("2024-02-29").unwrap(), Date { year: 2024, month: 2, day: 29 });
}

#[test]
fn parse_day_rejects_impossible_days() {
    assert!(matches!(parse_iso_date("2023-02-29"), Err(DateError::Parse(ref s)) if s == "2023-02-29"));
    assert!(matches!(parse_iso_date("2024-13-01"), Err(DateError::Parse(_))));
    assert!(matches!(parse_iso_date("2024-00-10"), Err(DateError::Parse(_))));
    assert!(matches!(parse_iso_date("2024-04-31"), Err(DateError::Parse(_))));
}

#[test]
fn parse_day_rejects_loose_shapes() {
    assert!(matches!(parse_iso_date("2024-3-05"), Err(DateError::Parse(_))));
    assert!(matches!(parse_iso_date("2024-03-05 "), Err(DateError::Parse(_))));
    assert!(matches!(parse_iso_date("abcd-ef-gh"), Err(DateError::Parse(_))));
    assert!(matches!(parse_iso_date(""), Err(DateError::Parse(_))));
}

#[test]
fn parse_month_valid() {
    assert_eq!(parse_month_arg("2024-06").unwrap(), Date { year: 2024, month: 6, day: 1 });
    assert_eq!(parse_month_arg("2024-6").unwrap(), Date { year: 2024, month: 6, day: 1 });
}

#[test]
fn parse_month_wrong_part_count() {
    assert!(matches!(parse_month_arg("202406"), Err(DateError::Format(ref s)) if s == "202406"));
    assert!(matches!(parse_month_arg("2024-06-01"), Err(DateError::Format(_))));
}

#[test]
fn parse_month_unreadable_numbers() {
    assert!(matches!(parse_month_arg("20x4-06"), Err(DateError::Parse(ref s)) if s == "20x4"));
    assert!(matches!(parse_month_arg("2024-"), Err(DateError::Parse(ref s)) if s.is_empty()));
}

#[test]
fn parse_month_impossible_month() {
    assert!(matches!(parse_month_arg("2024-13"), Err(DateError::Construction(ref s)) if s == "2024-13"));
    assert!(matches!(parse_month_arg("2024-0"), Err(DateError::Construction(_))));
}

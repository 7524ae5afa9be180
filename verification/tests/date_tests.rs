use adcrawl::date::{date_from_captures, month_from_name, CalendarDate, MAX_YEAR, MIN_YEAR};

fn leap(year: i32) -> bool {
    year.rem_euclid(4) == 0 && (year.rem_euclid(100) != 0 || year.rem_euclid(400) == 0)
}

fn month_days(year: i32, month: u32) -> u32 {
    match month {
        2 => {
            if leap(year) {
                29
            } else {
                28
            }
        }
        4 | 6 | 9 | 11 => 30,
        _ => 31,
    }
}

fn on_calendar(year: i32, month: u32, day: u32) -> bool {
    -262143 <= year
        && year <= 262142
        && 1 <= month
        && month <= 12
        && 1 <= day
        && day <= month_days(year, month)
}

fn written(year: i32, month: u32, day: u32) -> String {
    let y = if (0..=9999).contains(&year) {
        format!("{:04}", year)
    } else if year > 9999 {
        format!("+{}", year)
    } else {
        format!("-{:04}", -(year as i64))
    };
    format!("{}-{:02}-{:02}", y, month, day)
}

#[test]
fn year_bounds_are_those_of_the_calendar() {
    assert_eq!(MIN_YEAR, -262143);
    assert_eq!(MAX_YEAR, 262142);
    assert!(CalendarDate::from_ymd_opt(MIN_YEAR, 1, 1).is_some());
    assert!(CalendarDate::from_ymd_opt(MAX_YEAR, 12, 31).is_some());
    assert!(CalendarDate::from_ymd_opt(MIN_YEAR - 1, 12, 31).is_none());
    assert!(CalendarDate::from_ymd_opt(MAX_YEAR + 1, 1, 1).is_none());
    assert!(CalendarDate::from_ymd_opt(i32::MAX, 1, 1).is_none());
    assert!(CalendarDate::from_ymd_opt(i32::MIN, 1, 1).is_none());
}

#[test]
fn from_ymd_opt_accepts_the_days_of_the_calendar() {
    let years = [
        -262144, -262143, -401, -400, -100, -5, -4, -1, 0, 1, 4, 100, 400, 1900, 1999, 2000,
        2023, 2024, 2100, 9999, 10000, 262142, 262143,
    ];
    for year in years {
        for month in 0..=14u32 {
            for day in 0..=33u32 {
                let date = CalendarDate::from_ymd_opt(year, month, day);
                assert_eq!(date.is_some(), on_calendar(year, month, day), "{}-{}-{}", year, month, day);
                if let Some(d) = date {
                    assert_eq!((d.year(), d.month(), d.day()), (year, month, day));
                }
            }
        }
    }
    assert!(CalendarDate::from_ymd_opt(2023, u32::MAX, 1).is_none());
    assert!(CalendarDate::from_ymd_opt(2023, 1, u32::MAX).is_none());
}

#[test]
fn from_ymd_opt_agrees_with_chrono() {
    for year in [-262144, -262143, -1, 0, 1900, 2000, 2023, 2024, 262142, 262143] {
        for month in 0..=13u32 {
            for day in 0..=32u32 {
                assert_eq!(
                    CalendarDate::from_ymd_opt(year, month, day).is_some(),
                    chrono::NaiveDate::from_ymd_opt(year, month, day).is_some()
                );
            }
        }
    }
}

#[test]
fn to_text_writes_year_month_day() {
    assert_eq!(CalendarDate::from_ymd_opt(2023, 3, 12).unwrap().to_text(), "2023-03-12");
    assert_eq!(CalendarDate::from_ymd_opt(2024, 12, 1).unwrap().to_text(), "2024-12-01");
    assert_eq!(CalendarDate::from_ymd_opt(5, 1, 9).unwrap().to_text(), "0005-01-09");
    assert_eq!(CalendarDate::from_ymd_opt(0, 1, 1).unwrap().to_text(), "0000-01-01");
    assert_eq!(CalendarDate::from_ymd_opt(9999, 12, 31).unwrap().to_text(), "9999-12-31");
}

#[test]
fn to_text_signs_years_out_of_four_digits() {
    assert_eq!(CalendarDate::from_ymd_opt(10000, 1, 1).unwrap().to_text(), "+10000-01-01");
    assert_eq!(CalendarDate::from_ymd_opt(262142, 12, 31).unwrap().to_text(), "+262142-12-31");
    assert_eq!(CalendarDate::from_ymd_opt(-1, 1, 1).unwrap().to_text(), "-0001-01-01");
    assert_eq!(CalendarDate::from_ymd_opt(-12345, 6, 7).unwrap().to_text(), "-12345-06-07");
    assert_eq!(CalendarDate::from_ymd_opt(-262143, 1, 1).unwrap().to_text(), "-262143-01-01");
}

#[test]
fn to_text_follows_the_stated_form_for_many_dates() {
    let years = [
        -262143, -100000, -10000, -9999, -1000, -999, -100, -99, -10, -9, -1, 0, 1, 9, 10, 99,
        100, 999, 1000, 2023, 9999, 10000, 99999, 100000, 262142,
    ];
    for year in years {
        for month in 1..=12u32 {
            for day in [1u32, 9, 10, 28] {
                let date = CalendarDate::from_ymd_opt(year, month, day).unwrap();
                assert_eq!(date.to_text(), written(year, month, day));
            }
        }
    }
}

#[test]
fn month_from_name_knows_the_twelve_names() {
    let names = [
        "января", "февраля", "марта", "апреля", "мая", "июня", "июля", "августа", "сентября",
        "октября", "ноября", "декабря",
    ];
    for (i, name) in names.iter().enumerate() {
        assert_eq!(month_from_name(name), Some(i as u32 + 1));
    }
}

#[test]
fn month_from_name_refuses_other_words() {
    assert_eq!(month_from_name("март"), None);
    assert_eq!(month_from_name("Марта"), None);
    assert_eq!(month_from_name("march"), None);
    assert_eq!(month_from_name(""), None);
    assert_eq!(month_from_name("марта "), None);
}

#[test]
fn date_from_captures_builds_the_date() {
    let date = date_from_captures("12", "марта", "2023").unwrap();
    assert_eq!((date.year(), date.month(), date.day()), (2023, 3, 12));
    let early = date_from_captures("07", "января", "0099").unwrap();
    assert_eq!((early.year(), early.month(), early.day()), (99, 1, 7));
}

#[test]
fn date_from_captures_refuses_bad_parts() {
    assert_eq!(date_from_captures("x", "марта", "2023"), None);
    assert_eq!(date_from_captures("12", "март", "2023"), None);
    assert_eq!(date_from_captures("12", "марта", "y"), None);
    assert_eq!(date_from_captures("32", "марта", "2023"), None);
    assert_eq!(date_from_captures("12", "марта", "262143"), None);
    assert_eq!(date_from_captures("4294967296", "марта", "2023"), None);
    assert_eq!(date_from_captures("١٢", "марта", "2023"), None);
}

#[test]
fn date_from_captures_takes_a_signed_year() {
    let date = date_from_captures("1", "мая", "-4").unwrap();
    assert_eq!((date.year(), date.month(), date.day()), (-4, 5, 1));
    assert!(date_from_captures("29", "февраля", "-4").is_some());
}

#[test]
fn calendar_dates_compare_by_their_fields() {
    let a = CalendarDate::from_ymd_opt(2023, 3, 12).unwrap();
    let b = CalendarDate::from_ymd_opt(2023, 3, 12).unwrap();
    let c = CalendarDate::from_ymd_opt(2023, 3, 13).unwrap();
    assert_eq!(a, b);
    assert_ne!(a, c);
}

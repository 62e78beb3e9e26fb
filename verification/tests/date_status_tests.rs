use playout_core::clock::today_date;
use playout_core::date::{Date, date_from_parts, days_in_month, format_date, next_date, parse_date};
use playout_core::numfmt::{fmt_ms, sec_to_time, time_to_ms, u64_dec};
use playout_core::status::{format_status, parse_status};

#[test]
fn next_date_steps_over_boundaries() {
    let d = next_date(Date { year: 2022, month: 12, day: 31 });
    assert_eq!(d, Date { year: 2023, month: 1, day: 1 });
    let d = next_date(Date { year: 2020, month: 2, day: 28 });
    assert_eq!(d, Date { year: 2020, month: 2, day: 29 });
    let d = next_date(Date { year: 2021, month: 2, day: 28 });
    assert_eq!(d, Date { year: 2021, month: 3, day: 1 });
    let d = next_date(Date { year: 2022, month: 1, day: 31 });
    assert_eq!(d, Date { year: 2022, month: 2, day: 1 });
}

#[test]
fn leap_year_rules() {
    assert_eq!(days_in_month(2000, 2), 29);
    assert_eq!(days_in_month(1900, 2), 28);
    assert_eq!(days_in_month(2024, 2), 29);
    assert_eq!(days_in_month(2023, 2), 28);
    assert_eq!(days_in_month(2023, 4), 30);
}

#[test]
fn date_text_round_trip() {
    let d = Date { year: 2022, month: 3, day: 5 };
    let s = format_date(d);
    assert_eq!(s, "2022-03-05");
    assert_eq!(parse_date(&s), Some(d));
}

#[test]
fn date_text_rejects_bad_shapes() {
    assert_eq!(parse_date("2022-13-01"), None);
    assert_eq!(parse_date("2022-02-30"), None);
    assert_eq!(parse_date("garbage"), None);
    assert_eq!(parse_date("2022/03/05"), None);
    assert_eq!(parse_date("2022-03-5"), None);
}

#[test]
fn clock_fields_become_dates_exactly_when_real() {
    assert_eq!(date_from_parts(2024, 2, 29), Some(Date { year: 2024, month: 2, day: 29 }));
    assert_eq!(date_from_parts(2023, 2, 29), None);
    assert_eq!(date_from_parts(2023, 4, 31), None);
    assert_eq!(date_from_parts(0, 1, 1), None);
    assert_eq!(date_from_parts(-44, 3, 15), None);
    assert_eq!(date_from_parts(10000, 1, 1), None);
    assert_eq!(date_from_parts(9999, 12, 31), Some(Date { year: 9999, month: 12, day: 31 }));
}

#[test]
fn today_is_a_real_day() {
    let d = today_date().expect("the clock names a day");
    assert!(1 <= d.month && d.month <= 12);
    assert!(1 <= d.day && d.day <= days_in_month(d.year, d.month));
}

#[test]
fn status_text_form() {
    let d = Date { year: 2022, month: 1, day: 1 };
    let s = format_status(0, d);
    assert_eq!(s, "{\"time_shift\":0,\"date\":\"2022-01-01\"}");
    let s = format_status(-4250, d);
    assert_eq!(s, "{\"time_shift\":-4250,\"date\":\"2022-01-01\"}");
}

#[test]
fn status_round_trip() {
    let d = Date { year: 2024, month: 2, day: 29 };
    let written = format_status(123_456, d);
    assert_eq!(parse_status(&written), Some((123_456, d)));
    let written = format_status(-86_399_999, d);
    assert_eq!(parse_status(&written), Some((-86_399_999, d)));
    let written = format_status(0, d);
    assert_eq!(parse_status(&written), Some((0, d)));
}

#[test]
fn status_rejects_malformed_records() {
    assert_eq!(parse_status(""), None);
    assert_eq!(parse_status("{\"time_shift\":,\"date\":\"2022-01-01\"}"), None);
    assert_eq!(parse_status("{\"time_shift\":12x,\"date\":\"2022-01-01\"}"), None);
    assert_eq!(parse_status("{\"time_shift\":1,\"date\":\"2022-13-01\"}"), None);
    assert_eq!(parse_status("{\"time_shift\":9999999999,\"date\":\"2022-01-01\"}"), None);
    assert_eq!(parse_status("{\"shift\":1,\"date\":\"2022-01-01\"}"), None);
}

#[test]
fn clock_times_read_back() {
    assert_eq!(time_to_ms("06:00:00"), Some(21_600_000));
    assert_eq!(time_to_ms("23:59:59"), Some(86_399_000));
    assert_eq!(time_to_ms("00:00:00"), Some(0));
    assert_eq!(time_to_ms("06:61:00"), None);
    assert_eq!(time_to_ms("06:00"), None);
    assert_eq!(time_to_ms("6:00:00x"), None);
}

#[test]
fn number_texts() {
    assert_eq!(u64_dec(0), "0");
    assert_eq!(u64_dec(12345), "12345");
    assert_eq!(fmt_ms(12_500), "12.500");
    assert_eq!(fmt_ms(0), "0.000");
    assert_eq!(fmt_ms(86_400_000), "86400.000");
    assert_eq!(sec_to_time(21_600_000), "06:00:00");
    assert_eq!(sec_to_time(86_399_000), "23:59:59");
}

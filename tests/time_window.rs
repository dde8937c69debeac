use task_log::civil::is_leap_year;
use task_log::civil::month_length;
use task_log::civil::shift_hours;
use task_log::civil::Date;
use task_log::civil::DateTime;
use task_log::offset::parse_offset;
use task_log::offset::OffsetError;
use task_log::text::format_datetime;
use task_log::text::is_blank;
use task_log::text::same_text;
use task_log::window::day_window;
use task_log::window::display_in_zone;
use task_log::window::is_valid_date;
use task_log::window::list_date;
use task_log::window::to_local;
use task_log::window::to_utc;
use task_log::window::to_zone;
use task_log::window::window_for;
use task_log::window::TimeError;

fn dt(year: i32, month: u32, day: u32, hour: u32, minute: u32, second: u32) -> DateTime {
    DateTime { year, month, day, hour, minute, second }
}

fn window_text(date: &str, offset: &str) -> (String, String) {
    let (s, e) = day_window(date, offset).unwrap();
    (format_datetime(&s), format_datetime(&e))
}

#[test]
fn window_for_day_at_plus_five() {
    let (s, e) = window_text("2024-03-10", "+05");
    assert_eq!(s, "2024-03-09 19:00:00");
    assert_eq!(e, "2024-03-10 18:59:00");
}

#[test]
fn window_accepts_colon_minutes_offset() {
    let (s, e) = window_text("2024-03-10", "+05:00");
    assert_eq!(s, "2024-03-09 19:00:00");
    assert_eq!(e, "2024-03-10 18:59:00");
}

#[test]
fn window_at_negative_offset_crosses_into_next_day() {
    let (s, e) = window_text("2024-02-29", "-03:00");
    assert_eq!(s, "2024-02-29 03:00:00");
    assert_eq!(e, "2024-03-01 02:59:00");
}

#[test]
fn window_at_year_start() {
    let (s, e) = window_text("2024-01-01", "+05");
    assert_eq!(s, "2023-12-31 19:00:00");
    assert_eq!(e, "2024-01-01 18:59:00");
}

#[test]
fn window_at_zero_offset() {
    let (s, e) = window_text("2023-07-15", "+00:00");
    assert_eq!(s, "2023-07-15 00:00:00");
    assert_eq!(e, "2023-07-15 23:59:00");
}

#[test]
fn window_for_parsed_date() {
    let d = Date { year: 2021, month: 3, day: 1 };
    let (s, e) = window_for(&d, "+02").unwrap();
    assert_eq!(s, dt(2021, 2, 28, 22, 0, 0));
    assert_eq!(e, dt(2021, 3, 1, 21, 59, 0));
}

#[test]
fn window_errors() {
    assert_eq!(day_window("2024-13-01", "+05"), Err(TimeError::MalformedDate));
    assert_eq!(day_window("not-a-date", "+05"), Err(TimeError::MalformedDate));
    assert_eq!(day_window("2024-02-30", "+05"), Err(TimeError::MalformedDate));
    assert_eq!(day_window("2024-03-10", "+05:30"), Err(TimeError::MalformedOffset));
    assert_eq!(day_window("2024-03-10", "UTC"), Err(TimeError::MalformedOffset));
    assert_eq!(day_window("2024-03-10", "+24"), Err(TimeError::OffsetOutOfRange));
}

#[test]
fn stored_timestamp_shown_in_zone() {
    assert_eq!(to_zone("2024-03-09 19:00:00", "+05"), Ok("2024-03-10 00:00:00".to_string()));
    assert_eq!(to_zone("2024-03-01 01:30:00", "-03"), Ok("2024-02-29 22:30:00".to_string()));
    assert_eq!(to_zone("2023-12-31 23:15:07", "+01:00"), Ok("2024-01-01 00:15:07".to_string()));
}

#[test]
fn stored_timestamp_errors() {
    assert_eq!(to_zone("garbage", "+05"), Err(TimeError::MalformedTimestamp));
    assert_eq!(to_zone("2024-03-09", "+05"), Err(TimeError::MalformedTimestamp));
    assert_eq!(to_zone("2024-03-09 19:00:00", "x"), Err(TimeError::MalformedOffset));
    assert_eq!(to_zone("2024-03-09 19:00:00", "-30"), Err(TimeError::OffsetOutOfRange));
}

#[test]
fn display_in_zone_formats_local_time() {
    let t = dt(2024, 12, 31, 20, 5, 9);
    assert_eq!(display_in_zone(&t, "+04"), Ok("2025-01-01 00:05:09".to_string()));
    assert_eq!(display_in_zone(&t, "-20"), Ok("2024-12-31 00:05:09".to_string()));
}

#[test]
fn round_trip_through_utc() {
    let offsets = [-23, -5, -1, 0, 1, 5, 12, 23];
    let moments = [
        dt(2024, 3, 10, 0, 0, 0),
        dt(2024, 3, 10, 23, 59, 0),
        dt(2023, 12, 31, 22, 30, 15),
        dt(2024, 1, 1, 0, 0, 0),
        dt(2024, 2, 29, 12, 0, 0),
        dt(1900, 3, 1, 1, 2, 3),
    ];
    for m in moments.iter() {
        for z in offsets.iter() {
            let u = to_utc(m, *z);
            assert_eq!(to_local(&u, *z), *m);
        }
    }
}

#[test]
fn shift_hours_carries_over_days() {
    assert_eq!(shift_hours(&dt(2024, 2, 28, 23, 0, 0), 1), dt(2024, 2, 29, 0, 0, 0));
    assert_eq!(shift_hours(&dt(2023, 2, 28, 23, 0, 0), 1), dt(2023, 3, 1, 0, 0, 0));
    assert_eq!(shift_hours(&dt(2024, 1, 1, 2, 0, 0), -5), dt(2023, 12, 31, 21, 0, 0));
    assert_eq!(shift_hours(&dt(2024, 5, 1, 10, 0, 0), 0), dt(2024, 5, 1, 10, 0, 0));
}

#[test]
fn leap_years_and_month_lengths() {
    assert!(is_leap_year(2024));
    assert!(is_leap_year(2000));
    assert!(!is_leap_year(1900));
    assert!(!is_leap_year(2023));
    assert!(is_leap_year(0));
    assert!(is_leap_year(-4));
    assert!(!is_leap_year(-100));
    assert_eq!(month_length(2024, 2), 29);
    assert_eq!(month_length(2023, 2), 28);
    assert_eq!(month_length(2023, 4), 30);
    assert_eq!(month_length(2023, 12), 31);
}

#[test]
fn format_years_as_percent_y() {
    assert_eq!(format_datetime(&dt(2024, 3, 9, 19, 0, 0)), "2024-03-09 19:00:00");
    assert_eq!(format_datetime(&dt(999, 1, 2, 3, 4, 5)), "0999-01-02 03:04:05");
    assert_eq!(format_datetime(&dt(10000, 1, 1, 0, 0, 0)), "+10000-01-01 00:00:00");
    assert_eq!(format_datetime(&dt(-5, 12, 31, 23, 59, 59)), "-0005-12-31 23:59:59");
}

#[test]
fn offsets_read_as_whole_hours() {
    assert_eq!(parse_offset("+05:00"), Ok(5));
    assert_eq!(parse_offset("+05"), Ok(5));
    assert_eq!(parse_offset("-03"), Ok(-3));
    assert_eq!(parse_offset("-03:00"), Ok(-3));
    assert_eq!(parse_offset("+00:00"), Ok(0));
    assert_eq!(parse_offset("23"), Ok(23));
    assert_eq!(parse_offset("-23"), Ok(-23));
}

#[test]
fn offsets_refused() {
    assert_eq!(parse_offset(""), Err(OffsetError::Malformed));
    assert_eq!(parse_offset("-"), Err(OffsetError::Malformed));
    assert_eq!(parse_offset("+05:30"), Err(OffsetError::Malformed));
    assert_eq!(parse_offset("abc"), Err(OffsetError::Malformed));
    assert_eq!(parse_offset("99999999999"), Err(OffsetError::Malformed));
    assert_eq!(parse_offset("+24"), Err(OffsetError::OutOfRange));
    assert_eq!(parse_offset("-100"), Err(OffsetError::OutOfRange));
    assert_eq!(parse_offset("2147483647"), Err(OffsetError::OutOfRange));
    assert_eq!(parse_offset("-2147483648"), Err(OffsetError::OutOfRange));
}

#[test]
fn date_shape_check() {
    assert!(is_valid_date("2024-03-10"));
    assert!(is_valid_date("2024-99-99"));
    assert!(!is_valid_date("not-a-date"));
    assert!(!is_valid_date("2024-3-10"));
    assert!(!is_valid_date("2024-03-10\n"));
    assert!(!is_valid_date(""));
}

#[test]
fn list_with_bad_date_falls_back_to_today() {
    let today = "2026-10-18";
    assert_eq!(list_date(today, "not-a-date"), list_date(today, ""));
    assert_eq!(list_date(today, "not-a-date"), today);
    assert_eq!(list_date(today, "2024-03-10"), "2024-03-10");
}

#[test]
fn blank_and_same_text() {
    assert!(is_blank(""));
    assert!(is_blank(" \t\r\n"));
    assert!(is_blank("\u{3000}\u{a0}"));
    assert!(!is_blank(" a \n"));
    assert!(same_text("list", "list"));
    assert!(!same_text("list", "lis"));
    assert!(!same_text("new", "neW"));
}

fn key(d: &DateTime) -> (i32, u32, u32, u32, u32, u32) {
    (d.year, d.month, d.day, d.hour, d.minute, d.second)
}

#[test]
fn window_membership_edges() {
    let (start, end) = day_window("2024-03-10", "+05").unwrap();
    let inside = |t: &DateTime| key(&start) <= key(t) && key(t) <= key(&end);
    let cases = [
        (dt(2024, 3, 9, 18, 59, 59), false),
        (dt(2024, 3, 9, 19, 0, 0), true),
        (dt(2024, 3, 10, 12, 0, 0), true),
        (dt(2024, 3, 10, 18, 59, 0), true),
        (dt(2024, 3, 10, 18, 59, 30), false),
        (dt(2024, 3, 10, 19, 0, 0), false),
    ];
    for (t, expected) in cases.iter() {
        assert_eq!(inside(t), *expected);
        let local = to_local(t, 5);
        let local_inside = (2024, 3, 10, 0, 0, 0) <= key(&local) && key(&local) <= (2024, 3, 10, 23, 59, 0);
        assert_eq!(local_inside, *expected);
    }
}

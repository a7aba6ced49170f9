use chrono::Datelike;
use shift_summary::Date;
use shift_summary::EmployeeShiftSummary;
use shift_summary::Instant;
use shift_summary::RawEmployeeShift;
use shift_summary::ShiftError;
use shift_summary::TimestampField;
use shift_summary::calculate_overtime_hours;
use shift_summary::civil_from_days;
use shift_summary::date_to_string;
use shift_summary::get_start_of_week_for_shift;
use shift_summary::minutes_between;
use shift_summary::summarize;
use shift_summary::validate_shift;
use shift_summary::validate_shifts;

fn raw(shift_id: u64, employee_id: u64, start: &str, end: &str) -> RawEmployeeShift {
    RawEmployeeShift {
        shift_id,
        employee_id,
        start_time: start.to_string(),
        end_time: end.to_string(),
    }
}

fn instant_of(s: &str) -> Instant {
    let dt = chrono::DateTime::parse_from_rfc3339(s).unwrap();
    Instant {
        secs: dt.timestamp(),
        nanos: dt.timestamp_subsec_nanos(),
    }
}

fn summary(employee_id: u64, regular_minutes: i128) -> EmployeeShiftSummary {
    EmployeeShiftSummary {
        employee_id,
        week_start_day: 0,
        week_start: civil_from_days(0),
        regular_minutes,
        overtime_minutes: 0,
        invalid_shifts: Vec::new(),
    }
}

#[test]
fn test_end_to_end_three_employees() {
    // Employee 1: one 8.5 h shift that crosses no Sunday; employee 2: two
    // overlapping shifts in one week; employee 3: a 50-hour week.
    let raws = vec![
        raw(11, 1, "2024-07-01T13:00:00Z", "2024-07-01T21:30:00Z"),
        raw(21, 2, "2024-07-01T13:00:00Z", "2024-07-01T18:00:00Z"),
        raw(22, 2, "2024-07-01T15:00:00Z", "2024-07-01T20:00:00Z"),
        raw(31, 3, "2024-07-01T13:00:00Z", "2024-07-01T23:00:00Z"),
        raw(32, 3, "2024-07-02T13:00:00Z", "2024-07-02T23:00:00Z"),
        raw(33, 3, "2024-07-03T13:00:00Z", "2024-07-03T23:00:00Z"),
        raw(34, 3, "2024-07-04T13:00:00Z", "2024-07-04T23:00:00Z"),
        raw(35, 3, "2024-07-05T13:00:00Z", "2024-07-05T23:00:00Z"),
    ];
    let shifts = validate_shifts(&raws).unwrap();
    let summaries = summarize(shifts);

    assert_eq!(summaries.len(), 3);
    let a = summaries.iter().find(|s| s.employee_id == 1).unwrap();
    assert_eq!(a.regular_minutes, 510);
    assert_eq!(a.overtime_minutes, 0);
    assert!(a.invalid_shifts.is_empty());
    assert_eq!(a.start_of_week(), "2024-06-30");

    let b = summaries.iter().find(|s| s.employee_id == 2).unwrap();
    assert_eq!(b.regular_minutes, 0);
    assert_eq!(&b.invalid_shifts, &[21, 22]);

    let c = summaries.iter().find(|s| s.employee_id == 3).unwrap();
    assert_eq!(c.regular_minutes, 2400);
    assert_eq!(c.overtime_minutes, 600);
}

#[test]
fn test_overtime_boundary() {
    // Exactly forty hours is untouched; one minute above it moves the
    // excess minute to overtime and clamps regular time to forty hours.
    let mut summaries = vec![summary(1, 2400), summary(2, 2401)];
    calculate_overtime_hours(&mut summaries);

    assert_eq!(summaries[0].regular_minutes, 2400);
    assert_eq!(summaries[0].overtime_minutes, 0);
    assert_eq!(summaries[0].regular_minutes as f64 / 60.0, 40.0);

    assert_eq!(summaries[1].regular_minutes, 2400);
    assert_eq!(summaries[1].overtime_minutes, 1);
}

#[test]
fn test_overtime_idempotent() {
    let mut summaries = vec![summary(1, 2400), summary(2, 2401), summary(3, 5000)];
    calculate_overtime_hours(&mut summaries);
    let once: Vec<(u64, i128, i128)> = summaries
        .iter()
        .map(|s| (s.employee_id, s.regular_minutes, s.overtime_minutes))
        .collect();
    calculate_overtime_hours(&mut summaries);
    let twice: Vec<(u64, i128, i128)> = summaries
        .iter()
        .map(|s| (s.employee_id, s.regular_minutes, s.overtime_minutes))
        .collect();
    assert_eq!(once, twice);
}

#[test]
fn test_validate_rejects_malformed_start() {
    let bad = raw(7, 8, "not-a-timestamp", "2021-08-30T21:00:00Z");
    match validate_shift(&bad) {
        Err(ShiftError::MalformedTimestamp { field, shift }) => {
            assert_eq!(field, TimestampField::Start);
            assert_eq!(shift.shift_id, 7);
            assert_eq!(shift.employee_id, 8);
            assert_eq!(shift.start_time, "not-a-timestamp");
        }
        _ => panic!("a malformed start time must be rejected"),
    }
}

#[test]
fn test_validate_rejects_malformed_end() {
    let bad = raw(7, 8, "2021-08-30T12:30:00Z", "2021-08-30 21:00");
    match validate_shift(&bad) {
        Err(ShiftError::MalformedTimestamp { field, shift }) => {
            assert_eq!(field, TimestampField::End);
            assert_eq!(shift.end_time, "2021-08-30 21:00");
        }
        _ => panic!("a malformed end time must be rejected"),
    }
}

#[test]
fn test_validate_batch_fail_fast() {
    let raws = vec![
        raw(1, 1, "2021-08-30T12:30:00Z", "2021-08-30T21:00:00Z"),
        raw(2, 1, "garbage", "2021-08-30T21:00:00Z"),
        raw(3, 1, "2021-08-30T12:30:00Z", "2021-08-30T21:00:00Z"),
    ];
    match validate_shifts(&raws) {
        Err(ShiftError::MalformedTimestamp { field, shift }) => {
            assert_eq!(field, TimestampField::Start);
            assert_eq!(shift.shift_id, 2);
        }
        _ => panic!("the first malformed record must abort the batch"),
    }
}

#[test]
fn test_duplicate_key_keeps_last_record() {
    // Two records with the same (employee, shift, start) key: only the
    // later record survives; hours are merged, not summed.
    let raws = vec![
        raw(5, 9, "2024-07-01T13:00:00Z", "2024-07-01T17:00:00Z"),
        raw(5, 9, "2024-07-01T13:00:00Z", "2024-07-01T19:00:00Z"),
    ];
    let shifts = validate_shifts(&raws).unwrap();
    let summaries = summarize(shifts);
    assert_eq!(summaries.len(), 1);
    assert_eq!(summaries[0].regular_minutes, 360);
}

#[test]
fn test_end_before_start_gives_negative_duration() {
    // The accepted validation gap: an end before the start is not
    // rejected and yields a negative contribution.
    let raws = vec![raw(1, 1, "2024-07-01T15:00:00Z", "2024-07-01T13:00:00Z")];
    let shifts = validate_shifts(&raws).unwrap();
    let summaries = summarize(shifts);
    assert_eq!(summaries.len(), 1);
    assert_eq!(summaries[0].regular_minutes, -120);
    assert_eq!(summaries[0].overtime_minutes, 0);
}

#[test]
fn test_week_boundary_dates() {
    // An instant at 2024-06-30T01:00:00Z still belongs to the business
    // week of Sunday 2024-06-23; one at 2024-07-03T11:00:00Z to the week
    // of Sunday 2024-06-30.
    let early = instant_of("2024-06-30T01:00:00Z");
    let later = instant_of("2024-07-03T11:00:00Z");
    let (_, _, _, date_early, date_later) = get_start_of_week_for_shift(&early, &later);
    assert_eq!(date_to_string(&date_early), "2024-06-23");
    assert_eq!(date_to_string(&date_later), "2024-06-30");
    assert_eq!(
        (date_early.year, date_early.month, date_early.day),
        (2024i64, 6u8, 23u8)
    );
}

#[test]
fn test_civil_from_days_matches_calendar() {
    for (y, m, d) in [
        (1970, 1, 1),
        (2021, 8, 29),
        (2024, 2, 29),
        (2024, 6, 30),
        (1969, 12, 31),
        (1900, 3, 1),
        (2000, 2, 29),
    ] {
        let nd = chrono::NaiveDate::from_ymd_opt(y, m, d).unwrap();
        let epoch = chrono::NaiveDate::from_ymd_opt(1970, 1, 1).unwrap();
        let day_number = i64::from(nd.num_days_from_ce() - epoch.num_days_from_ce());
        let date: Date = civil_from_days(day_number);
        assert_eq!(
            (date.year, u32::from(date.month), u32::from(date.day)),
            (i64::from(y), m, d)
        );
        assert_eq!(date_to_string(&date), nd.to_string());
    }
}

#[test]
fn test_minutes_between_truncates_toward_zero() {
    let base = instant_of("2024-07-01T12:00:00Z");
    let plus_90s = instant_of("2024-07-01T12:01:30Z");
    let plus_59s = instant_of("2024-07-01T12:00:59Z");
    assert_eq!(minutes_between(&base, &plus_90s), 1);
    assert_eq!(minutes_between(&base, &plus_59s), 0);
    assert_eq!(minutes_between(&plus_90s, &base), -1);
    assert_eq!(minutes_between(&base, &base), 0);
}

#[test]
fn test_boundary_touching_shifts_do_not_conflict() {
    // One shift ending exactly when the next begins is no overlap.
    let raws = vec![
        raw(1, 1, "2024-07-01T13:00:00Z", "2024-07-01T17:00:00Z"),
        raw(2, 1, "2024-07-01T17:00:00Z", "2024-07-01T21:00:00Z"),
    ];
    let shifts = validate_shifts(&raws).unwrap();
    let summaries = summarize(shifts);
    assert_eq!(summaries.len(), 1);
    assert_eq!(summaries[0].regular_minutes, 480);
    assert!(summaries[0].invalid_shifts.is_empty());
}

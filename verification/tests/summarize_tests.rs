use chrono::SecondsFormat;
use chrono::TimeZone;
use chrono_tz::US::Central;
use shift_summary::EmployeeShift;
use shift_summary::EmployeeShiftSummary;
use shift_summary::Instant;
use shift_summary::RawEmployeeShift;
use shift_summary::calculate_overtime_hours;
use shift_summary::get_start_of_week_for_shift;
use shift_summary::summarize;
use shift_summary::summarize_all_employee_hours;
use shift_summary::validate_shift;
use shift_summary::validate_shifts;

fn raw(shift_id: u64, employee_id: u64, start: &str, end: &str) -> RawEmployeeShift {
    RawEmployeeShift {
        shift_id,
        employee_id,
        start_time: start.to_string(),
        end_time: end.to_string(),
    }
}

fn instant_of(s: &str) -> Instant {
    let dt = chrono::DateTime::parse_from_rfc3339(s).unwrap();
    Instant {
        secs: dt.timestamp(),
        nanos: dt.timestamp_subsec_nanos(),
    }
}

fn rfc3339_micros(t: &Instant) -> String {
    chrono::DateTime::from_timestamp(t.secs, t.nanos)
        .unwrap()
        .to_rfc3339_opts(SecondsFormat::Micros, true)
}

fn hours(s: &EmployeeShiftSummary) -> f64 {
    s.regular_minutes as f64 / 60.0
}

fn overtime(s: &EmployeeShiftSummary) -> f64 {
    s.overtime_minutes as f64 / 60.0
}

/// The shifts of the multi-employee dataset.
fn multiple_shifts() -> Vec<RawEmployeeShift> {
    vec![
        raw(
            2663141019,
            41488322,
            "2021-08-30T12:30:00.000000Z",
            "2021-08-30T21:00:00.000000Z",
        ),
        raw(
            2663141020,
            34009849,
            "2021-08-27T13:00:00.000000Z",
            "2021-08-28T01:30:00.000000Z",
        ),
        raw(
            2662828955,
            38410756,
            "2021-08-27T13:00:00.000000Z",
            "2021-08-28T01:30:00.000000Z",
        ),
    ]
}

fn read_shifts(raws: Vec<RawEmployeeShift>) -> Vec<EmployeeShift> {
    validate_shifts(&raws).unwrap()
}

#[test]
fn test_summarize_shifts_from_json_file() {
    let shifts = read_shifts(multiple_shifts());
    let summaries = summarize(shifts);
    assert_eq!(
        hours(
            summaries
                .iter()
                .find(|item| item.employee_id == 41488322
                    && item.start_of_week() == *"2021-08-29")
                .unwrap()
        ),
        8.5
    );
    assert_eq!(
        hours(
            summaries
                .iter()
                .find(|item| item.employee_id == 34009849
                    && item.start_of_week() == *"2021-08-22")
                .unwrap()
        ),
        12.5
    );
    assert_eq!(
        hours(
            summaries
                .iter()
                .find(|item| item.employee_id == 38410756
                    && item.start_of_week() == *"2021-08-22")
                .unwrap()
        ),
        12.5
    );
}

#[test]
fn test_calculate_overtime_hours() {
    // Employee 41488322: fifty hours in the week of Sunday 2024-06-30.
    // Employee 4148: 28.5 hours in the week of Sunday 2024-07-07.
    // Employee 4: 43.5 hours in the week of 2024-07-07, the last shift
    // crossing into the week of 2024-07-14 with four more hours there.
    let raws = vec![
        raw(2663141001, 41488322, "2024-07-01T13:00:00.000000Z", "2024-07-01T23:00:00.000000Z"),
        raw(2663141002, 41488322, "2024-07-02T13:00:00.000000Z", "2024-07-02T23:00:00.000000Z"),
        raw(2663141003, 41488322, "2024-07-03T13:00:00.000000Z", "2024-07-03T23:00:00.000000Z"),
        raw(2663141004, 41488322, "2024-07-04T13:00:00.000000Z", "2024-07-04T23:00:00.000000Z"),
        raw(2663141005, 41488322, "2024-07-05T13:00:00.000000Z", "2024-07-05T23:00:00.000000Z"),
        raw(2663142001, 4148, "2024-07-08T13:00:00.000000Z", "2024-07-08T23:00:00.000000Z"),
        raw(2663142002, 4148, "2024-07-09T13:00:00.000000Z", "2024-07-09T23:00:00.000000Z"),
        raw(2663142003, 4148, "2024-07-10T13:00:00.000000Z", "2024-07-10T21:30:00.000000Z"),
        raw(2663143001, 4, "2024-07-08T12:00:00.000000Z", "2024-07-08T22:00:00.000000Z"),
        raw(2663143002, 4, "2024-07-09T12:00:00.000000Z", "2024-07-09T22:00:00.000000Z"),
        raw(2663143003, 4, "2024-07-10T12:00:00.000000Z", "2024-07-10T22:00:00.000000Z"),
        raw(2663143004, 4, "2024-07-11T12:00:00.000000Z", "2024-07-11T21:30:00.000000Z"),
        raw(2663143005, 4, "2024-07-14T01:00:00.000000Z", "2024-07-14T09:00:00.000000Z"),
    ];
    let shifts = read_shifts(raws);

    let mut summaries = summarize_all_employee_hours(shifts);
    calculate_overtime_hours(&mut summaries);

    let summary_week_06_30_2024_41488322_employee = summaries
        .iter()
        .find(|summary| summary.employee_id == 41488322 && summary.start_of_week() == "2024-06-30")
        .unwrap();
    let summary_week_07_07_2024_4148_employee = summaries
        .iter()
        .find(|summary| summary.employee_id == 4148 && summary.start_of_week() == "2024-07-07")
        .unwrap();
    let summary_week_07_07_2024_4_employee = summaries
        .iter()
        .find(|summary| summary.employee_id == 4 && summary.start_of_week() == "2024-07-07")
        .unwrap();
    let summary_week_07_14_2024_4_employee = summaries
        .iter()
        .find(|summary| summary.employee_id == 4 && summary.start_of_week() == "2024-07-14")
        .unwrap();

    assert_eq!(summaries.len(), 4);
    assert_eq!(hours(summary_week_06_30_2024_41488322_employee), 40.);
    assert_eq!(overtime(summary_week_06_30_2024_41488322_employee), 10.);
    assert_eq!(hours(summary_week_07_07_2024_4148_employee), 28.5);
    assert_eq!(overtime(summary_week_07_07_2024_4148_employee), 0.);
    assert_eq!(hours(summary_week_07_07_2024_4_employee), 40.);
    assert_eq!(overtime(summary_week_07_07_2024_4_employee), 3.5);
    assert_eq!(hours(summary_week_07_14_2024_4_employee), 4.);
}

#[test]
fn test_employee_with_overlapping_shifts() {
    // Shift 2663141019 crosses from the week of 2024-06-30 into the week
    // of 2024-07-07, where shift 2663141013 starts inside it; a third
    // shift contributes 12.5 clean hours to the first week.
    let raws = vec![
        raw(2663141001, 41488322, "2024-07-01T13:00:00.000000Z", "2024-07-02T01:30:00.000000Z"),
        raw(2663141019, 41488322, "2024-07-07T01:00:00.000000Z", "2024-07-07T11:00:00.000000Z"),
        raw(2663141013, 41488322, "2024-07-07T07:00:00.000000Z", "2024-07-07T15:00:00.000000Z"),
    ];
    let shifts = read_shifts(raws);

    let summaries = summarize_all_employee_hours(shifts);
    let summary_first_week = summaries
        .iter()
        .find(|s| s.employee_id == 41488322 && s.start_of_week() == "2024-06-30")
        .unwrap();
    let summary_second_week = summaries
        .iter()
        .find(|s| s.employee_id == 41488322 && s.start_of_week() == "2024-07-07")
        .unwrap();

    assert_eq!(summaries.len(), 2);

    assert_eq!(hours(summary_first_week), 12.5);
    assert_eq!(&summary_first_week.invalid_shifts, &[2663141019]);

    assert_eq!(hours(summary_second_week), 0.);
    assert_eq!(&summary_second_week.invalid_shifts, &[2663141013]);
}

#[test]
fn test_summarize_all_employees_shifts_crossing_sunday_midnight() {
    // One 33-hour shift from Saturday 07:00 to Sunday 16:00 Central:
    // seventeen hours before the week boundary, sixteen after it.
    let raws = vec![raw(
        2663141019,
        41488322,
        "2024-07-06T12:00:00.000000Z",
        "2024-07-07T21:00:00.000000Z",
    )];
    let shifts = read_shifts(raws);

    let summaries = summarize_all_employee_hours(shifts);
    assert_eq!(summaries.len(), 2);
    assert_eq!(
        hours(
            summaries
                .iter()
                .find(|s| s.employee_id == 41488322 && s.start_of_week() == "2024-06-30")
                .unwrap()
        ),
        17.
    );
    assert_eq!(
        hours(
            summaries
                .iter()
                .find(|s| s.employee_id == 41488322 && s.start_of_week() == "2024-07-07")
                .unwrap()
        ),
        16.
    );
}

#[test]
fn test_get_week_boundaries_for_shift_start_and_end_time() {
    let start_time = instant_of("2024-07-03T11:00:00.000000Z");
    let end_time = instant_of("2024-07-03T15:00:00.000000Z");

    let (
        expected_start_week_for_start_time,
        expected_end_date_for_start_time,
        expected_start_week_for_end_time,
        _,
        _,
    ) = get_start_of_week_for_shift(&start_time, &end_time);
    assert_eq!(
        expected_start_week_for_start_time,
        instant_of(
            &Central
                .with_ymd_and_hms(2024, 6, 30, 0, 0, 0)
                .unwrap()
                .to_rfc3339()
        )
    );

    assert_eq!(
        expected_end_date_for_start_time,
        instant_of(
            &Central
                .with_ymd_and_hms(2024, 7, 7, 0, 0, 0)
                .unwrap()
                .to_rfc3339()
        )
    );
    assert_eq!(
        expected_start_week_for_end_time,
        instant_of(
            &Central
                .with_ymd_and_hms(2024, 6, 30, 0, 0, 0)
                .unwrap()
                .to_rfc3339()
        )
    );
}

#[test]
fn test_get_week_boundaries_for_shift_start_and_end_time_spanning_saturday_to_sunday() {
    let start_time = instant_of("2024-06-30T01:00:00.000000Z");
    let end_time = instant_of("2024-06-30T07:00:00.000000Z");

    let (
        expected_start_week_for_start_time,
        expected_end_date_for_start_time,
        expected_start_week_for_end_time,
        _,
        _,
    ) = get_start_of_week_for_shift(&start_time, &end_time);
    assert_eq!(
        expected_start_week_for_start_time,
        instant_of(
            &Central
                .with_ymd_and_hms(2024, 6, 23, 0, 0, 0)
                .unwrap()
                .to_rfc3339()
        )
    );

    assert_eq!(
        expected_end_date_for_start_time,
        instant_of(
            &Central
                .with_ymd_and_hms(2024, 6, 30, 0, 0, 0)
                .unwrap()
                .to_rfc3339()
        )
    );
    assert_eq!(
        expected_start_week_for_end_time,
        instant_of(
            &Central
                .with_ymd_and_hms(2024, 6, 30, 0, 0, 0)
                .unwrap()
                .to_rfc3339()
        )
    );
}

#[test]
fn test_read_employee_shift() {
    let raws = vec![raw(
        2663141019,
        41488322,
        "2021-08-30T12:30:00.000000Z",
        "2021-08-30T21:00:00.000000Z",
    )];
    let shifts = read_shifts(raws);

    assert_eq!(shifts[0].shift_id, 2663141019);
    assert_eq!(shifts[0].employee_id, 41488322);
    assert_eq!(
        rfc3339_micros(&shifts[0].start_time),
        "2021-08-30T12:30:00.000000Z"
    );
    assert_eq!(
        rfc3339_micros(&shifts[0].end_time),
        "2021-08-30T21:00:00.000000Z"
    );
    assert_eq!(shifts.len(), 1);
}

#[test]
fn test_read_multiple_employee_shifts() {
    let shifts = read_shifts(multiple_shifts());

    assert_eq!(shifts.len(), 3);

    assert_eq!(shifts[0].shift_id, 2663141019);
    assert_eq!(shifts[0].employee_id, 41488322);
    assert_eq!(
        rfc3339_micros(&shifts[0].start_time),
        "2021-08-30T12:30:00.000000Z"
    );
    assert_eq!(
        rfc3339_micros(&shifts[0].end_time),
        "2021-08-30T21:00:00.000000Z"
    );

    assert_eq!(shifts[2].shift_id, 2662828955);
    assert_eq!(shifts[2].employee_id, 38410756);
    assert_eq!(
        rfc3339_micros(&shifts[2].start_time),
        "2021-08-27T13:00:00.000000Z"
    );
    assert_eq!(
        rfc3339_micros(&shifts[2].end_time),
        "2021-08-28T01:30:00.000000Z"
    );
}

#[test]
fn test_validate_raw_employee_shift() {
    let shifts = [raw(
        1,
        2,
        "2021-08-30T12:30:00.000000Z",
        "2021-08-30T21:00:00.000000Z",
    )];

    let shift = validate_shift(&shifts[0]).unwrap();
    let expected_start_time = instant_of("2021-08-30T12:30:00.000000Z");
    let expected_end_time = instant_of("2021-08-30T21:00:00.000000Z");

    assert_eq!(shift.shift_id, 1);
    assert_eq!(shift.employee_id, 2);
    assert_eq!(shift.start_time, expected_start_time);
    assert_eq!(shift.end_time, expected_end_time);
}

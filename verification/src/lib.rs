//! Payroll work-week summarizer: turns validated employee work-shift records
//! into per-employee, per-work-week totals of regular and overtime minutes,
//! with overlapping shifts excluded from the totals and recorded for audit.
//!
//! Work weeks run Sunday 00:00:00 to Sunday 00:00:00 in the fixed business
//! timezone (US Central); all hour arithmetic is done in whole minutes.
use vstd::prelude::*;

pub mod aggregate;
pub mod calendar;
pub mod fmt;
pub mod instant;
pub mod laws;
pub mod overlap;
pub mod overtime;
pub mod shift;
pub mod summary;
pub mod timezone;

use aggregate::agg_after;
use aggregate::spec_dedup;
use aggregate::summaries_wf;
use overtime::cap_all;
use summary::views_of;

pub use aggregate::shift_in_range;
pub use aggregate::shift_is_in_range;
pub use aggregate::summarize_all_employee_hours;
pub use calendar::Date;
pub use calendar::civil_from_days;
pub use fmt::date_to_string;
pub use instant::Instant;
pub use instant::minutes_between;
pub use overlap::does_shift_overlap_with_another_for_employee;
pub use overtime::calculate_overtime_hours;
pub use shift::EmployeeShift;
pub use shift::RawEmployeeShift;
pub use shift::ShiftError;
pub use shift::TimestampField;
pub use shift::validate_shift;
pub use shift::validate_shifts;
pub use summary::EmployeeShiftSummary;
pub use timezone::get_start_of_week_for_shift;

verus! {

/// The core entry point: one summary per (employee, work week) from an
/// already validated shift collection — deduplication, per-shift week
/// resolution, overlap audit and hour accounting, then the terminal
/// overtime-capping pass.  Total over its accepted inputs: aggregation
/// of validated data cannot fail.
pub fn summarize(shifts: Vec<EmployeeShift>) -> (r: Vec<EmployeeShiftSummary>)
    requires
        forall|i: int| 0 <= i < shifts@.len() ==> (#[trigger] shifts@[i]).wf(),
        forall|i: int| 0 <= i < shifts@.len() ==> shift_in_range(#[trigger] shifts@[i]),
    ensures
        views_of(r@) == cap_all(agg_after(spec_dedup(shifts@), spec_dedup(shifts@).len() as int)),
        summaries_wf(r@),
{
    let mut summaries = summarize_all_employee_hours(shifts);
    calculate_overtime_hours(&mut summaries);
    proof {
        assert(views_of(summaries@) =~~= cap_all(
            agg_after(spec_dedup(shifts@), spec_dedup(shifts@).len() as int),
        ));
    }
    summaries
}

} // verus!

use crate::calendar::{DAY_NUMBER_BOUND, Date};
use vstd::prelude::*;

verus! {

/// Weekly regular hours are capped at this many minutes (40 hours);
/// whatever exceeds it becomes overtime.
pub const OVERTIME_THRESHOLD_MINUTES: i64 = 2400;

/// Bound the accumulated minutes of any summary entry stay strictly
/// inside of while aggregation runs.
pub const AGG_MINUTES_CAP: i128 = 100_000_000_000_000_000_000_000_000_000_000;

/// The mathematical content of one weekly summary: the key (employee and
/// week-start day number), the accumulated minutes, and the audit list.
pub struct SummaryModel {
    pub employee_id: u64,
    pub week_day: int,
    pub minutes: int,
    pub overtime: int,
    pub invalid: Seq<u64>,
}

/// One per-employee, per-work-week summary: regular and overtime whole
/// minutes, the week's Sunday both as a day number and as a calendar
/// date, and the identifiers of shifts disqualified by overlap, in
/// discovery order.
#[derive(Debug)]
pub struct EmployeeShiftSummary {
    pub employee_id: u64,
    pub week_start_day: i64,
    pub week_start: Date,
    pub regular_minutes: i128,
    pub overtime_minutes: i128,
    pub invalid_shifts: Vec<u64>,
}

impl View for EmployeeShiftSummary {
    type V = SummaryModel;

    open spec fn view(&self) -> SummaryModel {
        SummaryModel {
            employee_id: self.employee_id,
            week_day: self.week_start_day as int,
            minutes: self.regular_minutes as int,
            overtime: self.overtime_minutes as int,
            invalid: self.invalid_shifts@,
        }
    }
}

impl EmployeeShiftSummary {
    /// The calendar date agrees with the day number, and the day number
    /// is in the range the calendar handles.
    pub open spec fn wf(self) -> bool {
        &&& self.week_start.valid()
        &&& self.week_start.day_number() == self.week_start_day as int
        &&& -DAY_NUMBER_BOUND <= self.week_start_day <= DAY_NUMBER_BOUND
    }
}

/// The views of a summary vector.
pub open spec fn views_of(v: Seq<EmployeeShiftSummary>) -> Seq<SummaryModel> {
    v.map_values(|s: EmployeeShiftSummary| s@)
}

/// Index `j` holds the summary keyed by (`emp`, `wd`).
pub open spec fn is_key_at(st: Seq<SummaryModel>, j: int, emp: u64, wd: int) -> bool {
    0 <= j < st.len() && st[j].employee_id == emp && st[j].week_day == wd
}

pub open spec fn has_key(st: Seq<SummaryModel>, emp: u64, wd: int) -> bool {
    exists|j: int| is_key_at(st, j, emp, wd)
}

/// The index holding the key; with unique keys there is at most one.
pub open spec fn key_index(st: Seq<SummaryModel>, emp: u64, wd: int) -> int {
    choose|j: int| is_key_at(st, j, emp, wd)
}

/// No two entries share a (employee, week) key.
pub open spec fn keys_unique(st: Seq<SummaryModel>) -> bool {
    forall|i: int, j: int|
        0 <= i < j < st.len() ==> !((#[trigger] st[i]).employee_id == (#[trigger] st[j]).employee_id
            && st[i].week_day == st[j].week_day)
}

/// With unique keys, any index holding the key is the key's index.
pub proof fn lemma_key_index_unique(st: Seq<SummaryModel>, j: int, emp: u64, wd: int)
    requires
        keys_unique(st),
        is_key_at(st, j, emp, wd),
    ensures
        has_key(st, emp, wd),
        key_index(st, emp, wd) == j,
{
    assert(has_key(st, emp, wd));
    let k = key_index(st, emp, wd);
    assert(is_key_at(st, k, emp, wd));
    if k != j {
        if k < j {
            assert(!(st[k].employee_id == st[j].employee_id && st[k].week_day == st[j].week_day));
        } else {
            assert(!(st[j].employee_id == st[k].employee_id && st[j].week_day == st[k].week_day));
        }
        assert(false);
    }
}

/// An empty summary for a fresh (employee, week) key.
pub open spec fn blank_summary(emp: u64, wd: int) -> SummaryModel {
    SummaryModel { employee_id: emp, week_day: wd, minutes: 0, overtime: 0, invalid: Seq::empty() }
}

/// Add `m` minutes to the summary keyed (`emp`, `wd`), creating it
/// lazily with zero hours if absent.
pub open spec fn add_minutes(st: Seq<SummaryModel>, emp: u64, wd: int, m: int) -> Seq<
    SummaryModel,
> {
    if has_key(st, emp, wd) {
        let j = key_index(st, emp, wd);
        let e = st[j];
        st.update(
            j,
            SummaryModel {
                employee_id: e.employee_id,
                week_day: e.week_day,
                minutes: e.minutes + m,
                overtime: e.overtime,
                invalid: e.invalid,
            },
        )
    } else {
        st.push(
            SummaryModel { employee_id: emp, week_day: wd, minutes: m, overtime: 0, invalid: Seq::empty() },
        )
    }
}

/// Append `id` to the audit list of the summary keyed (`emp`, `wd`),
/// creating the summary with zero hours if absent.
pub open spec fn add_invalid(st: Seq<SummaryModel>, emp: u64, wd: int, id: u64) -> Seq<
    SummaryModel,
> {
    if has_key(st, emp, wd) {
        let j = key_index(st, emp, wd);
        let e = st[j];
        st.update(
            j,
            SummaryModel {
                employee_id: e.employee_id,
                week_day: e.week_day,
                minutes: e.minutes,
                overtime: e.overtime,
                invalid: e.invalid.push(id),
            },
        )
    } else {
        st.push(
            SummaryModel { employee_id: emp, week_day: wd, minutes: 0, overtime: 0, invalid: seq![id] },
        )
    }
}

/// The overtime cap of one summary: regular minutes above the threshold
/// move to overtime; a summary at or below the threshold is untouched.
pub open spec fn cap_summary(s: SummaryModel) -> SummaryModel {
    if s.minutes > OVERTIME_THRESHOLD_MINUTES as int {
        SummaryModel {
            employee_id: s.employee_id,
            week_day: s.week_day,
            minutes: OVERTIME_THRESHOLD_MINUTES as int,
            overtime: s.minutes - OVERTIME_THRESHOLD_MINUTES as int,
            invalid: s.invalid,
        }
    } else {
        s
    }
}

} // verus!

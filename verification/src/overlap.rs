use crate::shift::EmployeeShift;
use vstd::prelude::*;

verus! {

/// The intervals of `a` and `b` conflict: an endpoint of one lies
/// strictly inside the other, checked both ways so that an interval
/// strictly containing the other is detected too.  Mere boundary
/// touching (one's end equal to the other's start) is no conflict.
pub open spec fn intervals_conflict(a: EmployeeShift, b: EmployeeShift) -> bool {
    ||| (b.start_time.spec_lt(a.start_time) && a.start_time.spec_lt(b.end_time))
    ||| (b.start_time.spec_lt(a.end_time) && a.end_time.spec_lt(b.end_time))
    ||| (a.start_time.spec_lt(b.start_time) && b.start_time.spec_lt(a.end_time))
    ||| (a.start_time.spec_lt(b.end_time) && b.end_time.spec_lt(a.end_time))
}

/// `s` conflicts with at least one shift of the same employee in
/// `shifts`.  Other shifts are told apart from `s` by identifier alone,
/// never by instants: two distinct shifts may share a start or an end.
pub open spec fn conflicts_with_any(shifts: Seq<EmployeeShift>, s: EmployeeShift) -> bool {
    exists|j: int|
        0 <= j < shifts.len() && shifts[j].employee_id == s.employee_id && shifts[j].shift_id
            != s.shift_id && intervals_conflict(s, shifts[j])
}

/// Conflict is symmetric: however the two shifts are ordered, the same
/// pairs conflict.
pub proof fn lemma_conflict_symmetric(a: EmployeeShift, b: EmployeeShift)
    ensures
        intervals_conflict(a, b) == intervals_conflict(b, a),
{
}

/// Whether `current_shift` conflicts with another shift of the same
/// employee in `shifts` (entries carrying `current_shift`'s own
/// identifier are never counted).
pub fn does_shift_overlap_with_another_for_employee(
    current_shift: &EmployeeShift,
    shifts: &Vec<EmployeeShift>,
) -> (r: bool)
    requires
        current_shift.wf(),
        forall|j: int| 0 <= j < shifts@.len() ==> (#[trigger] shifts@[j]).wf(),
    ensures
        r == conflicts_with_any(shifts@, *current_shift),
{
    let n = shifts.len();
    let mut j: usize = 0;
    while j < n
        invariant
            n == shifts@.len(),
            0 <= j <= n,
            current_shift.wf(),
            forall|k: int| 0 <= k < shifts@.len() ==> (#[trigger] shifts@[k]).wf(),
            forall|k: int|
                0 <= k < j ==> !(shifts@[k].employee_id == current_shift.employee_id
                    && shifts@[k].shift_id != current_shift.shift_id && intervals_conflict(
                    *current_shift,
                    shifts@[k],
                )),
        decreases n - j,
    {
        let other = &shifts[j];
        if other.employee_id == current_shift.employee_id && other.shift_id
            != current_shift.shift_id {
            if (other.start_time.is_before(&current_shift.start_time)
                && current_shift.start_time.is_before(&other.end_time)) || (
            other.start_time.is_before(&current_shift.end_time)
                && current_shift.end_time.is_before(&other.end_time)) || (
            current_shift.start_time.is_before(&other.start_time)
                && other.start_time.is_before(&current_shift.end_time)) || (
            current_shift.start_time.is_before(&other.end_time)
                && other.end_time.is_before(&current_shift.end_time)) {
                return true;
            }
        }
        j = j + 1;
    }
    false
}

} // verus!

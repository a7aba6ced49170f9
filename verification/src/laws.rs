use crate::aggregate::{
    agg_after, first_week_minutes, invalid_ids, lemma_agg_characterization, second_week_minutes,
    shift_contribution, shift_end_week, shift_spans, shift_touches, shift_week, total_minutes,
    touched, whole_minutes,
};
use crate::instant::{NANOS_PER_MINUTE, NANOS_PER_SEC, div_toward_zero};
use crate::overlap::{conflicts_with_any, intervals_conflict, lemma_conflict_symmetric};
use crate::shift::EmployeeShift;
use crate::summary::{has_key, key_index};
use crate::timezone::central_midnight_utc;
use vstd::arithmetic::div_mod::{
    lemma_fundamental_div_mod, lemma_fundamental_div_mod_converse, lemma_mod_bound,
};
use vstd::prelude::*;

verus! {

/// A shift fully inside a single business week, free of conflicts,
/// contributes its whole duration in minutes to that week's key, exactly
/// once, and nothing to any other key.
pub proof fn lemma_single_week_shift(shifts: Seq<EmployeeShift>, i: int)
    requires
        0 <= i < shifts.len(),
        !conflicts_with_any(shifts, shifts[i]),
        !shift_spans(shifts[i]),
    ensures
        shift_contribution(shifts, i, shifts[i].employee_id, shift_week(shifts[i]))
            == whole_minutes(shifts[i]),
        forall|emp: u64, wd: int|
            !(emp == shifts[i].employee_id && wd == shift_week(shifts[i]))
                ==> #[trigger] shift_contribution(shifts, i, emp, wd) == 0,
{
}

/// Splitting a sum at a point between the parts loses at most one whole
/// unit to the two truncations.
proof fn lemma_trunc_split(x: int, y: int)
    requires
        x >= 0,
        y >= 0,
    ensures
        div_toward_zero(x + y, NANOS_PER_MINUTE as int) - 1 <= div_toward_zero(
            x,
            NANOS_PER_MINUTE as int,
        ) + div_toward_zero(y, NANOS_PER_MINUTE as int),
        div_toward_zero(x, NANOS_PER_MINUTE as int) + div_toward_zero(y, NANOS_PER_MINUTE as int)
            <= div_toward_zero(x + y, NANOS_PER_MINUTE as int),
        0 <= div_toward_zero(x, NANOS_PER_MINUTE as int),
        0 <= div_toward_zero(y, NANOS_PER_MINUTE as int),
{
    let k = NANOS_PER_MINUTE as int;
    lemma_fundamental_div_mod(x, k);
    lemma_fundamental_div_mod(y, k);
    lemma_mod_bound(x, k);
    lemma_mod_bound(y, k);
    let q1 = x / k;
    let r1 = x % k;
    let q2 = y / k;
    let r2 = y % k;
    vstd::arithmetic::div_mod::lemma_div_pos_is_pos(x, k);
    vstd::arithmetic::div_mod::lemma_div_pos_is_pos(y, k);
    assert(x + y == k * (q1 + q2) + (r1 + r2)) by (nonlinear_arith)
        requires
            x == k * q1 + r1,
            y == k * q2 + r2,
    ;
    if r1 + r2 < k {
        lemma_fundamental_div_mod_converse(x + y, k, q1 + q2, r1 + r2);
    } else {
        assert(x + y == k * (q1 + q2 + 1) + (r1 + r2 - k)) by (nonlinear_arith)
            requires
                x + y == k * (q1 + q2) + (r1 + r2),
        ;
        lemma_fundamental_div_mod_converse(x + y, k, q1 + q2 + 1, r1 + r2 - k);
    }
}

/// Truncation toward zero commutes with negation.
proof fn lemma_trunc_negate(v: int)
    ensures
        div_toward_zero(-v, NANOS_PER_MINUTE as int) == -div_toward_zero(v, NANOS_PER_MINUTE as int),
{
    let k = NANOS_PER_MINUTE as int;
    if v == 0 {
        vstd::arithmetic::div_mod::lemma_div_of0(k);
    }
}

/// Splitting a sum at an arbitrary point moves the two truncations at
/// most one whole unit away from the truncation of the sum.
proof fn lemma_trunc_split_general(x: int, y: int)
    ensures
        div_toward_zero(x + y, NANOS_PER_MINUTE as int) - 1 <= div_toward_zero(
            x,
            NANOS_PER_MINUTE as int,
        ) + div_toward_zero(y, NANOS_PER_MINUTE as int),
        div_toward_zero(x, NANOS_PER_MINUTE as int) + div_toward_zero(y, NANOS_PER_MINUTE as int)
            <= div_toward_zero(x + y, NANOS_PER_MINUTE as int) + 1,
    decreases (if x >= 0 {
        0int
    } else {
        1int
    }),
{
    let k = NANOS_PER_MINUTE as int;
    if x >= 0 && y >= 0 {
        lemma_trunc_split(x, y);
    } else if x <= 0 && y <= 0 {
        lemma_trunc_split(-x, -y);
        lemma_trunc_negate(x);
        lemma_trunc_negate(y);
        lemma_trunc_negate(x + y);
    } else if x >= 0 {
        let w = -y;
        lemma_fundamental_div_mod(x, k);
        lemma_fundamental_div_mod(w, k);
        lemma_mod_bound(x, k);
        lemma_mod_bound(w, k);
        let q1 = x / k;
        let r1 = x % k;
        let q2 = w / k;
        let r2 = w % k;
        vstd::arithmetic::div_mod::lemma_div_pos_is_pos(x, k);
        vstd::arithmetic::div_mod::lemma_div_pos_is_pos(w, k);
        if r1 - r2 >= 0 {
            lemma_fundamental_div_mod_converse(x + y, k, q1 - q2, r1 - r2);
            if x + y >= 0 {
            } else if r1 - r2 > 0 {
                lemma_fundamental_div_mod_converse(-(x + y), k, q2 - q1 - 1, k - (r1 - r2));
            } else {
                lemma_fundamental_div_mod_converse(-(x + y), k, q2 - q1, 0);
            }
        } else {
            lemma_fundamental_div_mod_converse(x + y, k, q1 - q2 - 1, r1 - r2 + k);
            if x + y >= 0 {
            } else {
                lemma_fundamental_div_mod_converse(-(x + y), k, q2 - q1, -(r1 - r2));
            }
        }
    } else {
        lemma_trunc_split_general(y, x);
    }
}

/// A shift spanning a week boundary into the immediately following
/// business week has its duration split at that boundary: the sum of the
/// two partial minute counts equals the shift's whole minute count, up
/// to the one minute that splitting a duration at an interior point can
/// lose or gain by truncation.  When the boundary lies within the
/// shift's interval — as it does for a shift that really runs across
/// it — both parts are nonnegative and the sum never exceeds the whole.
pub proof fn lemma_spanning_shift_split(s: EmployeeShift)
    requires
        shift_end_week(s) == shift_week(s) + 7,
    ensures
        whole_minutes(s) - 1 <= first_week_minutes(s) + second_week_minutes(s) <= whole_minutes(s)
            + 1,
        (s.start_time.total_nanos() <= central_midnight_utc(shift_week(s) + 7) * (
        NANOS_PER_SEC as int) <= s.end_time.total_nanos()) ==> {
            &&& 0 <= first_week_minutes(s)
            &&& 0 <= second_week_minutes(s)
            &&& whole_minutes(s) - 1 <= first_week_minutes(s) + second_week_minutes(s)
                <= whole_minutes(s)
        },
{
    let b = central_midnight_utc(shift_week(s) + 7) * (NANOS_PER_SEC as int);
    let a = s.start_time.total_nanos();
    let c = s.end_time.total_nanos();
    lemma_trunc_split_general(b - a, c - b);
    if a <= b <= c {
        lemma_trunc_split(b - a, c - b);
    }
}

/// A shift's identifier reaches the audit list of its start week once
/// its conflict is established, and stays there.
proof fn lemma_invalid_ids_contains(shifts: Seq<EmployeeShift>, n: int, i: int)
    requires
        0 <= i < n <= shifts.len(),
        conflicts_with_any(shifts, shifts[i]),
    ensures
        invalid_ids(shifts, n, shifts[i].employee_id, shift_week(shifts[i])).contains(
            shifts[i].shift_id,
        ),
    decreases n,
{
    let emp = shifts[i].employee_id;
    let wd = shift_week(shifts[i]);
    if n - 1 == i {
        let prev = invalid_ids(shifts, n - 1, emp, wd);
        let cur = invalid_ids(shifts, n, emp, wd);
        assert(cur == prev.push(shifts[i].shift_id));
        assert(cur[cur.len() - 1] == shifts[i].shift_id);
    } else {
        lemma_invalid_ids_contains(shifts, n - 1, i);
        let prev = invalid_ids(shifts, n - 1, emp, wd);
        let cur = invalid_ids(shifts, n, emp, wd);
        let k = choose|k: int| 0 <= k < prev.len() && prev[k] == shifts[i].shift_id;
        assert(cur[k] == shifts[i].shift_id);
    }
}

/// Two shifts of one employee whose intervals strictly overlap are both
/// reported as conflicting — the relation is symmetric — neither
/// contributes any minutes to any week, and each one's identifier
/// appears in the audit list of the week of its own start time, which
/// aggregation therefore creates.
pub proof fn lemma_overlapping_shifts_excluded(shifts: Seq<EmployeeShift>, i: int, j: int)
    requires
        0 <= i < shifts.len(),
        0 <= j < shifts.len(),
        shifts[i].employee_id == shifts[j].employee_id,
        shifts[i].shift_id != shifts[j].shift_id,
        intervals_conflict(shifts[i], shifts[j]),
    ensures
        conflicts_with_any(shifts, shifts[i]),
        conflicts_with_any(shifts, shifts[j]),
        forall|emp: u64, wd: int| #[trigger] shift_contribution(shifts, i, emp, wd) == 0,
        forall|emp: u64, wd: int| #[trigger] shift_contribution(shifts, j, emp, wd) == 0,
        ({
            let st = agg_after(shifts, shifts.len() as int);
            &&& has_key(st, shifts[i].employee_id, shift_week(shifts[i]))
            &&& st[key_index(st, shifts[i].employee_id, shift_week(shifts[i]))].invalid.contains(
                shifts[i].shift_id,
            )
            &&& has_key(st, shifts[j].employee_id, shift_week(shifts[j]))
            &&& st[key_index(st, shifts[j].employee_id, shift_week(shifts[j]))].invalid.contains(
                shifts[j].shift_id,
            )
        }),
{
    lemma_conflict_symmetric(shifts[i], shifts[j]);
    assert(conflicts_with_any(shifts, shifts[i])) by {
        assert(0 <= j < shifts.len() && shifts[j].employee_id == shifts[i].employee_id
            && shifts[j].shift_id != shifts[i].shift_id && intervals_conflict(
            shifts[i],
            shifts[j],
        ));
    }
    assert(conflicts_with_any(shifts, shifts[j])) by {
        assert(0 <= i < shifts.len() && shifts[i].employee_id == shifts[j].employee_id
            && shifts[i].shift_id != shifts[j].shift_id && intervals_conflict(
            shifts[j],
            shifts[i],
        ));
    }
    let n = shifts.len() as int;
    lemma_invalid_ids_contains(shifts, n, i);
    lemma_invalid_ids_contains(shifts, n, j);
    lemma_agg_characterization(shifts, n, shifts[i].employee_id, shift_week(shifts[i]));
    lemma_agg_characterization(shifts, n, shifts[j].employee_id, shift_week(shifts[j]));
    assert(shift_touches(shifts, i, shifts[i].employee_id, shift_week(shifts[i])));
    assert(touched(shifts, n, shifts[i].employee_id, shift_week(shifts[i])));
    assert(shift_touches(shifts, j, shifts[j].employee_id, shift_week(shifts[j])));
    assert(touched(shifts, n, shifts[j].employee_id, shift_week(shifts[j])));
}

/// Aggregation's per-key content, stated of a whole run: the summary for
/// (`emp`, `wd`) exists exactly when some shift touches that key, and
/// then carries the key's exact minute total and audit list.
pub proof fn lemma_summary_totals(shifts: Seq<EmployeeShift>, emp: u64, wd: int)
    ensures
        ({
            let st = agg_after(shifts, shifts.len() as int);
            &&& (has_key(st, emp, wd) <==> touched(shifts, shifts.len() as int, emp, wd))
            &&& (has_key(st, emp, wd) ==> st[key_index(st, emp, wd)].minutes == total_minutes(
                shifts,
                shifts.len() as int,
                emp,
                wd,
            ) && st[key_index(st, emp, wd)].invalid == invalid_ids(
                shifts,
                shifts.len() as int,
                emp,
                wd,
            ))
        }),
{
    lemma_agg_characterization(shifts, shifts.len() as int, emp, wd);
}

} // verus!

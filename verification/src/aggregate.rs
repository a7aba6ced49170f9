use crate::calendar::{DAY_NUMBER_BOUND, Date, civil_from_days};
use crate::instant::{
    Instant, MINUTES_BOUND, NANOS_PER_SEC, minutes_between, minutes_from_nanos,
    spec_minutes_between,
};
use crate::overlap::{conflicts_with_any, does_shift_overlap_with_another_for_employee};
use crate::shift::EmployeeShift;
use crate::summary::{
    AGG_MINUTES_CAP, EmployeeShiftSummary, SummaryModel, add_invalid, add_minutes, has_key,
    is_key_at, key_index, keys_unique, lemma_key_index_unique, views_of,
};
use crate::timezone::{
    SAFE_MAX_SECS, SAFE_MIN_SECS, central_midnight_exec, central_midnight_utc, central_week_day,
    instant_in_range, lemma_midnight_injective, week_day_of,
};
use vstd::prelude::*;

verus! {

/// Both instants of the shift lie in the range the week resolver
/// accepts.
pub open spec fn shift_in_range(s: EmployeeShift) -> bool {
    &&& instant_in_range(s.start_time)
    &&& instant_in_range(s.end_time)
}

/// Whether both instants of the shift lie in the range the week
/// resolver accepts: callers gate unchecked data on this before
/// aggregating.
pub fn shift_is_in_range(s: &EmployeeShift) -> (r: bool)
    ensures
        r == shift_in_range(*s),
{
    SAFE_MIN_SECS <= s.start_time.secs && s.start_time.secs <= SAFE_MAX_SECS && SAFE_MIN_SECS
        <= s.end_time.secs && s.end_time.secs <= SAFE_MAX_SECS
}

/// The day number of the Sunday opening the week the shift starts in.
pub open spec fn shift_week(s: EmployeeShift) -> int {
    week_day_of(s.start_time.secs as int)
}

/// The day number of the Sunday opening the week the shift ends in.
pub open spec fn shift_end_week(s: EmployeeShift) -> int {
    week_day_of(s.end_time.secs as int)
}

/// The shift crosses a week boundary: its two week-start instants
/// differ.
pub open spec fn shift_spans(s: EmployeeShift) -> bool {
    central_midnight_utc(shift_week(s)) != central_midnight_utc(shift_end_week(s))
}

/// The shift's whole duration in minutes.
pub open spec fn whole_minutes(s: EmployeeShift) -> int {
    spec_minutes_between(s.start_time, s.end_time)
}

/// Minutes from the shift's start to the end of its start week.
pub open spec fn first_week_minutes(s: EmployeeShift) -> int {
    minutes_from_nanos(
        s.start_time.total_nanos(),
        central_midnight_utc(shift_week(s) + 7) * (NANOS_PER_SEC as int),
    )
}

/// Minutes from the start of the shift's end week to the shift's end.
pub open spec fn second_week_minutes(s: EmployeeShift) -> int {
    minutes_from_nanos(
        central_midnight_utc(shift_end_week(s)) * (NANOS_PER_SEC as int),
        s.end_time.total_nanos(),
    )
}

/// One aggregation step: what shift `i` of the deduplicated collection
/// does to the summaries.  A conflicting shift contributes no hours
/// anywhere and its identifier is recorded in its start week; a
/// week-spanning shift splits at the week boundary; any other shift
/// contributes its whole duration to its start week.
pub open spec fn agg_step(st: Seq<SummaryModel>, shifts: Seq<EmployeeShift>, i: int) -> Seq<
    SummaryModel,
> {
    let s = shifts[i];
    if conflicts_with_any(shifts, s) {
        add_invalid(st, s.employee_id, shift_week(s), s.shift_id)
    } else if shift_spans(s) {
        add_minutes(
            add_minutes(st, s.employee_id, shift_week(s), first_week_minutes(s)),
            s.employee_id,
            shift_end_week(s),
            second_week_minutes(s),
        )
    } else {
        add_minutes(st, s.employee_id, shift_week(s), whole_minutes(s))
    }
}

/// The summaries after the first `n` shifts of the deduplicated
/// collection have been aggregated.
pub open spec fn agg_after(shifts: Seq<EmployeeShift>, n: int) -> Seq<SummaryModel>
    decreases n,
{
    if n <= 0 {
        Seq::empty()
    } else {
        agg_step(agg_after(shifts, n - 1), shifts, n - 1)
    }
}

/// Two raw shifts collide in deduplication: same employee, same shift
/// identifier, same start instant.  Only one such shift survives.
pub open spec fn same_dedup_key(a: EmployeeShift, b: EmployeeShift) -> bool {
    &&& a.employee_id == b.employee_id
    &&& a.shift_id == b.shift_id
    &&& a.start_time == b.start_time
}

pub open spec fn dkey_at(sq: Seq<EmployeeShift>, j: int, s: EmployeeShift) -> bool {
    0 <= j < sq.len() && same_dedup_key(sq[j], s)
}

pub open spec fn has_dkey(sq: Seq<EmployeeShift>, s: EmployeeShift) -> bool {
    exists|j: int| dkey_at(sq, j, s)
}

pub open spec fn dkey_index(sq: Seq<EmployeeShift>, s: EmployeeShift) -> int {
    choose|j: int| dkey_at(sq, j, s)
}

pub open spec fn dkeys_unique(sq: Seq<EmployeeShift>) -> bool {
    forall|i: int, j: int|
        0 <= i < j < sq.len() ==> !same_dedup_key(#[trigger] sq[i], #[trigger] sq[j])
}

/// The deduplicated collection after the first `n` raw shifts: a later
/// collision replaces the survivor in place, so the last colliding shift
/// wins and first-occurrence order is kept.
pub open spec fn spec_dedup_after(shifts: Seq<EmployeeShift>, n: int) -> Seq<EmployeeShift>
    decreases n,
{
    if n <= 0 {
        Seq::empty()
    } else {
        let prev = spec_dedup_after(shifts, n - 1);
        let s = shifts[n - 1];
        if has_dkey(prev, s) {
            prev.update(dkey_index(prev, s), s)
        } else {
            prev.push(s)
        }
    }
}

/// The whole input deduplicated.
pub open spec fn spec_dedup(shifts: Seq<EmployeeShift>) -> Seq<EmployeeShift> {
    spec_dedup_after(shifts, shifts.len() as int)
}

/// With unique keys, any index holding the key is the key's index.
proof fn lemma_dkey_index_unique(sq: Seq<EmployeeShift>, j: int, s: EmployeeShift)
    requires
        dkeys_unique(sq),
        dkey_at(sq, j, s),
    ensures
        has_dkey(sq, s),
        dkey_index(sq, s) == j,
{
    assert(has_dkey(sq, s));
    let k = dkey_index(sq, s);
    assert(dkey_at(sq, k, s));
    if k != j {
        assert(same_dedup_key(sq[k], sq[j]));
        assert(false);
    }
}

/// Every well-formed, in-range collection stays so under deduplication,
/// and the deduplicated keys are unique.
proof fn lemma_dedup_preserves(shifts: Seq<EmployeeShift>, n: int)
    requires
        0 <= n <= shifts.len(),
        forall|i: int| 0 <= i < shifts.len() ==> (#[trigger] shifts[i]).wf(),
        forall|i: int| 0 <= i < shifts.len() ==> shift_in_range(#[trigger] shifts[i]),
    ensures
        dkeys_unique(spec_dedup_after(shifts, n)),
        forall|i: int|
            0 <= i < spec_dedup_after(shifts, n).len() ==> (#[trigger] spec_dedup_after(
                shifts,
                n,
            )[i]).wf(),
        forall|i: int|
            0 <= i < spec_dedup_after(shifts, n).len() ==> shift_in_range(
                #[trigger] spec_dedup_after(shifts, n)[i],
            ),
    decreases n,
{
    if n > 0 {
        lemma_dedup_preserves(shifts, n - 1);
        let prev = spec_dedup_after(shifts, n - 1);
        let s = shifts[n - 1];
        let cur = spec_dedup_after(shifts, n);
        if has_dkey(prev, s) {
            let j = dkey_index(prev, s);
            assert(dkey_at(prev, j, s));
            assert(forall|i: int| 0 <= i < cur.len() && i != j ==> cur[i] == prev[i]);
            assert(cur[j] == s);
            assert forall|a: int, b: int| 0 <= a < b < cur.len() implies !same_dedup_key(
                cur[a],
                cur[b],
            ) by {
                if a == j || b == j {
                    assert(same_dedup_key(prev[j], s));
                }
            }
        } else {
            assert forall|a: int, b: int| 0 <= a < b < cur.len() implies !same_dedup_key(
                cur[a],
                cur[b],
            ) by {
                if b == cur.len() - 1 {
                    assert(!dkey_at(prev, a, s));
                }
            }
        }
    }
}

/// Find the slot a shift would collide into, scanning from the front.
fn find_dedup_slot(ded: &Vec<EmployeeShift>, s: &EmployeeShift) -> (r: Option<usize>)
    requires
        dkeys_unique(ded@),
    ensures
        r matches Some(j) ==> dkey_at(ded@, j as int, *s) && dkey_index(ded@, *s) == j as int,
        r is None ==> !has_dkey(ded@, *s),
{
    let n = ded.len();
    let mut j: usize = 0;
    while j < n
        invariant
            n == ded@.len(),
            0 <= j <= n,
            dkeys_unique(ded@),
            forall|k: int| 0 <= k < j ==> !same_dedup_key(#[trigger] ded@[k], *s),
        decreases n - j,
    {
        let e = &ded[j];
        if e.employee_id == s.employee_id && e.shift_id == s.shift_id && e.start_time
            == s.start_time {
            proof {
                lemma_dkey_index_unique(ded@, j as int, *s);
            }
            return Some(j);
        }
        j = j + 1;
    }
    proof {
        assert forall|k: int| !dkey_at(ded@, k, *s) by {
            if 0 <= k < ded@.len() {
                assert(!same_dedup_key(ded@[k], *s));
            }
        }
    }
    None
}

/// Collapse colliding shifts: on a key collision the later record
/// replaces the earlier in place.
fn dedup_shifts(shifts: &Vec<EmployeeShift>) -> (r: Vec<EmployeeShift>)
    requires
        forall|i: int| 0 <= i < shifts@.len() ==> (#[trigger] shifts@[i]).wf(),
        forall|i: int| 0 <= i < shifts@.len() ==> shift_in_range(#[trigger] shifts@[i]),
    ensures
        r@ == spec_dedup(shifts@),
        dkeys_unique(r@),
        forall|i: int| 0 <= i < r@.len() ==> (#[trigger] r@[i]).wf(),
        forall|i: int| 0 <= i < r@.len() ==> shift_in_range(#[trigger] r@[i]),
{
    let n = shifts.len();
    let mut ded: Vec<EmployeeShift> = Vec::new();
    let mut i: usize = 0;
    while i < n
        invariant
            n == shifts@.len(),
            0 <= i <= n,
            forall|k: int| 0 <= k < shifts@.len() ==> (#[trigger] shifts@[k]).wf(),
            forall|k: int| 0 <= k < shifts@.len() ==> shift_in_range(#[trigger] shifts@[k]),
            ded@ == spec_dedup_after(shifts@, i as int),
            dkeys_unique(ded@),
        decreases n - i,
    {
        proof {
            lemma_dedup_preserves(shifts@, i as int);
            lemma_dedup_preserves(shifts@, i + 1);
        }
        let s = shifts[i];
        match find_dedup_slot(&ded, &s) {
            Some(j) => {
                let e = &mut ded[j];
                *e = s;
            },
            None => {
                ded.push(s);
            },
        }
        i = i + 1;
    }
    proof {
        lemma_dedup_preserves(shifts@, n as int);
    }
    ded
}

/// The shift at `i` touches the (`emp`, `wd`) summary key: it either
/// contributes minutes there or has its identifier recorded there.
pub open spec fn shift_touches(shifts: Seq<EmployeeShift>, i: int, emp: u64, wd: int) -> bool {
    let s = shifts[i];
    &&& s.employee_id == emp
    &&& (if conflicts_with_any(shifts, s) {
        shift_week(s) == wd
    } else if shift_spans(s) {
        shift_week(s) == wd || shift_end_week(s) == wd
    } else {
        shift_week(s) == wd
    })
}

/// The minutes the shift at `i` contributes to the (`emp`, `wd`) key: a
/// conflicting shift contributes nothing anywhere; a week-spanning shift
/// contributes its split parts to its two weeks; any other shift its
/// whole duration to its start week.
pub open spec fn shift_contribution(shifts: Seq<EmployeeShift>, i: int, emp: u64, wd: int) -> int {
    let s = shifts[i];
    if s.employee_id != emp || conflicts_with_any(shifts, s) {
        0
    } else if shift_spans(s) {
        (if shift_week(s) == wd {
            first_week_minutes(s)
        } else {
            0
        }) + (if shift_end_week(s) == wd {
            second_week_minutes(s)
        } else {
            0
        })
    } else if shift_week(s) == wd {
        whole_minutes(s)
    } else {
        0
    }
}

/// The (`emp`, `wd`) key's minutes after the first `n` shifts: each
/// shift's contribution counted exactly once.
pub open spec fn total_minutes(shifts: Seq<EmployeeShift>, n: int, emp: u64, wd: int) -> int
    decreases n,
{
    if n <= 0 {
        0
    } else {
        total_minutes(shifts, n - 1, emp, wd) + shift_contribution(shifts, n - 1, emp, wd)
    }
}

/// The (`emp`, `wd`) key's audit list after the first `n` shifts: the
/// identifiers of the employee's conflicting shifts whose start week is
/// `wd`, in input order.
pub open spec fn invalid_ids(shifts: Seq<EmployeeShift>, n: int, emp: u64, wd: int) -> Seq<u64>
    decreases n,
{
    if n <= 0 {
        Seq::empty()
    } else {
        let prev = invalid_ids(shifts, n - 1, emp, wd);
        let s = shifts[n - 1];
        if s.employee_id == emp && conflicts_with_any(shifts, s) && shift_week(s) == wd {
            prev.push(s.shift_id)
        } else {
            prev
        }
    }
}

/// Some shift among the first `n` touches the (`emp`, `wd`) key.
pub open spec fn touched(shifts: Seq<EmployeeShift>, n: int, emp: u64, wd: int) -> bool {
    exists|i: int| 0 <= i < n && #[trigger] shift_touches(shifts, i, emp, wd)
}

/// A shift spans a week boundary exactly when it starts and ends in
/// different weeks.
pub proof fn lemma_spans_different_weeks(s: EmployeeShift)
    ensures
        shift_spans(s) <==> shift_week(s) != shift_end_week(s),
{
    if shift_week(s) != shift_end_week(s) {
        lemma_midnight_injective(shift_week(s), shift_end_week(s));
    }
}

/// What aggregation computes, summary by summary: after the first `n`
/// shifts, the (`emp`, `wd`) summary exists exactly when some shift
/// touched that key, and then holds exactly the key's total contributed
/// minutes, its audit list in discovery order, and no overtime.
pub proof fn lemma_agg_characterization(shifts: Seq<EmployeeShift>, n: int, emp: u64, wd: int)
    requires
        0 <= n <= shifts.len(),
    ensures
        keys_unique(agg_after(shifts, n)),
        has_key(agg_after(shifts, n), emp, wd) <==> touched(shifts, n, emp, wd),
        has_key(agg_after(shifts, n), emp, wd) ==> ({
            let e = agg_after(shifts, n)[key_index(agg_after(shifts, n), emp, wd)];
            &&& e.minutes == total_minutes(shifts, n, emp, wd)
            &&& e.invalid == invalid_ids(shifts, n, emp, wd)
            &&& e.overtime == 0
            &&& e.employee_id == emp
            &&& e.week_day == wd
        }),
        !has_key(agg_after(shifts, n), emp, wd) ==> total_minutes(shifts, n, emp, wd) == 0
            && invalid_ids(shifts, n, emp, wd) == Seq::<u64>::empty(),
    decreases n,
{
    if n > 0 {
        lemma_agg_characterization(shifts, n - 1, emp, wd);
        let st = agg_after(shifts, n - 1);
        let st2 = agg_after(shifts, n);
        let s = shifts[n - 1];
        let sw = shift_week(s);
        let ew = shift_end_week(s);
        if conflicts_with_any(shifts, s) {
            lemma_add_invalid_effect(st, s.employee_id, sw, s.shift_id, emp, wd);
            lemma_add_invalid_unique(st, s.employee_id, sw, s.shift_id);
            if emp == s.employee_id && wd == sw {
                assert(shift_touches(shifts, n - 1, emp, wd));
                assert(touched(shifts, n, emp, wd));
            } else {
                assert(shift_contribution(shifts, n - 1, emp, wd) == 0);
                assert(touched(shifts, n, emp, wd) == touched(shifts, n - 1, emp, wd)) by {
                    if touched(shifts, n, emp, wd) {
                        let i = choose|i: int|
                            0 <= i < n && #[trigger] shift_touches(shifts, i, emp, wd);
                        if i == n - 1 {
                            assert(false);
                        } else {
                            assert(touched(shifts, n - 1, emp, wd));
                        }
                    }
                    if touched(shifts, n - 1, emp, wd) {
                        let i = choose|i: int|
                            0 <= i < n - 1 && #[trigger] shift_touches(shifts, i, emp, wd);
                        assert(shift_touches(shifts, i, emp, wd));
                        assert(touched(shifts, n, emp, wd));
                    }
                }
            }
        } else if shift_spans(s) {
            lemma_spans_different_weeks(s);
            let st1 = add_minutes(st, s.employee_id, sw, first_week_minutes(s));
            lemma_add_minutes_effect(st, s.employee_id, sw, first_week_minutes(s), emp, wd);
            lemma_add_minutes_unique(st, s.employee_id, sw, first_week_minutes(s));
            lemma_add_minutes_effect(st1, s.employee_id, ew, second_week_minutes(s), emp, wd);
            lemma_add_minutes_unique(st1, s.employee_id, ew, second_week_minutes(s));
            if emp == s.employee_id && (wd == sw || wd == ew) {
                assert(shift_touches(shifts, n - 1, emp, wd));
                assert(touched(shifts, n, emp, wd));
                if wd == sw {
                    lemma_add_minutes_effect(st, s.employee_id, sw, first_week_minutes(s), emp, wd);
                    assert(has_key(st1, emp, wd));
                }
            } else {
                assert(shift_contribution(shifts, n - 1, emp, wd) == 0);
                assert(touched(shifts, n, emp, wd) == touched(shifts, n - 1, emp, wd)) by {
                    if touched(shifts, n, emp, wd) {
                        let i = choose|i: int|
                            0 <= i < n && #[trigger] shift_touches(shifts, i, emp, wd);
                        if i == n - 1 {
                            assert(false);
                        } else {
                            assert(touched(shifts, n - 1, emp, wd));
                        }
                    }
                    if touched(shifts, n - 1, emp, wd) {
                        let i = choose|i: int|
                            0 <= i < n - 1 && #[trigger] shift_touches(shifts, i, emp, wd);
                        assert(shift_touches(shifts, i, emp, wd));
                        assert(touched(shifts, n, emp, wd));
                    }
                }
            }
        } else {
            lemma_add_minutes_effect(st, s.employee_id, sw, whole_minutes(s), emp, wd);
            lemma_add_minutes_unique(st, s.employee_id, sw, whole_minutes(s));
            if emp == s.employee_id && wd == sw {
                assert(shift_touches(shifts, n - 1, emp, wd));
                assert(touched(shifts, n, emp, wd));
            } else {
                assert(shift_contribution(shifts, n - 1, emp, wd) == 0);
                assert(touched(shifts, n, emp, wd) == touched(shifts, n - 1, emp, wd)) by {
                    if touched(shifts, n, emp, wd) {
                        let i = choose|i: int|
                            0 <= i < n && #[trigger] shift_touches(shifts, i, emp, wd);
                        if i == n - 1 {
                            assert(false);
                        } else {
                            assert(touched(shifts, n - 1, emp, wd));
                        }
                    }
                    if touched(shifts, n - 1, emp, wd) {
                        let i = choose|i: int|
                            0 <= i < n - 1 && #[trigger] shift_touches(shifts, i, emp, wd);
                        assert(shift_touches(shifts, i, emp, wd));
                        assert(touched(shifts, n, emp, wd));
                    }
                }
            }
        }
    }
}

/// Every summary in the vector is well-formed.
pub open spec fn summaries_wf(v: Seq<EmployeeShiftSummary>) -> bool {
    forall|i: int| 0 <= i < v.len() ==> (#[trigger] v[i]).wf()
}

/// Every entry's accumulated minutes stay within `c` in magnitude.
pub open spec fn minutes_bounded(st: Seq<SummaryModel>, c: int) -> bool {
    forall|i: int| 0 <= i < st.len() ==> -c <= (#[trigger] st[i]).minutes <= c
}

proof fn lemma_views_update(v: Seq<EmployeeShiftSummary>, j: int, x: EmployeeShiftSummary)
    requires
        0 <= j < v.len(),
    ensures
        views_of(v.update(j, x)) == views_of(v).update(j, x@),
{
    assert(views_of(v.update(j, x)) =~= views_of(v).update(j, x@));
}

proof fn lemma_views_push(v: Seq<EmployeeShiftSummary>, x: EmployeeShiftSummary)
    ensures
        views_of(v.push(x)) == views_of(v).push(x@),
{
    assert(views_of(v.push(x)) =~= views_of(v).push(x@));
}

/// Adding minutes moves an entry's total by at most the amount added.
proof fn lemma_add_minutes_bound(st: Seq<SummaryModel>, emp: u64, wd: int, m: int, c: int, b: int)
    requires
        minutes_bounded(st, c),
        -b <= m <= b,
        0 <= c,
        0 <= b,
    ensures
        minutes_bounded(add_minutes(st, emp, wd, m), c + b),
{
    let st2 = add_minutes(st, emp, wd, m);
    if has_key(st, emp, wd) {
        let j = key_index(st, emp, wd);
        assert(is_key_at(st, j, emp, wd));
        assert forall|i: int| 0 <= i < st2.len() implies -(c + b) <= (#[trigger] st2[i]).minutes
            <= c + b by {
            assert(st[i].minutes <= c && st[i].minutes >= -c);
        }
    } else {
        assert forall|i: int| 0 <= i < st2.len() implies -(c + b) <= (#[trigger] st2[i]).minutes
            <= c + b by {
            if i < st.len() {
                assert(st[i].minutes <= c && st[i].minutes >= -c);
            }
        }
    }
}

/// Recording an invalid shift never changes any entry's minutes bound.
proof fn lemma_add_invalid_bound(st: Seq<SummaryModel>, emp: u64, wd: int, id: u64, c: int)
    requires
        minutes_bounded(st, c),
        0 <= c,
    ensures
        minutes_bounded(add_invalid(st, emp, wd, id), c),
{
    let st2 = add_invalid(st, emp, wd, id);
    if has_key(st, emp, wd) {
        let j = key_index(st, emp, wd);
        assert(is_key_at(st, j, emp, wd));
        assert forall|i: int| 0 <= i < st2.len() implies -c <= (#[trigger] st2[i]).minutes
            <= c by {
            assert(st[i].minutes <= c && st[i].minutes >= -c);
        }
    } else {
        assert forall|i: int| 0 <= i < st2.len() implies -c <= (#[trigger] st2[i]).minutes
            <= c by {
            if i < st.len() {
                assert(st[i].minutes <= c && st[i].minutes >= -c);
            }
        }
    }
}

/// Adding minutes keeps the keys unique.
proof fn lemma_add_minutes_unique(st: Seq<SummaryModel>, emp: u64, wd: int, m: int)
    requires
        keys_unique(st),
    ensures
        keys_unique(add_minutes(st, emp, wd, m)),
{
    let st2 = add_minutes(st, emp, wd, m);
    if has_key(st, emp, wd) {
        let j = key_index(st, emp, wd);
        assert(is_key_at(st, j, emp, wd));
        assert forall|a: int, b: int| 0 <= a < b < st2.len() implies !((#[trigger] st2[a]).employee_id
            == (#[trigger] st2[b]).employee_id && st2[a].week_day == st2[b].week_day) by {
            assert(st2[a].employee_id == st[a].employee_id && st2[a].week_day == st[a].week_day);
            assert(st2[b].employee_id == st[b].employee_id && st2[b].week_day == st[b].week_day);
        }
    } else {
        assert forall|a: int, b: int| 0 <= a < b < st2.len() implies !((#[trigger] st2[a]).employee_id
            == (#[trigger] st2[b]).employee_id && st2[a].week_day == st2[b].week_day) by {
            if b == st.len() {
                assert(!is_key_at(st, a, emp, wd));
            }
        }
    }
}

/// Recording an invalid shift keeps the keys unique.
proof fn lemma_add_invalid_unique(st: Seq<SummaryModel>, emp: u64, wd: int, id: u64)
    requires
        keys_unique(st),
    ensures
        keys_unique(add_invalid(st, emp, wd, id)),
{
    let st2 = add_invalid(st, emp, wd, id);
    if has_key(st, emp, wd) {
        let j = key_index(st, emp, wd);
        assert(is_key_at(st, j, emp, wd));
        assert forall|a: int, b: int| 0 <= a < b < st2.len() implies !((#[trigger] st2[a]).employee_id
            == (#[trigger] st2[b]).employee_id && st2[a].week_day == st2[b].week_day) by {
            assert(st2[a].employee_id == st[a].employee_id && st2[a].week_day == st[a].week_day);
            assert(st2[b].employee_id == st[b].employee_id && st2[b].week_day == st[b].week_day);
        }
    } else {
        assert forall|a: int, b: int| 0 <= a < b < st2.len() implies !((#[trigger] st2[a]).employee_id
            == (#[trigger] st2[b]).employee_id && st2[a].week_day == st2[b].week_day) by {
            if b == st.len() {
                assert(!is_key_at(st, a, emp, wd));
            }
        }
    }
}

/// What `add_minutes` does to the entry of an arbitrary key: the
/// addressed key gains `m` minutes (its entry created with `m` if
/// absent), every other key's entry is untouched.
pub proof fn lemma_add_minutes_effect(
    st: Seq<SummaryModel>,
    emp: u64,
    wd: int,
    m: int,
    emp2: u64,
    wd2: int,
)
    requires
        keys_unique(st),
    ensures
        ({
            let st2 = add_minutes(st, emp, wd, m);
            &&& (emp2 == emp && wd2 == wd) ==> {
                &&& has_key(st2, emp2, wd2)
                &&& (has_key(st, emp2, wd2) ==> {
                    let j = key_index(st, emp2, wd2);
                    &&& key_index(st2, emp2, wd2) == j
                    &&& st2[j].minutes == st[j].minutes + m
                    &&& st2[j].invalid == st[j].invalid
                    &&& st2[j].overtime == st[j].overtime
                })
                &&& (!has_key(st, emp2, wd2) ==> {
                    let j = key_index(st2, emp2, wd2);
                    &&& j == st.len()
                    &&& st2[j].minutes == m
                    &&& st2[j].invalid == Seq::<u64>::empty()
                    &&& st2[j].overtime == 0
                })
            }
            &&& !(emp2 == emp && wd2 == wd) ==> {
                &&& has_key(st2, emp2, wd2) == has_key(st, emp2, wd2)
                &&& (has_key(st, emp2, wd2) ==> {
                    let j = key_index(st, emp2, wd2);
                    &&& key_index(st2, emp2, wd2) == j
                    &&& st2[j] == st[j]
                })
            }
        }),
{
    let st2 = add_minutes(st, emp, wd, m);
    lemma_add_minutes_unique(st, emp, wd, m);
    if has_key(st, emp, wd) {
        let j0 = key_index(st, emp, wd);
        assert(is_key_at(st, j0, emp, wd));
        if emp2 == emp && wd2 == wd {
            lemma_key_index_unique(st2, j0, emp2, wd2);
        } else {
            if has_key(st, emp2, wd2) {
                let j = key_index(st, emp2, wd2);
                assert(is_key_at(st, j, emp2, wd2));
                assert(j != j0);
                lemma_key_index_unique(st2, j, emp2, wd2);
            }
            if has_key(st2, emp2, wd2) {
                let j = key_index(st2, emp2, wd2);
                assert(is_key_at(st2, j, emp2, wd2));
                assert(j != j0);
                assert(is_key_at(st, j, emp2, wd2));
            }
        }
    } else {
        if emp2 == emp && wd2 == wd {
            assert(is_key_at(st2, st.len() as int, emp2, wd2));
            lemma_key_index_unique(st2, st.len() as int, emp2, wd2);
            if has_key(st, emp2, wd2) {
                let j = key_index(st, emp2, wd2);
                assert(is_key_at(st, j, emp2, wd2));
                assert(false);
            }
        } else {
            if has_key(st, emp2, wd2) {
                let j = key_index(st, emp2, wd2);
                assert(is_key_at(st, j, emp2, wd2));
                assert(is_key_at(st2, j, emp2, wd2));
                lemma_key_index_unique(st2, j, emp2, wd2);
            }
            if has_key(st2, emp2, wd2) {
                let j = key_index(st2, emp2, wd2);
                assert(is_key_at(st2, j, emp2, wd2));
                assert(j != st.len());
                assert(is_key_at(st, j, emp2, wd2));
            }
        }
    }
}

/// What `add_invalid` does to the entry of an arbitrary key: the
/// addressed key's audit list gains `id` (its entry created with the
/// one-element list if absent), every other key's entry is untouched.
pub proof fn lemma_add_invalid_effect(
    st: Seq<SummaryModel>,
    emp: u64,
    wd: int,
    id: u64,
    emp2: u64,
    wd2: int,
)
    requires
        keys_unique(st),
    ensures
        ({
            let st2 = add_invalid(st, emp, wd, id);
            &&& (emp2 == emp && wd2 == wd) ==> {
                &&& has_key(st2, emp2, wd2)
                &&& (has_key(st, emp2, wd2) ==> {
                    let j = key_index(st, emp2, wd2);
                    &&& key_index(st2, emp2, wd2) == j
                    &&& st2[j].minutes == st[j].minutes
                    &&& st2[j].invalid == st[j].invalid.push(id)
                    &&& st2[j].overtime == st[j].overtime
                })
                &&& (!has_key(st, emp2, wd2) ==> {
                    let j = key_index(st2, emp2, wd2);
                    &&& j == st.len()
                    &&& st2[j].minutes == 0
                    &&& st2[j].invalid == seq![id]
                    &&& st2[j].overtime == 0
                })
            }
            &&& !(emp2 == emp && wd2 == wd) ==> {
                &&& has_key(st2, emp2, wd2) == has_key(st, emp2, wd2)
                &&& (has_key(st, emp2, wd2) ==> {
                    let j = key_index(st, emp2, wd2);
                    &&& key_index(st2, emp2, wd2) == j
                    &&& st2[j] == st[j]
                })
            }
        }),
{
    let st2 = add_invalid(st, emp, wd, id);
    lemma_add_invalid_unique(st, emp, wd, id);
    if has_key(st, emp, wd) {
        let j0 = key_index(st, emp, wd);
        assert(is_key_at(st, j0, emp, wd));
        if emp2 == emp && wd2 == wd {
            lemma_key_index_unique(st2, j0, emp2, wd2);
        } else {
            if has_key(st, emp2, wd2) {
                let j = key_index(st, emp2, wd2);
                assert(is_key_at(st, j, emp2, wd2));
                assert(j != j0);
                lemma_key_index_unique(st2, j, emp2, wd2);
            }
            if has_key(st2, emp2, wd2) {
                let j = key_index(st2, emp2, wd2);
                assert(is_key_at(st2, j, emp2, wd2));
                assert(j != j0);
                assert(is_key_at(st, j, emp2, wd2));
            }
        }
    } else {
        if emp2 == emp && wd2 == wd {
            assert(is_key_at(st2, st.len() as int, emp2, wd2));
            lemma_key_index_unique(st2, st.len() as int, emp2, wd2);
            if has_key(st, emp2, wd2) {
                let j = key_index(st, emp2, wd2);
                assert(is_key_at(st, j, emp2, wd2));
                assert(false);
            }
        } else {
            if has_key(st, emp2, wd2) {
                let j = key_index(st, emp2, wd2);
                assert(is_key_at(st, j, emp2, wd2));
                assert(is_key_at(st2, j, emp2, wd2));
                lemma_key_index_unique(st2, j, emp2, wd2);
            }
            if has_key(st2, emp2, wd2) {
                let j = key_index(st2, emp2, wd2);
                assert(is_key_at(st2, j, emp2, wd2));
                assert(j != st.len());
                assert(is_key_at(st, j, emp2, wd2));
            }
        }
    }
}

/// Find the slot holding the (`emp`, `wd`) key, scanning from the front.
fn find_summary_slot(out: &Vec<EmployeeShiftSummary>, emp: u64, wd: i64) -> (r: Option<usize>)
    requires
        keys_unique(views_of(out@)),
    ensures
        r matches Some(j) ==> is_key_at(views_of(out@), j as int, emp, wd as int) && key_index(
            views_of(out@),
            emp,
            wd as int,
        ) == j as int,
        r is None ==> !has_key(views_of(out@), emp, wd as int),
{
    let n = out.len();
    let mut j: usize = 0;
    while j < n
        invariant
            n == out@.len(),
            0 <= j <= n,
            keys_unique(views_of(out@)),
            forall|k: int|
                0 <= k < j ==> !((#[trigger] views_of(out@)[k]).employee_id == emp && views_of(
                    out@,
                )[k].week_day == wd as int),
        decreases n - j,
    {
        let e = &out[j];
        if e.employee_id == emp && e.week_start_day == wd {
            proof {
                assert(views_of(out@)[j as int] == out@[j as int]@);
                lemma_key_index_unique(views_of(out@), j as int, emp, wd as int);
            }
            return Some(j);
        }
        proof {
            assert(views_of(out@)[j as int] == out@[j as int]@);
        }
        j = j + 1;
    }
    proof {
        assert forall|k: int| !is_key_at(views_of(out@), k, emp, wd as int) by {
            if 0 <= k < out@.len() {
                assert(!((views_of(out@)[k]).employee_id == emp && views_of(out@)[k].week_day
                    == wd as int));
            }
        }
    }
    None
}

/// Add `m` minutes to the (`emp`, `wd`) summary, creating it lazily.
fn add_minutes_exec(out: &mut Vec<EmployeeShiftSummary>, emp: u64, wd: i64, date: Date, m: i64)
    requires
        keys_unique(views_of(old(out)@)),
        summaries_wf(old(out)@),
        minutes_bounded(views_of(old(out)@), AGG_MINUTES_CAP as int),
        -MINUTES_BOUND <= m <= MINUTES_BOUND,
        date.valid(),
        date.day_number() == wd as int,
        -DAY_NUMBER_BOUND <= wd <= DAY_NUMBER_BOUND,
    ensures
        views_of(final(out)@) == add_minutes(views_of(old(out)@), emp, wd as int, m as int),
        summaries_wf(final(out)@),
{
    let ghost st0 = views_of(out@);
    match find_summary_slot(out, emp, wd) {
        Some(j) => {
            let e = &mut out[j];
            let cur = e.regular_minutes;
            proof {
                assert(st0[j as int] == old(out)@[j as int]@);
            }
            e.regular_minutes = cur + (m as i128);
            proof {
                lemma_views_update(old(out)@, j as int, out@[j as int]);
                assert(views_of(out@)[j as int] =~~= add_minutes(st0, emp, wd as int, m as int)[j as int]);
                assert(views_of(out@) =~~= add_minutes(st0, emp, wd as int, m as int));
            }
        },
        None => {
            let entry = EmployeeShiftSummary {
                employee_id: emp,
                week_start_day: wd,
                week_start: date,
                regular_minutes: m as i128,
                overtime_minutes: 0,
                invalid_shifts: Vec::new(),
            };
            proof {
                assert(entry@.invalid =~= Seq::<u64>::empty());
            }
            out.push(entry);
            proof {
                lemma_views_push(old(out)@, out@[out@.len() - 1]);
                assert(views_of(out@) =~~= add_minutes(st0, emp, wd as int, m as int));
            }
        },
    }
}

/// Append `id` to the audit list of the (`emp`, `wd`) summary, creating
/// it lazily with zero hours.
fn add_invalid_exec(out: &mut Vec<EmployeeShiftSummary>, emp: u64, wd: i64, date: Date, id: u64)
    requires
        keys_unique(views_of(old(out)@)),
        summaries_wf(old(out)@),
        date.valid(),
        date.day_number() == wd as int,
        -DAY_NUMBER_BOUND <= wd <= DAY_NUMBER_BOUND,
    ensures
        views_of(final(out)@) == add_invalid(views_of(old(out)@), emp, wd as int, id),
        summaries_wf(final(out)@),
{
    let ghost st0 = views_of(out@);
    match find_summary_slot(out, emp, wd) {
        Some(j) => {
            let e = &mut out[j];
            proof {
                assert(st0[j as int] == old(out)@[j as int]@);
            }
            e.invalid_shifts.push(id);
            proof {
                lemma_views_update(old(out)@, j as int, out@[j as int]);
                assert(views_of(out@)[j as int] =~~= add_invalid(st0, emp, wd as int, id)[j as int]);
                assert(views_of(out@) =~~= add_invalid(st0, emp, wd as int, id));
            }
        },
        None => {
            let mut ids: Vec<u64> = Vec::new();
            ids.push(id);
            let entry = EmployeeShiftSummary {
                employee_id: emp,
                week_start_day: wd,
                week_start: date,
                regular_minutes: 0,
                overtime_minutes: 0,
                invalid_shifts: ids,
            };
            proof {
                assert(entry@.invalid =~= seq![id]);
            }
            out.push(entry);
            proof {
                lemma_views_push(old(out)@, out@[out@.len() - 1]);
                assert(views_of(out@) =~~= add_invalid(st0, emp, wd as int, id));
            }
        },
    }
}

/// Aggregate validated shifts into one summary per (employee, work
/// week): shifts are first collapsed by the (employee, shift, start)
/// key, then each surviving shift either has its identifier recorded as
/// invalid (when it overlaps another shift of its employee) or
/// contributes its whole minutes to the week(s) its interval spans,
/// split at the week boundary when it crosses one.  Regular hours are
/// not yet capped: every summary leaves with zero overtime.
pub fn summarize_all_employee_hours(shifts: Vec<EmployeeShift>) -> (r: Vec<EmployeeShiftSummary>)
    requires
        forall|i: int| 0 <= i < shifts@.len() ==> (#[trigger] shifts@[i]).wf(),
        forall|i: int| 0 <= i < shifts@.len() ==> shift_in_range(#[trigger] shifts@[i]),
    ensures
        views_of(r@) == agg_after(spec_dedup(shifts@), spec_dedup(shifts@).len() as int),
        summaries_wf(r@),
        keys_unique(views_of(r@)),
{
    let ded = dedup_shifts(&shifts);
    let n = ded.len();
    let mut out: Vec<EmployeeShiftSummary> = Vec::new();
    let mut k: usize = 0;
    while k < n
        invariant
            n == ded@.len(),
            0 <= k <= n,
            ded@ == spec_dedup(shifts@),
            dkeys_unique(ded@),
            forall|i: int| 0 <= i < ded@.len() ==> (#[trigger] ded@[i]).wf(),
            forall|i: int| 0 <= i < ded@.len() ==> shift_in_range(#[trigger] ded@[i]),
            views_of(out@) == agg_after(ded@, k as int),
            summaries_wf(out@),
            keys_unique(views_of(out@)),
            minutes_bounded(views_of(out@), 2 * (k as int) * (MINUTES_BOUND as int)),
        decreases n - k,
    {
        let s = ded[k];
        let ghost st0 = views_of(out@);
        proof {
            assert(2 * (k as int) * (MINUTES_BOUND as int) <= AGG_MINUTES_CAP as int - 2 * (
            MINUTES_BOUND as int));
        }
        let wd_start = central_week_day(&s.start_time);
        let conflict = does_shift_overlap_with_another_for_employee(&s, &ded);
        if conflict {
            let date_start = civil_from_days(wd_start);
            proof {
                lemma_add_invalid_unique(st0, s.employee_id, wd_start as int, s.shift_id);
                lemma_add_invalid_bound(
                    st0,
                    s.employee_id,
                    wd_start as int,
                    s.shift_id,
                    2 * (k as int) * (MINUTES_BOUND as int),
                );
            }
            add_invalid_exec(&mut out, s.employee_id, wd_start, date_start, s.shift_id);
        } else {
            let wd_end = central_week_day(&s.end_time);
            let sow_start = central_midnight_exec(wd_start);
            let sow_end = central_midnight_exec(wd_end);
            if sow_start != sow_end {
                let eow_start = central_midnight_exec(wd_start + 7);
                let boundary_end = Instant { secs: eow_start, nanos: 0 };
                let boundary_start = Instant { secs: sow_end, nanos: 0 };
                let m1 = minutes_between(&s.start_time, &boundary_end);
                let m2 = minutes_between(&boundary_start, &s.end_time);
                let date_start = civil_from_days(wd_start);
                let date_end = civil_from_days(wd_end);
                proof {
                    assert(m1 == first_week_minutes(s));
                    assert(m2 == second_week_minutes(s));
                    lemma_add_minutes_unique(st0, s.employee_id, wd_start as int, m1 as int);
                    lemma_add_minutes_bound(
                        st0,
                        s.employee_id,
                        wd_start as int,
                        m1 as int,
                        2 * (k as int) * (MINUTES_BOUND as int),
                        MINUTES_BOUND as int,
                    );
                }
                add_minutes_exec(&mut out, s.employee_id, wd_start, date_start, m1);
                proof {
                    let st1 = views_of(out@);
                    lemma_add_minutes_unique(st1, s.employee_id, wd_end as int, m2 as int);
                    lemma_add_minutes_bound(
                        st1,
                        s.employee_id,
                        wd_end as int,
                        m2 as int,
                        2 * (k as int) * (MINUTES_BOUND as int) + MINUTES_BOUND as int,
                        MINUTES_BOUND as int,
                    );
                }
                add_minutes_exec(&mut out, s.employee_id, wd_end, date_end, m2);
            } else {
                let m = minutes_between(&s.start_time, &s.end_time);
                let date_start = civil_from_days(wd_start);
                proof {
                    lemma_add_minutes_unique(st0, s.employee_id, wd_start as int, m as int);
                    lemma_add_minutes_bound(
                        st0,
                        s.employee_id,
                        wd_start as int,
                        m as int,
                        2 * (k as int) * (MINUTES_BOUND as int),
                        MINUTES_BOUND as int,
                    );
                }
                add_minutes_exec(&mut out, s.employee_id, wd_start, date_start, m);
            }
        }
        k = k + 1;
    }
    out
}

} // verus!

use crate::aggregate::summaries_wf;
use crate::summary::{EmployeeShiftSummary, OVERTIME_THRESHOLD_MINUTES, SummaryModel, cap_summary};
use vstd::prelude::*;

verus! {

/// All summaries, capped.
pub open spec fn cap_all(st: Seq<SummaryModel>) -> Seq<SummaryModel> {
    st.map_values(|s: SummaryModel| cap_summary(s))
}

/// One terminal pass over the summaries: wherever regular minutes exceed
/// the overtime threshold, the excess moves to overtime and regular
/// minutes are clamped to the threshold; summaries at or below the
/// threshold are untouched.
pub fn calculate_overtime_hours(summaries: &mut Vec<EmployeeShiftSummary>)
    ensures
        final(summaries)@.len() == old(summaries)@.len(),
        forall|i: int|
            0 <= i < old(summaries)@.len() ==> (#[trigger] final(summaries)@[i])@ == cap_summary(
                old(summaries)@[i]@,
            ),
        forall|i: int|
            0 <= i < old(summaries)@.len() ==> (#[trigger] final(summaries)@[i]).week_start == old(
                summaries,
            )@[i].week_start,
        summaries_wf(old(summaries)@) ==> summaries_wf(final(summaries)@),
{
    let n = summaries.len();
    let mut i: usize = 0;
    while i < n
        invariant
            n == old(summaries)@.len(),
            summaries@.len() == n,
            0 <= i <= n,
            forall|j: int|
                0 <= j < i ==> (#[trigger] summaries@[j])@ == cap_summary(old(summaries)@[j]@),
            forall|j: int|
                0 <= j < i ==> (#[trigger] summaries@[j]).week_start == old(
                    summaries,
                )@[j].week_start,
            forall|j: int| i <= j < n ==> #[trigger] summaries@[j] == old(summaries)@[j],
        decreases n - i,
    {
        let e = &mut summaries[i];
        if e.regular_minutes > OVERTIME_THRESHOLD_MINUTES as i128 {
            e.overtime_minutes = e.regular_minutes - (OVERTIME_THRESHOLD_MINUTES as i128);
            e.regular_minutes = OVERTIME_THRESHOLD_MINUTES as i128;
        }
        i = i + 1;
    }
    proof {
        assert forall|i2: int|
            0 <= i2 < old(summaries)@.len() && summaries_wf(old(summaries)@) implies (
        #[trigger] summaries@[i2]).wf() by {
            assert(summaries@[i2]@ == cap_summary(old(summaries)@[i2]@));
            assert((old(summaries)@[i2]).wf());
        }
    }
}

/// Capping is idempotent: a second pass changes nothing, since regular
/// minutes never exceed the threshold after the first.
pub proof fn lemma_overtime_cap_idempotent(st: Seq<SummaryModel>)
    ensures
        cap_all(cap_all(st)) == cap_all(st),
{
    assert(cap_all(cap_all(st)) =~~= cap_all(st));
}

/// What one capped summary looks like, for a summary that aggregation
/// produced (overtime still zero): regular minutes never exceed the
/// threshold, overtime is exactly the excess over it and never negative,
/// and the two together still hold the whole pre-cap total.
pub proof fn lemma_cap_invariant(s: SummaryModel)
    requires
        s.overtime == 0,
    ensures
        cap_summary(s).minutes <= OVERTIME_THRESHOLD_MINUTES as int,
        cap_summary(s).overtime == (if s.minutes > OVERTIME_THRESHOLD_MINUTES as int {
            s.minutes - OVERTIME_THRESHOLD_MINUTES as int
        } else {
            0
        }),
        cap_summary(s).overtime >= 0,
        cap_summary(s).minutes + cap_summary(s).overtime == s.minutes,
        cap_summary(s).employee_id == s.employee_id,
        cap_summary(s).week_day == s.week_day,
        cap_summary(s).invalid == s.invalid,
{
}

} // verus!

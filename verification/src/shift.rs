use crate::instant::{INSTANT_SECS_BOUND, Instant, NANOS_PER_SEC};
use vstd::prelude::*;

verus! {

/// A raw shift record as the outside world supplies it: identifiers and
/// the two timestamps still as strings.
#[derive(Debug)]
pub struct RawEmployeeShift {
    pub shift_id: u64,
    pub employee_id: u64,
    pub start_time: String,
    pub end_time: String,
}

/// A validated shift: both timestamps parsed to instants.  No ordering of
/// `end_time` against `start_time` is enforced: an end before the start
/// is accepted and later yields a negative duration.
#[derive(Clone, Copy, Debug, PartialEq, Eq, Structural)]
pub struct EmployeeShift {
    pub shift_id: u64,
    pub employee_id: u64,
    pub start_time: Instant,
    pub end_time: Instant,
}

impl EmployeeShift {
    pub open spec fn wf(self) -> bool {
        &&& self.start_time.wf()
        &&& self.end_time.wf()
    }
}

/// Which timestamp of a raw record failed to parse.
#[derive(Clone, Copy, Debug, PartialEq, Eq, Structural)]
pub enum TimestampField {
    Start,
    End,
}

/// Validation failure: a raw record whose start or end time is not a
/// well-formed RFC3339 timestamp, with the offending record attached.
#[derive(Debug)]
pub enum ShiftError {
    MalformedTimestamp { field: TimestampField, shift: RawEmployeeShift },
}

/// Names the value `chrono::DateTime::parse_from_rfc3339` gives a
/// timestamp string: `None` when parsing fails, else the instant's whole
/// seconds from the Unix epoch and its nanosecond part (which chrono
/// reports as 1_000_000_000 or more inside a leap second).
pub uninterp spec fn rfc3339_instant(s: Seq<char>) -> Option<(int, int)>;

/// Relies on chrono's `DateTime::parse_from_rfc3339`, `timestamp` and
/// `timestamp_subsec_nanos`: parsing depends on the string alone, every
/// parseable datetime lies within chrono's representable second range,
/// and the nanosecond part stays below two seconds.
#[verifier::external_body]
fn parse_rfc3339(s: &str) -> (r: Option<(i64, u32)>)
    ensures
        r matches Some(p) ==> {
            &&& rfc3339_instant(s@) == Some((p.0 as int, p.1 as int))
            &&& -INSTANT_SECS_BOUND < p.0 < INSTANT_SECS_BOUND
            &&& p.1 < 2_000_000_000
        },
        r is None ==> rfc3339_instant(s@) is None,
{
    match chrono::DateTime::parse_from_rfc3339(s) {
        Ok(dt) => Some((dt.timestamp(), dt.timestamp_subsec_nanos())),
        Err(_) => None,
    }
}

/// The instant `t` carries exactly the parsed value `p`: same total
/// nanoseconds from the epoch.  (A parsed leap second, nanosecond part
/// 1e9 or more, is folded into the following second, keeping the total.)
pub open spec fn is_parsed_instant(t: Instant, p: (int, int)) -> bool {
    t.total_nanos() == p.0 * (NANOS_PER_SEC as int) + p.1
}

/// The raw record's timestamps both parse.
pub open spec fn raw_parses(r: RawEmployeeShift) -> bool {
    &&& rfc3339_instant(r.start_time@) is Some
    &&& rfc3339_instant(r.end_time@) is Some
}

/// `s` is the validated form of the raw record `r`.
pub open spec fn validated_matches(s: EmployeeShift, r: RawEmployeeShift) -> bool {
    &&& s.shift_id == r.shift_id
    &&& s.employee_id == r.employee_id
    &&& s.wf()
    &&& (rfc3339_instant(r.start_time@) matches Some(p) && is_parsed_instant(s.start_time, p))
    &&& (rfc3339_instant(r.end_time@) matches Some(p) && is_parsed_instant(s.end_time, p))
}

/// `e` reports the validation failure of the raw record `r`: the start
/// field when the start time fails to parse, else the end field, with a
/// copy of the record attached.
pub open spec fn error_matches(e: ShiftError, r: RawEmployeeShift) -> bool {
    match e {
        ShiftError::MalformedTimestamp { field, shift } => {
            &&& shift.shift_id == r.shift_id
            &&& shift.employee_id == r.employee_id
            &&& shift.start_time@ == r.start_time@
            &&& shift.end_time@ == r.end_time@
            &&& field == (if rfc3339_instant(r.start_time@) is None {
                TimestampField::Start
            } else {
                TimestampField::End
            })
        },
    }
}

/// Fold a parsed (seconds, nanoseconds) pair into a well-formed instant,
/// carrying a whole second of the nanosecond part over if the pair names
/// a leap second.
fn instant_from_parts(secs: i64, nanos: u32) -> (t: Instant)
    requires
        -INSTANT_SECS_BOUND < secs < INSTANT_SECS_BOUND,
        nanos < 2_000_000_000,
    ensures
        t.wf(),
        t.total_nanos() == secs * (NANOS_PER_SEC as int) + nanos,
{
    if nanos >= 1_000_000_000 {
        let t = Instant { secs: secs + 1, nanos: nanos - 1_000_000_000 };
        proof {
            assert((secs + 1) * (NANOS_PER_SEC as int) == secs * (NANOS_PER_SEC as int)
                + NANOS_PER_SEC) by (nonlinear_arith);
        }
        t
    } else {
        Instant { secs, nanos }
    }
}

/// Validate one raw record: parse both timestamps, failing fast with the
/// field that is malformed.  No other validation is performed.
pub fn validate_shift(shift: &RawEmployeeShift) -> (r: Result<EmployeeShift, ShiftError>)
    ensures
        r is Ok <==> raw_parses(*shift),
        r matches Ok(s) ==> validated_matches(s, *shift),
        r matches Err(e) ==> error_matches(e, *shift),
{
    let start = parse_rfc3339(shift.start_time.as_str());
    let end = parse_rfc3339(shift.end_time.as_str());
    match (start, end) {
        (Some(sp), Some(ep)) => Ok(
            EmployeeShift {
                shift_id: shift.shift_id,
                employee_id: shift.employee_id,
                start_time: instant_from_parts(sp.0, sp.1),
                end_time: instant_from_parts(ep.0, ep.1),
            },
        ),
        (None, _) => Err(
            ShiftError::MalformedTimestamp {
                field: TimestampField::Start,
                shift: RawEmployeeShift {
                    shift_id: shift.shift_id,
                    employee_id: shift.employee_id,
                    start_time: shift.start_time.clone(),
                    end_time: shift.end_time.clone(),
                },
            },
        ),
        (Some(_), None) => Err(
            ShiftError::MalformedTimestamp {
                field: TimestampField::End,
                shift: RawEmployeeShift {
                    shift_id: shift.shift_id,
                    employee_id: shift.employee_id,
                    start_time: shift.start_time.clone(),
                    end_time: shift.end_time.clone(),
                },
            },
        ),
    }
}

/// Validate a whole batch, fail-fast: the first malformed record aborts
/// the batch with its error and no partial output.
pub fn validate_shifts(raw: &Vec<RawEmployeeShift>) -> (r: Result<Vec<EmployeeShift>, ShiftError>)
    ensures
        r is Ok <==> (forall|i: int| 0 <= i < raw@.len() ==> raw_parses(raw@[i])),
        r matches Ok(v) ==> {
            &&& v@.len() == raw@.len()
            &&& forall|i: int| 0 <= i < raw@.len() ==> validated_matches(v@[i], raw@[i])
        },
        r matches Err(e) ==> exists|i: int|
            {
                &&& 0 <= i < raw@.len()
                &&& !raw_parses(raw@[i])
                &&& (forall|j: int| 0 <= j < i ==> raw_parses(raw@[j]))
                &&& error_matches(e, raw@[i])
            },
{
    let mut out: Vec<EmployeeShift> = Vec::new();
    let mut k: usize = 0;
    while k < raw.len()
        invariant
            0 <= k <= raw@.len(),
            out@.len() == k,
            forall|j: int| 0 <= j < k ==> raw_parses(raw@[j]),
            forall|j: int| 0 <= j < k ==> validated_matches(out@[j], raw@[j]),
        decreases raw@.len() - k,
    {
        match validate_shift(&raw[k]) {
            Ok(s) => {
                out.push(s);
            },
            Err(e) => {
                return Err(e);
            },
        }
        k = k + 1;
    }
    Ok(out)
}

} // verus!

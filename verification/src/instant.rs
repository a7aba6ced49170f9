use vstd::arithmetic::div_mod::{lemma_div_denominator, lemma_fundamental_div_mod_converse};
use vstd::prelude::*;

verus! {

/// Bound, in seconds from the Unix epoch, on every instant the library
/// handles: wide enough for the whole datetime range the timestamp parser
/// can produce (roughly years -262144 to 262143).
pub const INSTANT_SECS_BOUND: i64 = 8_400_000_000_000;

pub const NANOS_PER_SEC: i64 = 1_000_000_000;

pub const NANOS_PER_MINUTE: i64 = 60_000_000_000;

/// Bound on the whole-minute duration between any two well-formed
/// instants.
pub const MINUTES_BOUND: i64 = 300_000_000_000;

/// A point in time: seconds since the Unix epoch (UTC) plus a sub-second
/// part in nanoseconds.  Ordering and durations are those of the
/// mathematical value `secs * 1_000_000_000 + nanos`.
#[derive(Clone, Copy, Debug, PartialEq, Eq, Structural)]
pub struct Instant {
    pub secs: i64,
    pub nanos: u32,
}

impl Instant {
    /// Well-formed: seconds in the representable range and the sub-second
    /// part below one second.
    pub open spec fn wf(self) -> bool {
        &&& -INSTANT_SECS_BOUND <= self.secs <= INSTANT_SECS_BOUND
        &&& self.nanos < NANOS_PER_SEC
    }

    /// Total nanoseconds from the epoch: the mathematical value of the
    /// instant.
    pub open spec fn total_nanos(self) -> int {
        self.secs * NANOS_PER_SEC + self.nanos
    }

    /// Strictly earlier than `other`.
    pub open spec fn spec_lt(self, other: Instant) -> bool {
        self.total_nanos() < other.total_nanos()
    }

    /// Strictly earlier than `other`, decided on the integer parts.
    pub fn is_before(&self, other: &Instant) -> (r: bool)
        requires
            self.wf(),
            other.wf(),
        ensures
            r == self.spec_lt(*other),
    {
        proof {
            lemma_total_nanos_order(*self, *other);
        }
        self.secs < other.secs || (self.secs == other.secs && self.nanos < other.nanos)
    }
}

/// The lexicographic order on (secs, nanos) agrees with the order of the
/// mathematical values, given that both sub-second parts are below 1 s.
proof fn lemma_total_nanos_order(a: Instant, b: Instant)
    requires
        a.nanos < NANOS_PER_SEC,
        b.nanos < NANOS_PER_SEC,
    ensures
        a.total_nanos() < b.total_nanos() <==> (a.secs < b.secs || (a.secs == b.secs
            && a.nanos < b.nanos)),
{
    if a.secs < b.secs {
        assert(a.secs * NANOS_PER_SEC + NANOS_PER_SEC <= b.secs * NANOS_PER_SEC) by (nonlinear_arith)
            requires
                a.secs + 1 <= b.secs,
        ;
    } else if b.secs < a.secs {
        assert(b.secs * NANOS_PER_SEC + NANOS_PER_SEC <= a.secs * NANOS_PER_SEC) by (nonlinear_arith)
            requires
                b.secs + 1 <= a.secs,
        ;
    }
}

/// Division rounding toward zero, the rounding that whole-minute duration
/// counting uses.
pub open spec fn div_toward_zero(a: int, b: int) -> int {
    if a >= 0 {
        a / b
    } else {
        -((-a) / b)
    }
}

/// Whole minutes from nanosecond value `a` to nanosecond value `b`,
/// truncated toward zero.
pub open spec fn minutes_from_nanos(a: int, b: int) -> int {
    div_toward_zero(b - a, NANOS_PER_MINUTE as int)
}

/// Duration from `s` to `e` in whole minutes, truncated toward zero
/// (negative when `e` precedes `s`: an unordered shift is accepted and
/// yields a negative duration).
pub open spec fn spec_minutes_between(s: Instant, e: Instant) -> int {
    minutes_from_nanos(s.total_nanos(), e.total_nanos())
}

/// Truncating toward zero by `b` and then by `c` equals truncating by
/// `b * c` in one step.
proof fn lemma_div_toward_zero_compose(a: int, b: int, c: int)
    requires
        b > 0,
        c > 0,
    ensures
        div_toward_zero(div_toward_zero(a, b), c) == div_toward_zero(a, b * c),
{
    if a >= 0 {
        lemma_div_denominator(a, b, c);
        assert(a / b >= 0) by (nonlinear_arith)
            requires
                a >= 0,
                b > 0,
        ;
    } else {
        lemma_div_denominator(-a, b, c);
        assert((-a) / b >= 0) by (nonlinear_arith)
            requires
                -a >= 0,
                b > 0,
        ;
        assert(b * c > 0) by (nonlinear_arith)
            requires
                b > 0,
                c > 0,
        ;
    }
}

/// Duration from `s` to `e` in whole minutes, truncated toward zero:
/// the difference is truncated to whole seconds first and then divided
/// by 60, so sub-minute remainders never count.
pub fn minutes_between(s: &Instant, e: &Instant) -> (m: i64)
    requires
        s.wf(),
        e.wf(),
    ensures
        m == spec_minutes_between(*s, *e),
        -MINUTES_BOUND <= m <= MINUTES_BOUND,
{
    let ghost d: int = e.total_nanos() - s.total_nanos();
    let mut ds: i64 = e.secs - s.secs;
    let mut dn: i64 = e.nanos as i64 - s.nanos as i64;
    proof {
        assert(ds * NANOS_PER_SEC + dn == d) by (nonlinear_arith)
            requires
                ds == e.secs - s.secs,
                dn == e.nanos - s.nanos,
                d == (e.secs * NANOS_PER_SEC + e.nanos) - (s.secs * NANOS_PER_SEC + s.nanos),
        ;
    }
    if dn < 0 {
        proof {
            assert((ds - 1) * NANOS_PER_SEC == ds * NANOS_PER_SEC - NANOS_PER_SEC)
                by (nonlinear_arith);
        }
        dn = dn + NANOS_PER_SEC;
        ds = ds - 1;
    }
    let secs_t: i64 = if ds >= 0 || dn == 0 {
        ds
    } else {
        ds + 1
    };
    proof {
        lemma_trunc_seconds(d, ds as int, dn as int, secs_t as int);
        lemma_div_toward_zero_compose(d, NANOS_PER_SEC as int, 60);
        assert(NANOS_PER_SEC * 60 == NANOS_PER_MINUTE);
    }
    let m: i64 = secs_t.checked_div(60).unwrap();
    proof {
        assert(m == div_toward_zero(secs_t as int, 60));
        lemma_trunc_small(secs_t as int, m as int);
    }
    m
}

/// With `d == ds * 1e9 + dn` and `0 <= dn < 1e9`, the whole-second part of
/// `d`, truncated toward zero, is `ds` when `d` is nonnegative or `dn` is
/// zero, else `ds + 1`.
proof fn lemma_trunc_seconds(d: int, ds: int, dn: int, secs_t: int)
    requires
        d == ds * NANOS_PER_SEC + dn,
        0 <= dn < NANOS_PER_SEC,
        secs_t == if ds >= 0 || dn == 0 {
            ds
        } else {
            ds + 1
        },
    ensures
        secs_t == div_toward_zero(d, NANOS_PER_SEC as int),
{
    let n: int = NANOS_PER_SEC as int;
    if ds >= 0 {
        assert(d >= 0) by (nonlinear_arith)
            requires
                d == ds * n + dn,
                ds >= 0,
                dn >= 0,
                n > 0,
        ;
        lemma_fundamental_div_mod_converse(d, n, ds, dn);
    } else if dn == 0 {
        assert(-d == (-ds) * n) by (nonlinear_arith)
            requires
                d == ds * n + 0,
        ;
        assert(d <= 0) by (nonlinear_arith)
            requires
                d == ds * n,
                ds < 0,
                n > 0,
        ;
        lemma_fundamental_div_mod_converse(-d, n, -ds, 0);
        if d == 0 {
        } else {
            assert(div_toward_zero(d, n) == -((-d) / n));
        }
    } else {
        assert(-d == (-ds - 1) * n + (n - dn)) by (nonlinear_arith)
            requires
                d == ds * n + dn,
        ;
        assert(-d > 0) by (nonlinear_arith)
            requires
                -d == (-ds - 1) * n + (n - dn),
                ds < 0,
                0 < dn < n,
        ;
        lemma_fundamental_div_mod_converse(-d, n, -ds - 1, n - dn);
        assert(div_toward_zero(d, n) == -((-d) / n));
    }
}

/// The quotient truncated toward zero, scaled back up, is no larger in
/// magnitude than the dividend.
proof fn lemma_trunc_small(x: int, m: int)
    requires
        m == div_toward_zero(x, 60),
    ensures
        x >= 0 ==> 0 <= m && m * 60 <= x,
        x <= 0 ==> m <= 0 && x <= m * 60,
{
    if x >= 0 {
        vstd::arithmetic::div_mod::lemma_fundamental_div_mod(x, 60);
        assert(0 <= x / 60 && (x / 60) * 60 <= x) by (nonlinear_arith)
            requires
                x >= 0,
                x == 60 * (x / 60) + x % 60,
                0 <= x % 60 < 60,
        ;
    } else {
        vstd::arithmetic::div_mod::lemma_fundamental_div_mod(-x, 60);
        assert(0 <= (-x) / 60 && ((-x) / 60) * 60 <= -x) by (nonlinear_arith)
            requires
                -x >= 0,
                -x == 60 * ((-x) / 60) + (-x) % 60,
                0 <= (-x) % 60 < 60,
        ;
    }
}

} // verus!

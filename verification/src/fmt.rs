use crate::calendar::Date;
use crate::summary::EmployeeShiftSummary;
use vstd::prelude::*;
use vstd::string::StringExecFns;

verus! {

pub open spec fn digit_char(d: int) -> char {
    if d == 0 {
        '0'
    } else if d == 1 {
        '1'
    } else if d == 2 {
        '2'
    } else if d == 3 {
        '3'
    } else if d == 4 {
        '4'
    } else if d == 5 {
        '5'
    } else if d == 6 {
        '6'
    } else if d == 7 {
        '7'
    } else if d == 8 {
        '8'
    } else {
        '9'
    }
}

/// The decimal digits of a nonnegative number, most significant first.
pub open spec fn dec_str(n: int) -> Seq<char>
    decreases n,
{
    if n < 10 {
        seq![digit_char(n)]
    } else {
        dec_str(n / 10).push(digit_char(n % 10))
    }
}

/// The decimal digits, zero-padded on the left to at least four places.
pub open spec fn pad4(n: int) -> Seq<char> {
    if n < 10 {
        seq!['0', '0', '0'] + dec_str(n)
    } else if n < 100 {
        seq!['0', '0'] + dec_str(n)
    } else if n < 1000 {
        seq!['0'] + dec_str(n)
    } else {
        dec_str(n)
    }
}

/// Exactly two decimal digits, for a number below 100.
pub open spec fn two_digits(n: int) -> Seq<char> {
    seq![digit_char(n / 10), digit_char(n % 10)]
}

/// The `YYYY-MM-DD` form of a date: the year zero-padded to at least
/// four digits (with a leading minus sign for years before year zero),
/// then the month and day, two digits each.
pub open spec fn date_string(d: Date) -> Seq<char> {
    let y = if d.year < 0 {
        seq!['-'] + pad4(-d.year as int)
    } else {
        pad4(d.year as int)
    };
    y + seq!['-'] + two_digits(d.month as int) + seq!['-'] + two_digits(d.day as int)
}

/// The one-character string of a decimal digit.
fn digit_str(d: u64) -> (r: &'static str)
    requires
        d < 10,
    ensures
        r@ == seq![digit_char(d as int)],
{
    let r: &'static str = if d == 0 {
        "0"
    } else if d == 1 {
        "1"
    } else if d == 2 {
        "2"
    } else if d == 3 {
        "3"
    } else if d == 4 {
        "4"
    } else if d == 5 {
        "5"
    } else if d == 6 {
        "6"
    } else if d == 7 {
        "7"
    } else if d == 8 {
        "8"
    } else {
        "9"
    };
    proof {
        reveal_strlit("0");
        reveal_strlit("1");
        reveal_strlit("2");
        reveal_strlit("3");
        reveal_strlit("4");
        reveal_strlit("5");
        reveal_strlit("6");
        reveal_strlit("7");
        reveal_strlit("8");
        reveal_strlit("9");
        assert(r@ =~= seq![digit_char(d as int)]);
    }
    r
}

/// The decimal digits of `n`, most significant first.
fn dec_string(n: u64) -> (s: String)
    ensures
        s@ == dec_str(n as int),
    decreases n,
{
    if n < 10 {
        digit_str(n).to_owned()
    } else {
        let mut s = dec_string(n / 10);
        s.append(digit_str(n % 10));
        proof {
            assert(s@ =~= dec_str(n as int));
        }
        s
    }
}

/// The decimal digits of `n`, zero-padded on the left to four places.
fn pad4_string(n: u64) -> (s: String)
    ensures
        s@ == pad4(n as int),
{
    let mut s = if n < 10 {
        let p: &str = "000";
        proof {
            reveal_strlit("000");
        }
        p.to_owned()
    } else if n < 100 {
        let p: &str = "00";
        proof {
            reveal_strlit("00");
        }
        p.to_owned()
    } else if n < 1000 {
        let p: &str = "0";
        proof {
            reveal_strlit("0");
        }
        p.to_owned()
    } else {
        String::new()
    };
    let d = dec_string(n);
    s.append(d.as_str());
    proof {
        assert(s@ =~= pad4(n as int));
    }
    s
}

/// Exactly two decimal digits of `n`.
fn two_digits_string(n: u64) -> (s: String)
    requires
        n < 100,
    ensures
        s@ == two_digits(n as int),
{
    let mut s = digit_str(n / 10).to_owned();
    s.append(digit_str(n % 10));
    proof {
        assert(s@ =~= two_digits(n as int));
    }
    s
}

/// Format a date as `YYYY-MM-DD`.
pub fn date_to_string(d: &Date) -> (s: String)
    requires
        d.valid(),
    ensures
        s@ == date_string(*d),
{
    let mut s = if d.year < 0 {
        let neg: &str = "-";
        proof {
            reveal_strlit("-");
        }
        let mut t = neg.to_owned();
        let y = pad4_string((-d.year) as u64);
        t.append(y.as_str());
        t
    } else {
        pad4_string(d.year as u64)
    };
    let dash: &str = "-";
    proof {
        reveal_strlit("-");
    }
    s.append(dash);
    let mm = two_digits_string(d.month as u64);
    s.append(mm.as_str());
    s.append(dash);
    let dd = two_digits_string(d.day as u64);
    s.append(dd.as_str());
    proof {
        assert(s@ =~= date_string(*d));
    }
    s
}

impl EmployeeShiftSummary {
    /// The work-week start date as a `YYYY-MM-DD` string.
    pub fn start_of_week(&self) -> (s: String)
        requires
            self.wf(),
        ensures
            s@ == date_string(self.week_start),
    {
        date_to_string(&self.week_start)
    }
}

} // verus!

use vstd::prelude::*;

verus! {

/// The decimal digit character for `d`.
pub open spec fn dec_digit(d: int) -> char {
    if d == 0 {
        '0'
    } else if d == 1 {
        '1'
    } else if d == 2 {
        '2'
    } else if d == 3 {
        '3'
    } else if d == 4 {
        '4'
    } else if d == 5 {
        '5'
    } else if d == 6 {
        '6'
    } else if d == 7 {
        '7'
    } else if d == 8 {
        '8'
    } else {
        '9'
    }
}

/// Decimal rendering of a non-negative integer, most significant digit first.
pub open spec fn spec_dec_str(n: int) -> Seq<char>
    decreases n,
{
    if n < 10 {
        seq![dec_digit(n)]
    } else {
        spec_dec_str(n / 10).push(dec_digit(n % 10))
    }
}

/// The one-character string for a decimal digit.
fn digit_str(d: u64) -> (r: &'static str)
    requires
        d < 10,
    ensures
        r@ == seq![dec_digit(d as int)],
{
    match d {
        0 => {
            proof {
                reveal_strlit("0");
            }
            let r = "0";
            assert(r@ =~= seq![dec_digit(0)]);
            r
        },
        1 => {
            proof {
                reveal_strlit("1");
            }
            let r = "1";
            assert(r@ =~= seq![dec_digit(1)]);
            r
        },
        2 => {
            proof {
                reveal_strlit("2");
            }
            let r = "2";
            assert(r@ =~= seq![dec_digit(2)]);
            r
        },
        3 => {
            proof {
                reveal_strlit("3");
            }
            let r = "3";
            assert(r@ =~= seq![dec_digit(3)]);
            r
        },
        4 => {
            proof {
                reveal_strlit("4");
            }
            let r = "4";
            assert(r@ =~= seq![dec_digit(4)]);
            r
        },
        5 => {
            proof {
                reveal_strlit("5");
            }
            let r = "5";
            assert(r@ =~= seq![dec_digit(5)]);
            r
        },
        6 => {
            proof {
                reveal_strlit("6");
            }
            let r = "6";
            assert(r@ =~= seq![dec_digit(6)]);
            r
        },
        7 => {
            proof {
                reveal_strlit("7");
            }
            let r = "7";
            assert(r@ =~= seq![dec_digit(7)]);
            r
        },
        8 => {
            proof {
                reveal_strlit("8");
            }
            let r = "8";
            assert(r@ =~= seq![dec_digit(8)]);
            r
        },
        _ => {
            proof {
                reveal_strlit("9");
            }
            let r = "9";
            assert(r@ =~= seq![dec_digit(9)]);
            r
        },
    }
}

/// Decimal rendering of a wide machine word.
pub fn u128_string(n: u128) -> (r: String)
    ensures
        r@ == spec_dec_str(n as int),
    decreases n,
{
    if n < 10 {
        let r = digit_str(n as u64).to_owned();
        r
    } else {
        let mut s = u128_string(n / 10);
        s.append(digit_str((n % 10) as u64));
        proof {
            assert(s@ =~= spec_dec_str(n as int));
        }
        s
    }
}

/// Decimal rendering of a machine word.
pub fn u64_string(n: u64) -> (r: String)
    ensures
        r@ == spec_dec_str(n as int),
{
    u128_string(n as u128)
}

/// Human-readable rendering of a millisecond count: whole minutes and seconds
/// past the minute mark, or seconds with a tenths digit below it.
pub open spec fn spec_format_duration(ms: int) -> Seq<char> {
    let secs = ms / 1000;
    let rem = ms % 1000;
    if secs > 60 {
        spec_dec_str(secs / 60) + "m "@ + spec_dec_str(secs % 60) + "s"@
    } else {
        spec_dec_str(secs) + "."@ + spec_dec_str(rem / 100) + "s"@
    }
}

/// Renders the analysis result for people; the layout itself lives with the
/// caller, only the duration formatting is interesting enough to state.
pub struct ReportGenerator;

impl ReportGenerator {
    /// Render a millisecond count the way the report prints durations.
    pub fn format_duration(millis: u64) -> (r: String)
        ensures
            r@ == spec_format_duration(millis as int),
    {
        let seconds = millis / 1000;
        let remaining_millis = millis % 1000;
        if seconds > 60 {
            let mut s = u64_string(seconds / 60);
            s.append("m ");
            s.append(u64_string(seconds % 60).as_str());
            s.append("s");
            proof {
                assert(s@ =~= spec_format_duration(millis as int));
            }
            s
        } else {
            let mut s = u64_string(seconds);
            s.append(".");
            s.append(u64_string(remaining_millis / 100).as_str());
            s.append("s");
            proof {
                assert(s@ =~= spec_format_duration(millis as int));
            }
            s
        }
    }
}

} // verus!

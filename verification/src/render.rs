use vstd::prelude::*;

use crate::stats::ResponseStats;

verus! {

/// The decimal digit character for `d < 10`.
pub open spec fn digit_char(d: nat) -> char {
    if d == 0 {
        '0'
    } else if d == 1 {
        '1'
    } else if d == 2 {
        '2'
    } else if d == 3 {
        '3'
    } else if d == 4 {
        '4'
    } else if d == 5 {
        '5'
    } else if d == 6 {
        '6'
    } else if d == 7 {
        '7'
    } else if d == 8 {
        '8'
    } else {
        '9'
    }
}

/// The decimal digits of `n`, most significant first, without leading
/// zeros (a single `'0'` for zero).
pub open spec fn dec_digits(n: nat) -> Seq<char>
    decreases n,
{
    if n < 10 {
        seq![digit_char(n)]
    } else {
        dec_digits(n / 10) + seq![digit_char(n % 10)]
    }
}

/// Three zero-padded decimal digits of a fraction `r < 1000`.
pub open spec fn frac_digits(r: nat) -> Seq<char> {
    seq![digit_char(r / 100), digit_char((r / 10) % 10), digit_char(r % 10)]
}

/// A duration of `n` nanoseconds rendered at the coarsest unit whose
/// integral part is nonzero, with three fixed decimals for seconds,
/// milliseconds and microseconds, and plain nanoseconds below that.
pub open spec fn pretty_nanos(n: nat) -> Seq<char> {
    if n >= 1_000_000_000 {
        dec_digits(n / 1_000_000_000) + seq!['.'] + frac_digits((n % 1_000_000_000) / 1_000_000)
            + seq!['s']
    } else if n >= 1_000_000 {
        dec_digits(n / 1_000_000) + seq!['.'] + frac_digits((n % 1_000_000) / 1_000) + seq![
            'm',
            's',
        ]
    } else if n >= 1_000 {
        dec_digits(n / 1_000) + seq!['.'] + frac_digits(n % 1_000) + seq!['u', 's']
    } else {
        dec_digits(n) + seq!['n', 's']
    }
}

/// The value of an optional duration field, zero when unset.
pub open spec fn or_zero(o: Option<u64>) -> nat {
    match o {
        Some(v) => v as nat,
        None => 0,
    }
}

/// The full one-line rendering of a statistics record; every unset field
/// renders as the zero duration.
pub open spec fn stats_text(s: ResponseStats) -> Seq<char> {
    seq!['m', 'i', 'n', ':', ' '] + pretty_nanos(or_zero(s.min)) + seq![' ', 'm', 'a', 'x', ':', ' ']
        + pretty_nanos(or_zero(s.max)) + seq![' ', 'a', 'v', 'g', ':', ' '] + pretty_nanos(
        or_zero(s.mean),
    ) + seq![' ', 's', 'd', ':', ' '] + pretty_nanos(or_zero(s.std_dev))
}

/// THE ZERO-RENDERING LAW. A record with no samples yet renders every
/// field as the zero duration, one defined text with nothing unset in it.
pub proof fn lemma_zero_stats_text()
    ensures
        stats_text(crate::stats::fresh_stats()) == "min: 0ns max: 0ns avg: 0ns sd: 0ns"@,
{
    reveal_strlit("min: 0ns max: 0ns avg: 0ns sd: 0ns");
    assert(pretty_nanos(0) == seq!['0'] + seq!['n', 's']);
    assert(stats_text(crate::stats::fresh_stats()) =~= "min: 0ns max: 0ns avg: 0ns sd: 0ns"@);
}

/// The one-character string for a decimal digit.
fn digit_str(d: u64) -> (s: &'static str)
    requires
        d < 10,
    ensures
        s@ == seq![digit_char(d as nat)],
{
    if d == 0 {
        proof {
            reveal_strlit("0");
            assert("0"@ =~= seq![digit_char(0)]);
        }
        "0"
    } else if d == 1 {
        proof {
            reveal_strlit("1");
            assert("1"@ =~= seq![digit_char(1)]);
        }
        "1"
    } else if d == 2 {
        proof {
            reveal_strlit("2");
            assert("2"@ =~= seq![digit_char(2)]);
        }
        "2"
    } else if d == 3 {
        proof {
            reveal_strlit("3");
            assert("3"@ =~= seq![digit_char(3)]);
        }
        "3"
    } else if d == 4 {
        proof {
            reveal_strlit("4");
            assert("4"@ =~= seq![digit_char(4)]);
        }
        "4"
    } else if d == 5 {
        proof {
            reveal_strlit("5");
            assert("5"@ =~= seq![digit_char(5)]);
        }
        "5"
    } else if d == 6 {
        proof {
            reveal_strlit("6");
            assert("6"@ =~= seq![digit_char(6)]);
        }
        "6"
    } else if d == 7 {
        proof {
            reveal_strlit("7");
            assert("7"@ =~= seq![digit_char(7)]);
        }
        "7"
    } else if d == 8 {
        proof {
            reveal_strlit("8");
            assert("8"@ =~= seq![digit_char(8)]);
        }
        "8"
    } else {
        proof {
            reveal_strlit("9");
            assert("9"@ =~= seq![digit_char(9)]);
        }
        "9"
    }
}

/// The decimal rendering of `n`, without leading zeros.
pub fn dec_string(n: u64) -> (s: String)
    ensures
        s@ == dec_digits(n as nat),
    decreases n,
{
    if n < 10 {
        digit_str(n).to_owned()
    } else {
        let mut s = dec_string(n / 10);
        s.append(digit_str(n % 10));
        proof {
            assert(s@ =~= dec_digits(n as nat));
        }
        s
    }
}

/// Appends a decimal point and the three zero-padded digits of `r < 1000`.
fn push_frac(s: &mut String, r: u64)
    requires
        r < 1000,
    ensures
        final(s)@ == old(s)@ + seq!['.'] + frac_digits(r as nat),
{
    proof {
        reveal_strlit(".");
        assert("."@ =~= seq!['.']);
    }
    s.append(".");
    s.append(digit_str(r / 100));
    s.append(digit_str((r / 10) % 10));
    s.append(digit_str(r % 10));
    proof {
        assert(s@ =~= old(s)@ + seq!['.'] + frac_digits(r as nat));
    }
}

/// Renders a duration of `n` nanoseconds as the spec `pretty_nanos` says.
pub fn pretty_nanos_text(n: u64) -> (s: String)
    ensures
        s@ == pretty_nanos(n as nat),
{
    if n >= 1_000_000_000 {
        let mut s = dec_string(n / 1_000_000_000);
        push_frac(&mut s, (n % 1_000_000_000) / 1_000_000);
        proof {
            reveal_strlit("s");
            assert("s"@ =~= seq!['s']);
        }
        s.append("s");
        proof {
            assert(s@ =~= pretty_nanos(n as nat));
        }
        s
    } else if n >= 1_000_000 {
        let mut s = dec_string(n / 1_000_000);
        push_frac(&mut s, (n % 1_000_000) / 1_000);
        proof {
            reveal_strlit("ms");
            assert("ms"@ =~= seq!['m', 's']);
        }
        s.append("ms");
        proof {
            assert(s@ =~= pretty_nanos(n as nat));
        }
        s
    } else if n >= 1_000 {
        let mut s = dec_string(n / 1_000);
        push_frac(&mut s, n % 1_000);
        proof {
            reveal_strlit("us");
            assert("us"@ =~= seq!['u', 's']);
        }
        s.append("us");
        proof {
            assert(s@ =~= pretty_nanos(n as nat));
        }
        s
    } else {
        let mut s = dec_string(n);
        proof {
            reveal_strlit("ns");
            assert("ns"@ =~= seq!['n', 's']);
        }
        s.append("ns");
        proof {
            assert(s@ =~= pretty_nanos(n as nat));
        }
        s
    }
}

impl ResponseStats {
    /// The one-line text of the record for display: minimum, maximum,
    /// mean and standard deviation, each pretty-printed, unset fields as
    /// the zero duration. A pure function of the record.
    pub fn to_text(&self) -> (s: String)
        ensures
            s@ == stats_text(*self),
    {
        proof {
            reveal_strlit("min: ");
            assert("min: "@ =~= seq!['m', 'i', 'n', ':', ' ']);
            reveal_strlit(" max: ");
            assert(" max: "@ =~= seq![' ', 'm', 'a', 'x', ':', ' ']);
            reveal_strlit(" avg: ");
            assert(" avg: "@ =~= seq![' ', 'a', 'v', 'g', ':', ' ']);
            reveal_strlit(" sd: ");
            assert(" sd: "@ =~= seq![' ', 's', 'd', ':', ' ']);
        }
        let mn = match self.min {
            Some(v) => v,
            None => 0,
        };
        let mx = match self.max {
            Some(v) => v,
            None => 0,
        };
        let mean = match self.mean {
            Some(v) => v,
            None => 0,
        };
        let sd = match self.std_dev {
            Some(v) => v,
            None => 0,
        };
        let mut s = "min: ".to_owned();
        s.append(pretty_nanos_text(mn).as_str());
        s.append(" max: ");
        s.append(pretty_nanos_text(mx).as_str());
        s.append(" avg: ");
        s.append(pretty_nanos_text(mean).as_str());
        s.append(" sd: ");
        s.append(pretty_nanos_text(sd).as_str());
        proof {
            assert(s@ =~= stats_text(*self));
        }
        s
    }
}

} // verus!

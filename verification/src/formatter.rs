use vstd::prelude::*;
use vstd::string::StringExecFns;

verus! {

/// The decimal digit character for a value below ten.
pub open spec fn spec_digit_char(d: int) -> char {
    if d == 0 {
        '0'
    } else if d == 1 {
        '1'
    } else if d == 2 {
        '2'
    } else if d == 3 {
        '3'
    } else if d == 4 {
        '4'
    } else if d == 5 {
        '5'
    } else if d == 6 {
        '6'
    } else if d == 7 {
        '7'
    } else if d == 8 {
        '8'
    } else {
        '9'
    }
}

/// The decimal digit characters of a nonnegative number, most significant
/// first, with no leading zeros (a lone zero for zero itself).
pub open spec fn spec_decimal(n: int) -> Seq<char>
    recommends
        n >= 0,
    decreases n,
{
    if n < 10 {
        seq![spec_digit_char(n)]
    } else {
        spec_decimal(n / 10).push(spec_digit_char(n % 10))
    }
}

/// The decimal digits of `n` left-padded with zeros to at least three
/// characters, the scoreboard convention.
pub open spec fn spec_padded3(n: int) -> Seq<char>
    recommends
        n >= 0,
{
    if n < 10 {
        seq!['0', '0'] + spec_decimal(n)
    } else if n < 100 {
        seq!['0'] + spec_decimal(n)
    } else {
        spec_decimal(n)
    }
}

/// The full scoreboard line for the two team counts, Moon first.
pub open spec fn spec_score_line(moon: int, sun: int) -> Seq<char> {
    "Moon "@ + spec_padded3(moon) + " | Sun "@ + spec_padded3(sun)
}

/// A one-character string for a decimal digit.
fn digit_str(d: u32) -> (s: &'static str)
    requires
        d < 10,
    ensures
        s@ == seq![spec_digit_char(d as int)],
{
    if d == 0 {
        proof {
            reveal_strlit("0");
        }
        "0"
    } else if d == 1 {
        proof {
            reveal_strlit("1");
        }
        "1"
    } else if d == 2 {
        proof {
            reveal_strlit("2");
        }
        "2"
    } else if d == 3 {
        proof {
            reveal_strlit("3");
        }
        "3"
    } else if d == 4 {
        proof {
            reveal_strlit("4");
        }
        "4"
    } else if d == 5 {
        proof {
            reveal_strlit("5");
        }
        "5"
    } else if d == 6 {
        proof {
            reveal_strlit("6");
        }
        "6"
    } else if d == 7 {
        proof {
            reveal_strlit("7");
        }
        "7"
    } else if d == 8 {
        proof {
            reveal_strlit("8");
        }
        "8"
    } else {
        proof {
            reveal_strlit("9");
        }
        "9"
    }
}

/// Appends the decimal digits of `n` to `out`, most significant first.
fn push_decimal(out: &mut String, n: u32)
    ensures
        final(out)@ == old(out)@ + spec_decimal(n as int),
    decreases n,
{
    if n < 10 {
        out.append(digit_str(n));
    } else {
        push_decimal(out, n / 10);
        out.append(digit_str(n % 10));
        proof {
            assert(final(out)@ =~= old(out)@ + spec_decimal(n as int));
        }
    }
}

/// Appends the zero-padded three-digit form of `n` to `out`.
fn push_padded3(out: &mut String, n: u32)
    ensures
        final(out)@ == old(out)@ + spec_padded3(n as int),
{
    if n < 10 {
        proof {
            reveal_strlit("00");
        }
        out.append("00");
        push_decimal(out, n);
        proof {
            assert("00"@ =~= seq!['0', '0']);
            assert(final(out)@ =~= old(out)@ + spec_padded3(n as int));
        }
    } else if n < 100 {
        proof {
            reveal_strlit("0");
        }
        out.append("0");
        push_decimal(out, n);
        proof {
            assert("0"@ =~= seq!['0']);
            assert(final(out)@ =~= old(out)@ + spec_padded3(n as int));
        }
    } else {
        push_decimal(out, n);
    }
}

/// Renders the scoreboard line for the two team counts: each count
/// zero-padded to three digits, joined as `Moon NNN | Sun NNN`.
pub fn format_squares_numbers(moon_squares: u32, sun_squares: u32) -> (r: String)
    ensures
        r@ == spec_score_line(moon_squares as int, sun_squares as int),
{
    let mut line = "Moon ".to_owned();
    push_padded3(&mut line, moon_squares);
    line.append(" | Sun ");
    push_padded3(&mut line, sun_squares);
    proof {
        assert(line@ =~= spec_score_line(moon_squares as int, sun_squares as int));
    }
    line
}

} // verus!

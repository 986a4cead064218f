//! Numbers written out in decimal, for the notes that the audit log keeps.

use vstd::prelude::*;

verus! {

/// The character of a decimal digit.
pub open spec fn digit_char(digit: int) -> char {
    if digit == 0 {
        '0'
    } else if digit == 1 {
        '1'
    } else if digit == 2 {
        '2'
    } else if digit == 3 {
        '3'
    } else if digit == 4 {
        '4'
    } else if digit == 5 {
        '5'
    } else if digit == 6 {
        '6'
    } else if digit == 7 {
        '7'
    } else if digit == 8 {
        '8'
    } else {
        '9'
    }
}

/// The decimal digits of `n`, the most significant first, without leading
/// zeros.
pub open spec fn decimal_digits(n: nat) -> Seq<char>
    decreases n,
{
    if n < 10 {
        seq![digit_char(n as int)]
    } else {
        decimal_digits(n / 10).push(digit_char((n % 10) as int))
    }
}

/// `n` in decimal, with a minus sign before a negative number.
pub open spec fn decimal(n: int) -> Seq<char> {
    if n < 0 {
        seq!['-'] + decimal_digits((-n) as nat)
    } else {
        decimal_digits(n as nat)
    }
}

fn digit(d: u128) -> (text: &'static str)
    requires
        d < 10,
    ensures
        text@ == seq![digit_char(d as int)],
{
    proof {
        reveal_strlit("0");
        reveal_strlit("1");
        reveal_strlit("2");
        reveal_strlit("3");
        reveal_strlit("4");
        reveal_strlit("5");
        reveal_strlit("6");
        reveal_strlit("7");
        reveal_strlit("8");
        reveal_strlit("9");
    }
    let text = if d == 0 {
        "0"
    } else if d == 1 {
        "1"
    } else if d == 2 {
        "2"
    } else if d == 3 {
        "3"
    } else if d == 4 {
        "4"
    } else if d == 5 {
        "5"
    } else if d == 6 {
        "6"
    } else if d == 7 {
        "7"
    } else if d == 8 {
        "8"
    } else {
        "9"
    };
    assert(text@ =~= seq![digit_char(d as int)]);
    text
}

fn append_digits(out: &mut String, n: u128)
    ensures
        final(out)@ == old(out)@ + decimal_digits(n as nat),
    decreases n,
{
    if n >= 10 {
        append_digits(out, n / 10);
    }
    out.append(digit(n % 10));
    proof {
        if n >= 10 {
            assert(out@ =~= old(out)@ + decimal_digits(n as nat));
        } else {
            assert(out@ =~= old(out)@ + decimal_digits(n as nat));
        }
    }
}

/// Appends `n` in decimal to `out`.
pub fn append_decimal(out: &mut String, n: i128)
    ensures
        final(out)@ == old(out)@ + decimal(n as int),
{
    if n < 0 {
        proof {
            reveal_strlit("-");
        }
        out.append("-");
        let magnitude: u128 = (-(n + 1)) as u128 + 1;
        append_digits(out, magnitude);
        proof {
            assert("-"@ =~= seq!['-']);
            assert(out@ =~= old(out)@ + decimal(n as int));
        }
    } else {
        append_digits(out, n as u128);
    }
}

/// Appends `n` in decimal to `out`.
pub fn append_unsigned(out: &mut String, n: u64)
    ensures
        final(out)@ == old(out)@ + decimal(n as int),
{
    append_digits(out, n as u128);
}

} // verus!

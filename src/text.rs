//! The calibration map as a line of decimal text.

use vstd::prelude::*;
use crate::affine::{in_range, Affine};

verus! {

/// `num / den` in thousandths, rounded to the nearest, halves away from
/// zero; `den` is positive.
pub open spec fn thousandths(num: int, den: int) -> int {
    let n = if num < 0 {
        -num
    } else {
        num
    };
    let t = (2000 * n + den) / (2 * den);
    if num < 0 {
        -t
    } else {
        t
    }
}

/// The decimal digit `d`.
pub open spec fn digit_char(d: int) -> char {
    if d == 0 {
        '0'
    } else if d == 1 {
        '1'
    } else if d == 2 {
        '2'
    } else if d == 3 {
        '3'
    } else if d == 4 {
        '4'
    } else if d == 5 {
        '5'
    } else if d == 6 {
        '6'
    } else if d == 7 {
        '7'
    } else if d == 8 {
        '8'
    } else {
        '9'
    }
}

/// The decimal numeral of `n`, without leading zeros.
pub open spec fn decimal(n: nat) -> Seq<char>
    decreases n,
{
    if n < 10 {
        seq![digit_char(n as int)]
    } else {
        decimal(n / 10).push(digit_char((n % 10) as int))
    }
}

/// `t` thousandths written with exactly three decimals; a minus sign only
/// when `t` is negative.
pub open spec fn fixed3(t: int) -> Seq<char> {
    let a = if t < 0 {
        -t
    } else {
        t
    };
    let sign = if t < 0 {
        seq!['-']
    } else {
        Seq::empty()
    };
    sign + decimal((a / 1000) as nat) + seq![
        '.',
        digit_char((a / 100) % 10),
        digit_char((a / 10) % 10),
        digit_char(a % 10),
    ]
}

/// The coefficients `a b c d e f` of `m`, each with three decimals,
/// separated by single spaces.
pub open spec fn calibration_text(m: Affine) -> Seq<char> {
    fixed3(thousandths(m.a as int, m.den as int)) + seq![' '] + fixed3(
        thousandths(m.b as int, m.den as int),
    ) + seq![' '] + fixed3(thousandths(m.c as int, m.den as int)) + seq![' '] + fixed3(
        thousandths(m.d as int, m.den as int),
    ) + seq![' '] + fixed3(thousandths(m.e as int, m.den as int)) + seq![' '] + fixed3(
        thousandths(m.f as int, m.den as int),
    )
}

fn digit_str(d: u128) -> (s: &'static str)
    requires
        d < 10,
    ensures
        s@ == seq![digit_char(d as int)],
{
    if d == 0 {
        proof {
            reveal_strlit("0");
        }
        "0"
    } else if d == 1 {
        proof {
            reveal_strlit("1");
        }
        "1"
    } else if d == 2 {
        proof {
            reveal_strlit("2");
        }
        "2"
    } else if d == 3 {
        proof {
            reveal_strlit("3");
        }
        "3"
    } else if d == 4 {
        proof {
            reveal_strlit("4");
        }
        "4"
    } else if d == 5 {
        proof {
            reveal_strlit("5");
        }
        "5"
    } else if d == 6 {
        proof {
            reveal_strlit("6");
        }
        "6"
    } else if d == 7 {
        proof {
            reveal_strlit("7");
        }
        "7"
    } else if d == 8 {
        proof {
            reveal_strlit("8");
        }
        "8"
    } else {
        proof {
            reveal_strlit("9");
        }
        "9"
    }
}

fn push_decimal(s: &mut String, n: u128)
    ensures
        final(s)@ == old(s)@ + decimal(n as nat),
    decreases n,
{
    if n >= 10 {
        push_decimal(s, n / 10);
    }
    s.append(digit_str(n % 10));
}

/// Appends `t` thousandths with exactly three decimals.
fn push_fixed3(s: &mut String, negative: bool, t: u128)
    ensures
        final(s)@ == old(s)@ + fixed3(
            if negative {
                -t
            } else {
                t as int
            },
        ),
{
    let ghost start = s@;
    if negative && t > 0 {
        proof {
            reveal_strlit("-");
        }
        s.append("-");
    }
    push_decimal(s, t / 1000);
    proof {
        reveal_strlit(".");
    }
    s.append(".");
    s.append(digit_str((t / 100) % 10));
    s.append(digit_str((t / 10) % 10));
    s.append(digit_str(t % 10));
    assert(s@ =~= start + fixed3(
        if negative {
            -t
        } else {
            t as int
        },
    ));
}

/// Appends the fraction `num / den` rounded to three decimals.
fn push_fraction(s: &mut String, num: i128, den: i128)
    requires
        0 < den <= crate::affine::COEFF_LIMIT,
        -crate::affine::COEFF_LIMIT <= num <= crate::affine::COEFF_LIMIT,
    ensures
        final(s)@ == old(s)@ + fixed3(thousandths(num as int, den as int)),
{
    let n: u128 = if num < 0 {
        (-num) as u128
    } else {
        num as u128
    };
    let d = den as u128;
    let t = (2000 * n + d) / (2 * d);
    push_fixed3(s, num < 0, t);
}

/// The calibration map as one line of text: its coefficients `a b c d e f`,
/// each rounded to three decimals, separated by single spaces.
pub fn calibration_line(m: &Affine) -> (s: String)
    requires
        in_range(*m),
    ensures
        s@ == calibration_text(*m),
{
    let mut s = String::new();
    proof {
        reveal_strlit(" ");
    }
    push_fraction(&mut s, m.a, m.den);
    s.append(" ");
    push_fraction(&mut s, m.b, m.den);
    s.append(" ");
    push_fraction(&mut s, m.c, m.den);
    s.append(" ");
    push_fraction(&mut s, m.d, m.den);
    s.append(" ");
    push_fraction(&mut s, m.e, m.den);
    s.append(" ");
    push_fraction(&mut s, m.f, m.den);
    assert(s@ =~= calibration_text(*m));
    s
}

} // verus!

//! Formatting of integer amounts in minor currency units.
//!
//! An amount of `105` pence renders as `"1.5"`: the major part is the
//! truncating division by 100 (sign preserved), the minor part is the
//! absolute remainder, written without zero-padding.

use vstd::prelude::*;

verus! {

/// The decimal character for a single digit value.
pub open spec fn spec_digit_char(d: int) -> char {
    if d == 0 {
        '0'
    } else if d == 1 {
        '1'
    } else if d == 2 {
        '2'
    } else if d == 3 {
        '3'
    } else if d == 4 {
        '4'
    } else if d == 5 {
        '5'
    } else if d == 6 {
        '6'
    } else if d == 7 {
        '7'
    } else if d == 8 {
        '8'
    } else {
        '9'
    }
}

/// The decimal rendering of a non-negative integer, most significant
/// digit first, with no leading zeroes except for the value zero itself.
pub open spec fn spec_dec(n: nat) -> Seq<char>
    decreases n,
{
    if n < 10 {
        seq![spec_digit_char(n as int)]
    } else {
        spec_dec(n / 10).push(spec_digit_char((n % 10) as int))
    }
}

/// The magnitude of an integer.
pub open spec fn spec_abs(a: int) -> int {
    if a >= 0 {
        a
    } else {
        -a
    }
}

/// Division by 100 truncating toward zero, as the host's signed division does.
pub open spec fn spec_trunc_div_100(a: int) -> int {
    if a >= 0 {
        a / 100
    } else {
        -((-a) / 100)
    }
}

/// The decimal rendering of a signed integer: a minus sign only when the
/// value is strictly negative.
pub open spec fn spec_signed_dec(m: int) -> Seq<char> {
    if m < 0 {
        seq!['-'] + spec_dec((-m) as nat)
    } else {
        spec_dec(m as nat)
    }
}

/// What `format_amount` returns: `major`, a dot, then `minor`, where
/// `major = a / 100` truncating toward zero and `minor = abs(a) % 100`
/// without zero-padding. `-5` renders as `"0.5"`: the sign is lost when
/// the major part is zero.
pub open spec fn spec_format_amount(a: int) -> Seq<char> {
    spec_signed_dec(spec_trunc_div_100(a)) + seq!['.'] + spec_dec((spec_abs(a) % 100) as nat)
}

proof fn lemma_dec_no_esc(n: nat)
    ensures
        crate::text::no_esc(spec_dec(n)),
    decreases n,
{
    if n >= 10 {
        lemma_dec_no_esc(n / 10);
    }
}

/// A rendered amount carries no escape character: only digits, a dot,
/// and possibly a minus sign.
pub proof fn lemma_format_amount_no_esc(a: int)
    ensures
        crate::text::no_esc(spec_format_amount(a)),
{
    let m = spec_trunc_div_100(a);
    lemma_dec_no_esc(((spec_abs(a) % 100) as nat));
    if m < 0 {
        lemma_dec_no_esc((-m) as nat);
    } else {
        lemma_dec_no_esc(m as nat);
    }
}
fn digit_str(d: u64) -> (r: &'static str)
    requires
        d < 10,
    ensures
        r@ == seq![spec_digit_char(d as int)],
{
    proof {
        reveal_strlit("0");
        reveal_strlit("1");
        reveal_strlit("2");
        reveal_strlit("3");
        reveal_strlit("4");
        reveal_strlit("5");
        reveal_strlit("6");
        reveal_strlit("7");
        reveal_strlit("8");
        reveal_strlit("9");
    }
    let r: &'static str = if d == 0 {
        "0"
    } else if d == 1 {
        "1"
    } else if d == 2 {
        "2"
    } else if d == 3 {
        "3"
    } else if d == 4 {
        "4"
    } else if d == 5 {
        "5"
    } else if d == 6 {
        "6"
    } else if d == 7 {
        "7"
    } else if d == 8 {
        "8"
    } else {
        "9"
    };
    proof {
        assert(r@ =~= seq![spec_digit_char(d as int)]);
    }
    r
}

/// The decimal rendering of an unsigned integer.
pub fn u64_to_dec(n: u64) -> (r: String)
    ensures
        r@ == spec_dec(n as nat),
    decreases n,
{
    if n < 10 {
        String::from_str(digit_str(n))
    } else {
        let mut s = u64_to_dec(n / 10);
        s.append(digit_str(n % 10));
        proof {
            assert(s@ =~= spec_dec(n as nat));
        }
        s
    }
}

/// Renders an amount of minor currency units as `"{major}.{minor}"`,
/// for every value of the host's signed 64-bit integer type.
pub fn format_amount(amount: i64) -> (r: String)
    ensures
        r@ == spec_format_amount(amount as int),
{
    proof {
        reveal_strlit("-");
        reveal_strlit(".");
    }
    // Work on the magnitude in 128 bits so that the smallest value negates safely.
    let wide: i128 = amount as i128;
    let mag: u64 = if wide < 0 {
        (-wide) as u64
    } else {
        wide as u64
    };
    let major: u64 = mag / 100;
    let minor: u64 = mag % 100;
    let mut s: String;
    if amount < 0 && major > 0 {
        s = String::from_str("-");
        let digits = u64_to_dec(major);
        s.append(digits.as_str());
    } else {
        s = u64_to_dec(major);
    }
    s.append(".");
    let minor_digits = u64_to_dec(minor);
    s.append(minor_digits.as_str());
    proof {
        assert(mag == spec_abs(amount as int));
        assert(spec_trunc_div_100(amount as int) == if amount < 0 {
            -(mag as int / 100)
        } else {
            mag as int / 100
        });
        assert(s@ =~= spec_format_amount(amount as int));
    }
    s
}

} // verus!

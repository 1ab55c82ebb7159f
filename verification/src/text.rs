//! Decimal rendering of fixed-point scalars, for the human-readable
//! greeting: an integer part and, when the value is not whole, a fraction
//! with its trailing zeros dropped.

use vstd::prelude::*;
use vstd::string::StringExecFns;

use crate::fixed::Fx;

verus! {

/// The decimal digit character for `d` in `0 .. 10`.
pub open spec fn digit_char(d: int) -> char {
    if d == 0 {
        '0'
    } else if d == 1 {
        '1'
    } else if d == 2 {
        '2'
    } else if d == 3 {
        '3'
    } else if d == 4 {
        '4'
    } else if d == 5 {
        '5'
    } else if d == 6 {
        '6'
    } else if d == 7 {
        '7'
    } else if d == 8 {
        '8'
    } else {
        '9'
    }
}

/// Decimal digits of a nonnegative `n`, most significant first.
pub open spec fn dec_chars(n: int) -> Seq<char>
    decreases n,
{
    if n < 10 {
        seq![digit_char(n)]
    } else {
        dec_chars(n / 10).push(digit_char(n % 10))
    }
}

/// Fraction digits of `f` read at `place` (a power of ten), most
/// significant first, stopping once only zeros would follow.
pub open spec fn frac_chars(f: int, place: int) -> Seq<char>
    decreases place,
{
    if f % place == 0 || place <= 1 {
        seq![digit_char(f / place)]
    } else {
        seq![digit_char(f / place)] + frac_chars(f % place, place / 10)
    }
}

/// Decimal form of a nonnegative raw fixed-point count `r`: the whole
/// units, then the trimmed six-place fraction when it is nonzero.
pub open spec fn fx_chars(r: int) -> Seq<char> {
    let whole = r / 1_000_000;
    let f = r % 1_000_000;
    if f == 0 {
        dec_chars(whole)
    } else {
        dec_chars(whole) + seq!['.'] + frac_chars(f, 100_000)
    }
}

/// The one-character string for the digit `d`.
pub fn digit_str(d: u64) -> (r: &'static str)
    requires
        d < 10,
    ensures
        r@ == seq![digit_char(d as int)],
{
    proof {
        reveal_strlit("0");
        reveal_strlit("1");
        reveal_strlit("2");
        reveal_strlit("3");
        reveal_strlit("4");
        reveal_strlit("5");
        reveal_strlit("6");
        reveal_strlit("7");
        reveal_strlit("8");
        reveal_strlit("9");
    }
    let r: &'static str = if d == 0 {
        "0"
    } else if d == 1 {
        "1"
    } else if d == 2 {
        "2"
    } else if d == 3 {
        "3"
    } else if d == 4 {
        "4"
    } else if d == 5 {
        "5"
    } else if d == 6 {
        "6"
    } else if d == 7 {
        "7"
    } else if d == 8 {
        "8"
    } else {
        "9"
    };
    proof {
        assert(r@ =~= seq![digit_char(d as int)]);
    }
    r
}

/// Append the decimal digits of `n` to `s`.
pub fn push_dec(s: &mut String, n: u64)
    ensures
        final(s)@ == old(s)@ + dec_chars(n as int),
    decreases n,
{
    if n >= 10 {
        push_dec(s, n / 10);
        let d: u64 = n % 10;
        s.append(digit_str(d));
        proof {
            assert(s@ =~= old(s)@ + dec_chars(n as int));
        }
    } else {
        s.append(digit_str(n));
        proof {
            assert(s@ =~= old(s)@ + dec_chars(n as int));
        }
    }
}

/// Append the fraction digits of `f` read at `place` to `s`, dropping
/// trailing zeros. `place` must be a power of ten below one million.
pub fn push_frac(s: &mut String, f: u64, place: u64)
    requires
        place == 1 || place == 10 || place == 100 || place == 1000 || place == 10_000 || place
            == 100_000,
        f < 10 * place,
    ensures
        final(s)@ == old(s)@ + frac_chars(f as int, place as int),
    decreases place,
{
    proof {
        vstd::arithmetic::div_mod::lemma_multiply_divide_lt(f as int, place as int, 10);
        assert((place as int) * 10 == 10 * (place as int)) by (nonlinear_arith);
    }
    let d: u64 = f / place;
    let rest: u64 = f % place;
    s.append(digit_str(d));
    if rest != 0 && place > 1 {
        push_frac(s, rest, place / 10);
        proof {
            assert(s@ =~= old(s)@ + frac_chars(f as int, place as int));
        }
    } else {
        proof {
            assert(s@ =~= old(s)@ + frac_chars(f as int, place as int));
        }
    }
}

/// Append the decimal form of the nonnegative scalar `x` to `s`.
pub fn push_fx(s: &mut String, x: Fx)
    requires
        0 <= x.raw,
    ensures
        final(s)@ == old(s)@ + fx_chars(x.raw as int),
{
    let u: u64 = x.raw as u64;
    let whole: u64 = u / 1_000_000;
    let f: u64 = u % 1_000_000;
    push_dec(s, whole);
    if f != 0 {
        s.append(".");
        proof {
            reveal_strlit(".");
        }
        push_frac(s, f, 100_000);
    }
    proof {
        assert(s@ =~= old(s)@ + fx_chars(x.raw as int));
    }
}

} // verus!

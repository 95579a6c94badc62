//! Target-language text for numbers.
use vstd::prelude::*;

use crate::number::{Complex, Ratio};

verus! {

pub open spec fn digit_lit(d: int) -> &'static str {
    if d == 0 {
        "0"
    } else if d == 1 {
        "1"
    } else if d == 2 {
        "2"
    } else if d == 3 {
        "3"
    } else if d == 4 {
        "4"
    } else if d == 5 {
        "5"
    } else if d == 6 {
        "6"
    } else if d == 7 {
        "7"
    } else if d == 8 {
        "8"
    } else {
        "9"
    }
}

/// The decimal digits of `n`.
pub open spec fn nat_text(n: nat) -> Seq<char>
    decreases n,
{
    if n < 10 {
        digit_lit(n as int)@
    } else {
        nat_text(n / 10) + digit_lit((n % 10) as int)@
    }
}

/// A signed integer in decimal.
pub open spec fn int_text(i: int) -> Seq<char> {
    if i < 0 {
        "-"@ + nat_text((-i) as nat)
    } else {
        nat_text(i as nat)
    }
}

/// A rational as a float expression: `n.0`, or `(n.0/d.0)`.
pub open spec fn ratio_text(r: Ratio) -> Seq<char> {
    if r.den == 1 {
        int_text(r.num as int) + ".0"@
    } else {
        "("@ + int_text(r.num as int) + ".0/"@ + int_text(r.den as int) + ".0)"@
    }
}

/// The two-component literal of a complex number.
pub open spec fn complex_text(z: Complex) -> Seq<char> {
    "vec2f("@ + ratio_text(z.re) + ","@ + ratio_text(z.im) + ")"@
}

fn digit_str(d: u64) -> (r: &'static str)
    requires
        d < 10,
    ensures
        r@ == digit_lit(d as int)@,
{
    if d == 0 {
        "0"
    } else if d == 1 {
        "1"
    } else if d == 2 {
        "2"
    } else if d == 3 {
        "3"
    } else if d == 4 {
        "4"
    } else if d == 5 {
        "5"
    } else if d == 6 {
        "6"
    } else if d == 7 {
        "7"
    } else if d == 8 {
        "8"
    } else {
        "9"
    }
}

/// Appends the decimal digits of `n`.
pub fn push_nat(out: &mut String, n: u64)
    ensures
        final(out)@ == old(out)@ + nat_text(n as nat),
    decreases n,
{
    if n < 10 {
        out.append(digit_str(n));
    } else {
        push_nat(out, n / 10);
        out.append(digit_str(n % 10));
        assert(final(out)@ == old(out)@ + nat_text(n as nat));
    }
}

pub fn push_usize(out: &mut String, n: usize)
    ensures
        final(out)@ == old(out)@ + nat_text(n as nat),
{
    push_nat(out, n as u64);
}

fn push_int(out: &mut String, i: i64)
    ensures
        final(out)@ == old(out)@ + int_text(i as int),
{
    if i < 0 {
        out.append("-");
        let m: u64 = if i == i64::MIN {
            0x8000_0000_0000_0000
        } else {
            (-i) as u64
        };
        push_nat(out, m);
        assert(final(out)@ == old(out)@ + int_text(i as int));
    } else {
        push_nat(out, i as u64);
    }
}

fn push_ratio(out: &mut String, r: Ratio)
    ensures
        final(out)@ == old(out)@ + ratio_text(r),
{
    if r.den == 1 {
        push_int(out, r.num);
        out.append(".0");
    } else {
        out.append("(");
        push_int(out, r.num);
        out.append(".0/");
        push_int(out, r.den);
        out.append(".0)");
    }
    assert(final(out)@ =~= old(out)@ + ratio_text(r));
}

/// Appends the literal of `z`.
pub fn push_complex(out: &mut String, z: Complex)
    ensures
        final(out)@ == old(out)@ + complex_text(z),
{
    out.append("vec2f(");
    push_ratio(out, z.re);
    out.append(",");
    push_ratio(out, z.im);
    out.append(")");
    assert(final(out)@ =~= old(out)@ + complex_text(z));
}

} // verus!

//! Exact numbers: rationals over 64-bit integers and complex numbers over them.
use vstd::prelude::*;

verus! {

/// The rational number `num / den`.
#[derive(Clone, Copy, Debug, PartialEq, Eq, Structural)]
pub struct Ratio {
    pub num: i64,
    pub den: i64,
}

/// A complex number `re + im·i` with exact rational parts.
#[derive(Clone, Copy, Debug, PartialEq, Eq, Structural)]
pub struct Complex {
    pub re: Ratio,
    pub im: Ratio,
}

/// A rational as a pair of unbounded integers (numerator, denominator).
pub type Q = (int, int);

/// A complex number as a pair of unbounded rationals (real part, imaginary part).
pub type Cq = (Q, Q);

impl View for Ratio {
    type V = Q;

    open spec fn view(&self) -> Q {
        (self.num as int, self.den as int)
    }
}

impl View for Complex {
    type V = Cq;

    open spec fn view(&self) -> Cq {
        (self.re@, self.im@)
    }
}

pub open spec fn fits(x: int) -> bool {
    i64::MIN <= x <= i64::MAX
}

pub open spec fn q_add(a: Q, b: Q) -> Q {
    (a.0 * b.1 + b.0 * a.1, a.1 * b.1)
}

pub open spec fn q_sub(a: Q, b: Q) -> Q {
    (a.0 * b.1 - b.0 * a.1, a.1 * b.1)
}

pub open spec fn q_mul(a: Q, b: Q) -> Q {
    (a.0 * b.0, a.1 * b.1)
}

pub open spec fn q_neg(a: Q) -> Q {
    (-a.0, a.1)
}

/// Quotient `a / b`; meaningful where `b.0 != 0`.
pub open spec fn q_div(a: Q, b: Q) -> Q {
    (a.0 * b.1, a.1 * b.0)
}

pub open spec fn q_zero() -> Q {
    (0, 1)
}

pub open spec fn cq_add(z: Cq, w: Cq) -> Cq {
    (q_add(z.0, w.0), q_add(z.1, w.1))
}

pub open spec fn cq_sub(z: Cq, w: Cq) -> Cq {
    (q_sub(z.0, w.0), q_sub(z.1, w.1))
}

pub open spec fn cq_neg(z: Cq) -> Cq {
    (q_neg(z.0), q_neg(z.1))
}

pub open spec fn cq_conj(z: Cq) -> Cq {
    (z.0, q_neg(z.1))
}

pub open spec fn cq_re(z: Cq) -> Cq {
    (z.0, q_zero())
}

pub open spec fn cq_im(z: Cq) -> Cq {
    (z.1, q_zero())
}

/// `(a + bi)(c + di) = (ac - bd) + (ad + bc)i`.
pub open spec fn cq_mul(z: Cq, w: Cq) -> Cq {
    (q_sub(q_mul(z.0, w.0), q_mul(z.1, w.1)), q_add(q_mul(z.0, w.1), q_mul(z.1, w.0)))
}

/// The squared modulus `a² + b²` as a rational.
pub open spec fn q_abs_sq(z: Cq) -> Q {
    q_add(q_mul(z.0, z.0), q_mul(z.1, z.1))
}

pub open spec fn cq_abs_sq(z: Cq) -> Cq {
    (q_abs_sq(z), q_zero())
}

/// `1 / (a + bi) = (a - bi) / (a² + b²)`; meaningful where `z != 0`.
pub open spec fn cq_recip(z: Cq) -> Cq {
    (q_div(z.0, q_abs_sq(z)), q_div(q_neg(z.1), q_abs_sq(z)))
}

/// `(a + bi) / (c + di) = ((ac + bd) + (bc - ad)i) / (c² + d²)`; meaningful where `w != 0`.
pub open spec fn cq_div(z: Cq, w: Cq) -> Cq {
    (
        q_div(q_add(q_mul(z.0, w.0), q_mul(z.1, w.1)), q_abs_sq(w)),
        q_div(q_sub(q_mul(z.1, w.0), q_mul(z.0, w.1)), q_abs_sq(w)),
    )
}

/// The stored form of an unbounded rational, where both parts fit in 64 bits.
pub open spec fn ratio_of(a: Q) -> Option<Ratio> {
    if fits(a.0) && fits(a.1) {
        Some(Ratio { num: a.0 as i64, den: a.1 as i64 })
    } else {
        None
    }
}

pub open spec fn opt_add(a: Option<Ratio>, b: Option<Ratio>) -> Option<Ratio> {
    match (a, b) {
        (Some(x), Some(y)) => ratio_of(q_add(x@, y@)),
        _ => None,
    }
}

pub open spec fn opt_sub(a: Option<Ratio>, b: Option<Ratio>) -> Option<Ratio> {
    match (a, b) {
        (Some(x), Some(y)) => ratio_of(q_sub(x@, y@)),
        _ => None,
    }
}

pub open spec fn opt_mul(a: Option<Ratio>, b: Option<Ratio>) -> Option<Ratio> {
    match (a, b) {
        (Some(x), Some(y)) => ratio_of(q_mul(x@, y@)),
        _ => None,
    }
}

pub open spec fn opt_div(a: Option<Ratio>, b: Option<Ratio>) -> Option<Ratio> {
    match (a, b) {
        (Some(x), Some(y)) => if y.num == 0 { None } else { ratio_of(q_div(x@, y@)) },
        _ => None,
    }
}

pub open spec fn opt_complex(re: Option<Ratio>, im: Option<Ratio>) -> Option<Complex> {
    match (re, im) {
        (Some(x), Some(y)) => Some(Complex { re: x, im: y }),
        _ => None,
    }
}

pub open spec fn opt_neg(a: Option<Ratio>) -> Option<Ratio> {
    match a {
        Some(x) => ratio_of(q_neg(x@)),
        None => None,
    }
}

pub open spec fn zero_ratio() -> Ratio {
    Ratio { num: 0, den: 1 }
}

/// `a² + b²` of `z = a + bi`, where every step fits in 64 bits.
pub open spec fn opt_abs_sq(z: Complex) -> Option<Ratio> {
    opt_add(opt_mul(Some(z.re), Some(z.re)), opt_mul(Some(z.im), Some(z.im)))
}

pub open spec fn checked_neg(z: Complex) -> Option<Complex> {
    opt_complex(opt_neg(Some(z.re)), opt_neg(Some(z.im)))
}

pub open spec fn checked_conj(z: Complex) -> Option<Complex> {
    opt_complex(Some(z.re), opt_neg(Some(z.im)))
}

pub open spec fn checked_add(z: Complex, w: Complex) -> Option<Complex> {
    opt_complex(opt_add(Some(z.re), Some(w.re)), opt_add(Some(z.im), Some(w.im)))
}

pub open spec fn checked_sub(z: Complex, w: Complex) -> Option<Complex> {
    opt_complex(opt_sub(Some(z.re), Some(w.re)), opt_sub(Some(z.im), Some(w.im)))
}

pub open spec fn checked_mul(z: Complex, w: Complex) -> Option<Complex> {
    opt_complex(
        opt_sub(opt_mul(Some(z.re), Some(w.re)), opt_mul(Some(z.im), Some(w.im))),
        opt_add(opt_mul(Some(z.re), Some(w.im)), opt_mul(Some(z.im), Some(w.re))),
    )
}

pub open spec fn checked_abs_sq(z: Complex) -> Option<Complex> {
    opt_complex(opt_abs_sq(z), Some(zero_ratio()))
}

pub open spec fn checked_recip(z: Complex) -> Option<Complex> {
    opt_complex(opt_div(Some(z.re), opt_abs_sq(z)), opt_div(opt_neg(Some(z.im)), opt_abs_sq(z)))
}

pub open spec fn checked_div(z: Complex, w: Complex) -> Option<Complex> {
    opt_complex(
        opt_div(
            opt_add(opt_mul(Some(z.re), Some(w.re)), opt_mul(Some(z.im), Some(w.im))),
            opt_abs_sq(w),
        ),
        opt_div(
            opt_sub(opt_mul(Some(z.im), Some(w.re)), opt_mul(Some(z.re), Some(w.im))),
            opt_abs_sq(w),
        ),
    )
}

/// A computed result is the exact value: every checked operation that
/// succeeds agrees with the unbounded formula it stands for.
pub proof fn lemma_checked_exact(z: Complex, w: Complex)
    ensures
        checked_neg(z) matches Some(r) ==> r@ == cq_neg(z@),
        checked_conj(z) matches Some(r) ==> r@ == cq_conj(z@),
        checked_add(z, w) matches Some(r) ==> r@ == cq_add(z@, w@),
        checked_sub(z, w) matches Some(r) ==> r@ == cq_sub(z@, w@),
        checked_mul(z, w) matches Some(r) ==> r@ == cq_mul(z@, w@),
        checked_abs_sq(z) matches Some(r) ==> r@ == cq_abs_sq(z@),
        checked_recip(z) matches Some(r) ==> r@ == cq_recip(z@) && q_abs_sq(z@).0 != 0,
        checked_div(z, w) matches Some(r) ==> r@ == cq_div(z@, w@) && q_abs_sq(w@).0 != 0,
{
}

fn neg_r(a: Option<Ratio>) -> (r: Option<Ratio>)
    ensures
        r == opt_neg(a),
{
    match a {
        Some(x) => {
            if x.num == i64::MIN {
                None
            } else {
                Some(Ratio { num: -x.num, den: x.den })
            }
        },
        None => None,
    }
}

fn complex_of(re: Option<Ratio>, im: Option<Ratio>) -> (r: Option<Complex>)
    ensures
        r == opt_complex(re, im),
{
    match (re, im) {
        (Some(x), Some(y)) => Some(Complex { re: x, im: y }),
        _ => None,
    }
}

fn abs_sq_r(z: Complex) -> (r: Option<Ratio>)
    ensures
        r == opt_abs_sq(z),
{
    add_r(mul_r(Some(z.re), Some(z.re)), mul_r(Some(z.im), Some(z.im)))
}

impl Complex {
    pub fn checked_neg(self) -> (r: Option<Complex>)
        ensures
            r == checked_neg(self),
    {
        complex_of(neg_r(Some(self.re)), neg_r(Some(self.im)))
    }

    pub fn checked_conj(self) -> (r: Option<Complex>)
        ensures
            r == checked_conj(self),
    {
        complex_of(Some(self.re), neg_r(Some(self.im)))
    }

    pub fn checked_add(self, w: Complex) -> (r: Option<Complex>)
        ensures
            r == checked_add(self, w),
    {
        complex_of(add_r(Some(self.re), Some(w.re)), add_r(Some(self.im), Some(w.im)))
    }

    pub fn checked_sub(self, w: Complex) -> (r: Option<Complex>)
        ensures
            r == checked_sub(self, w),
    {
        complex_of(sub_r(Some(self.re), Some(w.re)), sub_r(Some(self.im), Some(w.im)))
    }

    pub fn checked_mul(self, w: Complex) -> (r: Option<Complex>)
        ensures
            r == checked_mul(self, w),
    {
        complex_of(
            sub_r(mul_r(Some(self.re), Some(w.re)), mul_r(Some(self.im), Some(w.im))),
            add_r(mul_r(Some(self.re), Some(w.im)), mul_r(Some(self.im), Some(w.re))),
        )
    }

    pub fn checked_abs_sq(self) -> (r: Option<Complex>)
        ensures
            r == checked_abs_sq(self),
    {
        complex_of(abs_sq_r(self), Some(Ratio { num: 0, den: 1 }))
    }

    pub fn checked_recip(self) -> (r: Option<Complex>)
        ensures
            r == checked_recip(self),
    {
        let d = abs_sq_r(self);
        complex_of(div_r(Some(self.re), d), div_r(neg_r(Some(self.im)), d))
    }

    pub fn checked_div(self, w: Complex) -> (r: Option<Complex>)
        ensures
            r == checked_div(self, w),
    {
        let d = abs_sq_r(w);
        complex_of(
            div_r(add_r(mul_r(Some(self.re), Some(w.re)), mul_r(Some(self.im), Some(w.im))), d),
            div_r(sub_r(mul_r(Some(self.im), Some(w.re)), mul_r(Some(self.re), Some(w.im))), d),
        )
    }
}

/// Sum of two stored rationals, where it and its parts fit in 64 bits.
fn add_r(a: Option<Ratio>, b: Option<Ratio>) -> (r: Option<Ratio>)
    ensures
        r == opt_add(a, b),
{
    match (a, b) {
        (Some(x), Some(y)) => {
            let d = wide_mul(x.den, y.den);
            match wide_mul(x.num, y.den).checked_add(wide_mul(y.num, x.den)) {
                Some(n) => narrow(n, d),
                None => None,
            }
        },
        _ => None,
    }
}

fn sub_r(a: Option<Ratio>, b: Option<Ratio>) -> (r: Option<Ratio>)
    ensures
        r == opt_sub(a, b),
{
    match (a, b) {
        (Some(x), Some(y)) => {
            let d = wide_mul(x.den, y.den);
            match wide_mul(x.num, y.den).checked_sub(wide_mul(y.num, x.den)) {
                Some(n) => narrow(n, d),
                None => None,
            }
        },
        _ => None,
    }
}

fn mul_r(a: Option<Ratio>, b: Option<Ratio>) -> (r: Option<Ratio>)
    ensures
        r == opt_mul(a, b),
{
    match (a, b) {
        (Some(x), Some(y)) => {
            let n = wide_mul(x.num, y.num);
            let d = wide_mul(x.den, y.den);
            narrow(n, d)
        },
        _ => None,
    }
}

fn div_r(a: Option<Ratio>, b: Option<Ratio>) -> (r: Option<Ratio>)
    ensures
        r == opt_div(a, b),
{
    match (a, b) {
        (Some(x), Some(y)) => {
            if y.num == 0 {
                None
            } else {
                let n = wide_mul(x.num, y.den);
                let d = wide_mul(x.den, y.num);
                narrow(n, d)
            }
        },
        _ => None,
    }
}

/// The exact product of two 64-bit integers.
fn wide_mul(a: i64, b: i64) -> (r: i128)
    ensures
        r == a as int * b as int,
        -0x4000_0000_0000_0000_0000_0000_0000_0000 <= r <= 0x4000_0000_0000_0000_0000_0000_0000_0000,
{
    proof {
        lemma_product_bound(a as int, b as int);
    }
    (a as i128) * (b as i128)
}

proof fn lemma_product_bound(a: int, b: int)
    requires
        fits(a),
        fits(b),
    ensures
        -0x4000_0000_0000_0000_0000_0000_0000_0000 <= a * b <= 0x4000_0000_0000_0000_0000_0000_0000_0000,
{
    assert(-0x8000_0000_0000_0000 <= a <= 0x8000_0000_0000_0000);
    assert(-0x8000_0000_0000_0000 <= b <= 0x8000_0000_0000_0000);
    assert(-0x4000_0000_0000_0000_0000_0000_0000_0000 <= a * b <= 0x4000_0000_0000_0000_0000_0000_0000_0000) by (nonlinear_arith)
        requires
            -0x8000_0000_0000_0000 <= a <= 0x8000_0000_0000_0000,
            -0x8000_0000_0000_0000 <= b <= 0x8000_0000_0000_0000,
    ;
}

fn narrow(n: i128, d: i128) -> (r: Option<Ratio>)
    ensures
        r == ratio_of((n as int, d as int)),
{
    if i64::MIN as i128 <= n && n <= i64::MAX as i128 && i64::MIN as i128 <= d && d
        <= i64::MAX as i128 {
        Some(Ratio { num: n as i64, den: d as i64 })
    } else {
        None
    }
}

} // verus!

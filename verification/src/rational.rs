//! Exact rational scalars.
//!
//! A [`Rat`] is a fraction of two `i128`s with a positive denominator. All
//! arithmetic is exact: an operation either returns the mathematically exact
//! fraction (as the unreduced cross product of the operands) or reports
//! [`GeometryError::NumericOverflow`] when an intermediate value leaves the
//! machine range. The mathematical value of a `Rat` is the ghost fraction
//! [`Frac`]; every contract below speaks of those fractions.

use vstd::prelude::*;

use crate::GeometryError;

verus! {

/// The mathematical value of a scalar: the fraction `n / d`.
pub ghost struct Frac {
    pub n: int,
    pub d: int,
}

/// A fraction is well formed when its denominator is positive.
pub open spec fn frac_wf(a: Frac) -> bool {
    a.d >= 1
}

/// Two fractions denote the same rational number.
pub open spec fn frac_eq(a: Frac, b: Frac) -> bool {
    a.n * b.d == b.n * a.d
}

/// `a <= b` as rational numbers (for well-formed fractions).
pub open spec fn frac_le(a: Frac, b: Frac) -> bool {
    a.n * b.d <= b.n * a.d
}

pub open spec fn frac_from_int(i: int) -> Frac {
    Frac { n: i, d: 1 }
}

pub open spec fn frac_add(a: Frac, b: Frac) -> Frac {
    Frac { n: a.n * b.d + b.n * a.d, d: a.d * b.d }
}

pub open spec fn frac_sub(a: Frac, b: Frac) -> Frac {
    Frac { n: a.n * b.d - b.n * a.d, d: a.d * b.d }
}

pub open spec fn frac_mul(a: Frac, b: Frac) -> Frac {
    Frac { n: a.n * b.n, d: a.d * b.d }
}

pub open spec fn frac_neg(a: Frac) -> Frac {
    Frac { n: -a.n, d: a.d }
}

/// Division keeps the denominator positive by moving the divisor's sign into
/// the numerator. For a zero divisor the result is meaningless (`d == 0`).
pub open spec fn frac_div(a: Frac, b: Frac) -> Frac {
    if b.n >= 0 {
        Frac { n: a.n * b.d, d: a.d * b.n }
    } else {
        Frac { n: -(a.n * b.d), d: -(a.d * b.n) }
    }
}

/// Whether a mathematical integer fits the machine scalar range.
pub open spec fn in_i128(x: int) -> bool {
    i128::MIN <= x <= i128::MAX
}

/// The machine can carry out `a + b` exactly.
pub open spec fn add_fits(a: Frac, b: Frac) -> bool {
    &&& in_i128(a.n * b.d)
    &&& in_i128(b.n * a.d)
    &&& in_i128(a.n * b.d + b.n * a.d)
    &&& in_i128(a.d * b.d)
}

/// The machine can carry out `a - b` exactly.
pub open spec fn sub_fits(a: Frac, b: Frac) -> bool {
    &&& in_i128(a.n * b.d)
    &&& in_i128(b.n * a.d)
    &&& in_i128(a.n * b.d - b.n * a.d)
    &&& in_i128(a.d * b.d)
}

/// The machine can carry out `a * b` exactly.
pub open spec fn mul_fits(a: Frac, b: Frac) -> bool {
    &&& in_i128(a.n * b.n)
    &&& in_i128(a.d * b.d)
}

/// The machine can carry out `a / b` exactly.
pub open spec fn div_fits(a: Frac, b: Frac) -> bool {
    &&& in_i128(a.n * b.d)
    &&& in_i128(a.d * b.n)
    &&& in_i128(frac_div(a, b).n)
    &&& in_i128(frac_div(a, b).d)
}

/// `frac_eq` is transitive on well-formed fractions.
pub proof fn lemma_frac_eq_trans(a: Frac, b: Frac, c: Frac)
    requires
        frac_wf(a),
        frac_wf(b),
        frac_wf(c),
        frac_eq(a, b),
        frac_eq(b, c),
    ensures
        frac_eq(a, c),
{
    assert(a.n * c.d == c.n * a.d) by (nonlinear_arith)
        requires
            a.d >= 1,
            b.d >= 1,
            c.d >= 1,
            a.n * b.d == b.n * a.d,
            b.n * c.d == c.n * b.d,
    ;
}

/// The arithmetic operations yield well-formed fractions.
pub proof fn lemma_frac_ops_wf(a: Frac, b: Frac)
    requires
        frac_wf(a),
        frac_wf(b),
    ensures
        frac_wf(frac_add(a, b)),
        frac_wf(frac_sub(a, b)),
        frac_wf(frac_mul(a, b)),
        frac_wf(frac_neg(a)),
        b.n != 0 ==> frac_wf(frac_div(a, b)),
{
    assert(a.d * b.d >= 1) by (nonlinear_arith)
        requires
            a.d >= 1,
            b.d >= 1,
    ;
    if b.n >= 1 {
        assert(a.d * b.n >= 1) by (nonlinear_arith)
            requires
                a.d >= 1,
                b.n >= 1,
        ;
    } else if b.n <= -1 {
        assert(-(a.d * b.n) >= 1) by (nonlinear_arith)
            requires
                a.d >= 1,
                b.n <= -1,
        ;
    }
}

/// Addition respects `frac_eq`.
pub proof fn lemma_frac_add_cong(a: Frac, a2: Frac, b: Frac, b2: Frac)
    requires
        frac_wf(a),
        frac_wf(a2),
        frac_wf(b),
        frac_wf(b2),
        frac_eq(a, a2),
        frac_eq(b, b2),
    ensures
        frac_eq(frac_add(a, b), frac_add(a2, b2)),
{
    assert(a.n * b.d * (a2.d * b2.d) == a2.n * b2.d * (a.d * b.d)) by (nonlinear_arith)
        requires
            a.n * a2.d == a2.n * a.d,
    ;
    assert(b.n * a.d * (a2.d * b2.d) == b2.n * a2.d * (a.d * b.d)) by (nonlinear_arith)
        requires
            b.n * b2.d == b2.n * b.d,
    ;
    assert((a.n * b.d + b.n * a.d) * (a2.d * b2.d) == (a2.n * b2.d + b2.n * a2.d) * (a.d
        * b.d)) by (nonlinear_arith)
        requires
            a.n * b.d * (a2.d * b2.d) == a2.n * b2.d * (a.d * b.d),
            b.n * a.d * (a2.d * b2.d) == b2.n * a2.d * (a.d * b.d),
    ;
}

/// Subtraction respects `frac_eq`.
pub proof fn lemma_frac_sub_cong(a: Frac, a2: Frac, b: Frac, b2: Frac)
    requires
        frac_wf(a),
        frac_wf(a2),
        frac_wf(b),
        frac_wf(b2),
        frac_eq(a, a2),
        frac_eq(b, b2),
    ensures
        frac_eq(frac_sub(a, b), frac_sub(a2, b2)),
{
    assert(a.n * b.d * (a2.d * b2.d) == a2.n * b2.d * (a.d * b.d)) by (nonlinear_arith)
        requires
            a.n * a2.d == a2.n * a.d,
    ;
    assert(b.n * a.d * (a2.d * b2.d) == b2.n * a2.d * (a.d * b.d)) by (nonlinear_arith)
        requires
            b.n * b2.d == b2.n * b.d,
    ;
    assert((a.n * b.d - b.n * a.d) * (a2.d * b2.d) == (a2.n * b2.d - b2.n * a2.d) * (a.d
        * b.d)) by (nonlinear_arith)
        requires
            a.n * b.d * (a2.d * b2.d) == a2.n * b2.d * (a.d * b.d),
            b.n * a.d * (a2.d * b2.d) == b2.n * a2.d * (a.d * b.d),
    ;
}

/// Multiplication respects `frac_eq`.
pub proof fn lemma_frac_mul_cong(a: Frac, a2: Frac, b: Frac, b2: Frac)
    requires
        frac_wf(a),
        frac_wf(a2),
        frac_wf(b),
        frac_wf(b2),
        frac_eq(a, a2),
        frac_eq(b, b2),
    ensures
        frac_eq(frac_mul(a, b), frac_mul(a2, b2)),
{
    assert((a.n * b.n) * (a2.d * b2.d) == (a2.n * b2.n) * (a.d * b.d)) by (nonlinear_arith)
        requires
            a.n * a2.d == a2.n * a.d,
            b.n * b2.d == b2.n * b.d,
    ;
}

/// Division by a fixed non-zero divisor respects `frac_eq`.
pub proof fn lemma_frac_div_cong(a: Frac, a2: Frac, b: Frac)
    requires
        frac_wf(a),
        frac_wf(a2),
        frac_wf(b),
        b.n != 0,
        frac_eq(a, a2),
    ensures
        frac_eq(frac_div(a, b), frac_div(a2, b)),
{
    if b.n >= 0 {
        assert((a.n * b.d) * (a2.d * b.n) == (a2.n * b.d) * (a.d * b.n)) by (nonlinear_arith)
            requires
                a.n * a2.d == a2.n * a.d,
        ;
    } else {
        assert((-(a.n * b.d)) * (-(a2.d * b.n)) == (-(a2.n * b.d)) * (-(a.d
            * b.n))) by (nonlinear_arith)
            requires
                a.n * a2.d == a2.n * a.d,
        ;
    }
}

/// Adding and then subtracting the same fraction is the identity.
pub proof fn lemma_add_sub_cancel(a: Frac, b: Frac)
    requires
        frac_wf(a),
        frac_wf(b),
    ensures
        frac_eq(frac_sub(frac_add(a, b), b), a),
{
    assert(((a.n * b.d + b.n * a.d) * b.d - b.n * (a.d * b.d)) * a.d == a.n * ((a.d * b.d)
        * b.d)) by (nonlinear_arith);
}

/// Subtracting and then adding the same fraction is the identity.
pub proof fn lemma_sub_add_cancel(a: Frac, b: Frac)
    requires
        frac_wf(a),
        frac_wf(b),
    ensures
        frac_eq(frac_add(frac_sub(a, b), b), a),
{
    assert(((a.n * b.d - b.n * a.d) * b.d + b.n * (a.d * b.d)) * a.d == a.n * ((a.d * b.d)
        * b.d)) by (nonlinear_arith);
}

/// Subtracting the left operand of a sum leaves the right operand.
pub proof fn lemma_add_sub_cancel_left(a: Frac, b: Frac)
    requires
        frac_wf(a),
        frac_wf(b),
    ensures
        frac_eq(frac_sub(frac_add(a, b), a), b),
{
    assert(((a.n * b.d + b.n * a.d) * a.d - a.n * (a.d * b.d)) * b.d == b.n * ((a.d * b.d)
        * a.d)) by (nonlinear_arith);
}

/// Adding a fraction whose numerator is zero changes nothing.
pub proof fn lemma_add_zero(a: Frac, z: Frac)
    requires
        frac_wf(a),
        frac_wf(z),
        z.n == 0,
    ensures
        frac_eq(frac_add(a, z), a),
{
    assert((a.n * z.d + z.n * a.d) * a.d == a.n * (a.d * z.d)) by (nonlinear_arith)
        requires
            z.n == 0,
    ;
}

/// Subtracting a fraction whose numerator is zero changes nothing.
pub proof fn lemma_sub_zero(a: Frac, z: Frac)
    requires
        frac_wf(a),
        frac_wf(z),
        z.n == 0,
    ensures
        frac_eq(frac_sub(a, z), a),
{
    assert((a.n * z.d - z.n * a.d) * a.d == a.n * (a.d * z.d)) by (nonlinear_arith)
        requires
            z.n == 0,
    ;
}

/// Multiplying by a fraction equal to one changes nothing.
pub proof fn lemma_mul_one(a: Frac, o: Frac)
    requires
        frac_wf(a),
        frac_wf(o),
        frac_eq(o, frac_from_int(1)),
    ensures
        frac_eq(frac_mul(a, o), a),
{
    assert((a.n * o.n) * a.d == a.n * (a.d * o.d)) by (nonlinear_arith)
        requires
            o.n == o.d,
    ;
}

/// Reordering a product of six factors, in the grouping the rotation proofs
/// need.
pub proof fn lemma_mul_shuffle(p: int, q: int, r: int, u: int, v: int, w: int)
    ensures
        (((p * q) * (r * u)) * v) * w == (((p * v) * (r * w)) * q) * u,
{
    broadcast use vstd::arithmetic::mul::group_mul_properties;

    assert((((p * q) * (r * u)) * v) * w == (((p * v) * (r * w)) * q) * u);
}

/// Multiplication of fractions is commutative, field for field.
pub proof fn lemma_mul_comm(a: Frac, b: Frac)
    ensures
        frac_mul(a, b) == frac_mul(b, a),
{
    assert(a.n * b.n == b.n * a.n) by (nonlinear_arith);
    assert(a.d * b.d == b.d * a.d) by (nonlinear_arith);
}

/// Addition of fractions is commutative, field for field.
pub proof fn lemma_add_comm(a: Frac, b: Frac)
    ensures
        frac_add(a, b) == frac_add(b, a),
{
    assert(a.n * b.d + b.n * a.d == b.n * a.d + a.n * b.d);
    assert(a.d * b.d == b.d * a.d) by (nonlinear_arith);
}

/// Multiplying and then dividing by the same non-zero fraction is the identity.
pub proof fn lemma_mul_div_cancel(a: Frac, b: Frac)
    requires
        frac_wf(a),
        frac_wf(b),
        b.n != 0,
    ensures
        frac_eq(frac_div(frac_mul(a, b), b), a),
{
    if b.n >= 0 {
        assert(((a.n * b.n) * b.d) * a.d == a.n * ((a.d * b.d) * b.n)) by (nonlinear_arith);
    } else {
        assert((-((a.n * b.n) * b.d)) * a.d == a.n * (-((a.d * b.d) * b.n))) by (nonlinear_arith);
    }
}

/// The order of rationals respects `frac_eq`.
pub proof fn lemma_frac_le_cong(a: Frac, a2: Frac, b: Frac, b2: Frac)
    requires
        frac_wf(a),
        frac_wf(a2),
        frac_wf(b),
        frac_wf(b2),
        frac_eq(a, a2),
        frac_eq(b, b2),
        frac_le(a, b),
    ensures
        frac_le(a2, b2),
{
    assert(a2.n * b2.d <= b2.n * a2.d) by (nonlinear_arith)
        requires
            a.d >= 1,
            a2.d >= 1,
            b.d >= 1,
            b2.d >= 1,
            a.n * a2.d == a2.n * a.d,
            b.n * b2.d == b2.n * b.d,
            a.n * b.d <= b.n * a.d,
    ;
}

/// Multiplication distributes over addition.
pub proof fn lemma_mul_add_distrib(a: Frac, b: Frac, c: Frac)
    requires
        frac_wf(a),
        frac_wf(b),
        frac_wf(c),
    ensures
        frac_eq(frac_mul(frac_add(a, b), c), frac_add(frac_mul(a, c), frac_mul(b, c))),
{
    broadcast use vstd::arithmetic::mul::group_mul_properties;

    let l = frac_mul(frac_add(a, b), c);
    let r = frac_add(frac_mul(a, c), frac_mul(b, c));
    assert(l.n * r.d == r.n * l.d);
}

/// Splitting a difference through an intermediate point.
pub proof fn lemma_sub_split(a: Frac, p: Frac, q: Frac)
    requires
        frac_wf(a),
        frac_wf(p),
        frac_wf(q),
    ensures
        frac_eq(frac_sub(q, a), frac_add(frac_sub(p, a), frac_sub(q, p))),
{
    broadcast use vstd::arithmetic::mul::group_mul_properties;

    let l = frac_sub(q, a);
    let r = frac_add(frac_sub(p, a), frac_sub(q, p));
    assert(l.n * r.d == r.n * l.d);
}

/// Regrouping a difference of sums into a difference of differences.
pub proof fn lemma_addsub_shuffle(a: Frac, b: Frac, c: Frac, d: Frac)
    requires
        frac_wf(a),
        frac_wf(b),
        frac_wf(c),
        frac_wf(d),
    ensures
        frac_eq(
            frac_sub(frac_add(a, b), frac_add(c, d)),
            frac_sub(frac_sub(a, c), frac_sub(d, b)),
        ),
{
    broadcast use vstd::arithmetic::mul::group_mul_properties;

    let l = frac_sub(frac_add(a, b), frac_add(c, d));
    let r = frac_sub(frac_sub(a, c), frac_sub(d, b));
    assert(l.n == ((a.n * b.d) * (c.d * d.d) + (b.n * a.d) * (c.d * d.d)) - ((c.n * d.d) * (a.d
        * b.d) + (d.n * c.d) * (a.d * b.d)));
    assert(r.n == ((a.n * c.d) * (d.d * b.d) - (c.n * a.d) * (d.d * b.d)) - ((d.n * b.d) * (a.d
        * c.d) - (b.n * d.d) * (a.d * c.d)));
    assert((a.n * b.d) * (c.d * d.d) == (a.n * c.d) * (d.d * b.d));
    assert((b.n * a.d) * (c.d * d.d) == (b.n * d.d) * (a.d * c.d));
    assert((c.n * d.d) * (a.d * b.d) == (c.n * a.d) * (d.d * b.d));
    assert((d.n * c.d) * (a.d * b.d) == (d.n * b.d) * (a.d * c.d));
    assert(l.n == r.n);
    assert(l.d == r.d);
    assert(l.n * r.d == r.n * l.d);
}

/// Greatest common divisor, by Euclid's algorithm.
pub open spec fn nat_gcd(a: nat, b: nat) -> nat
    decreases a,
{
    if a == 0 {
        b
    } else {
        nat_gcd(b % a, a)
    }
}

/// The divisor that `nat_gcd` returns is positive and divides both
/// arguments.
pub proof fn lemma_gcd_divides(a: nat, b: nat)
    requires
        b >= 1,
    ensures
        nat_gcd(a, b) >= 1,
        a % nat_gcd(a, b) == 0,
        b % nat_gcd(a, b) == 0,
    decreases a,
{
    let g = nat_gcd(a, b);
    if a == 0 {
        vstd::arithmetic::div_mod::lemma_mod_multiples_basic(1, b as int);
        assert(1 * (b as int) == b as int) by (nonlinear_arith);
    } else {
        lemma_gcd_divides(b % a, a);
        vstd::arithmetic::div_mod::lemma_fundamental_div_mod(b as int, a as int);
        vstd::arithmetic::div_mod::lemma_fundamental_div_mod(a as int, g as int);
        vstd::arithmetic::div_mod::lemma_fundamental_div_mod((b % a) as int, g as int);
        let k = (a as int / g as int) * (b as int / a as int) + (b % a) as int / g as int;
        assert(b as int == k * (g as int)) by (nonlinear_arith)
            requires
                b as int == (a as int) * (b as int / a as int) + (b % a) as int,
                a as int == (g as int) * (a as int / g as int),
                (b % a) as int == (g as int) * ((b % a) as int / g as int),
                k == (a as int / g as int) * (b as int / a as int) + (b % a) as int / g
                    as int,
        ;
        vstd::arithmetic::div_mod::lemma_mod_multiples_basic(k, g as int);
    }
}

/// Dividing out the greatest common divisor of numerator magnitude and
/// denominator; the reduced fraction denotes the same rational number.
pub open spec fn frac_reduce(f: Frac) -> Frac {
    if f.d >= 1 {
        let g = nat_gcd(vstd::math::abs(f.n), f.d as nat) as int;
        Frac { n: f.n / g, d: f.d / g }
    } else {
        f
    }
}

/// Reduction is sound: the result is well formed, denotes the same
/// rational, and keeps the numerator's sign and zeroness.
pub proof fn lemma_reduce_props(f: Frac)
    requires
        frac_wf(f),
    ensures
        frac_wf(frac_reduce(f)),
        frac_eq(frac_reduce(f), f),
        frac_reduce(f).n == 0 <==> f.n == 0,
        f.n >= 0 ==> frac_reduce(f).n == vstd::math::abs(f.n) as int / nat_gcd(
            vstd::math::abs(f.n),
            f.d as nat,
        ) as int,
        f.n < 0 ==> frac_reduce(f).n == -(vstd::math::abs(f.n) as int / nat_gcd(
            vstd::math::abs(f.n),
            f.d as nat,
        ) as int),
{
    let m = vstd::math::abs(f.n) as int;
    let g = nat_gcd(vstd::math::abs(f.n), f.d as nat) as int;
    lemma_gcd_divides(vstd::math::abs(f.n), f.d as nat);
    vstd::arithmetic::div_mod::lemma_fundamental_div_mod(m, g);
    vstd::arithmetic::div_mod::lemma_fundamental_div_mod(f.d, g);
    let qm = m / g;
    let qd = f.d / g;
    assert(qd >= 1) by (nonlinear_arith)
        requires
            f.d == g * qd,
            f.d >= 1,
            g >= 1,
    ;
    assert(qm >= 0) by (nonlinear_arith)
        requires
            m == g * qm,
            m >= 0,
            g >= 1,
    ;
    if f.n >= 0 {
        assert(f.n / g == qm);
        assert((f.n / g) * f.d == f.n * (f.d / g)) by (nonlinear_arith)
            requires
                f.n == g * (f.n / g),
                f.d == g * (f.d / g),
                g >= 1,
        ;
    } else {
        assert(f.n == (-qm) * g + 0) by (nonlinear_arith)
            requires
                m == g * qm,
                f.n == -m,
        ;
        vstd::arithmetic::div_mod::lemma_fundamental_div_mod_converse(f.n, g, -qm, 0);
        assert(f.n / g == -qm);
        assert((f.n / g) * f.d == f.n * (f.d / g)) by (nonlinear_arith)
            requires
                f.n == g * (f.n / g),
                f.d == g * (f.d / g),
                g >= 1,
        ;
        assert(f.n != 0 ==> qm != 0) by (nonlinear_arith)
            requires
                m == g * qm,
                f.n == -m,
        ;
    }
    assert(f.n != 0 ==> f.n / g != 0) by (nonlinear_arith)
        requires
            f.n == g * (f.n / g),
    ;
}

/// An exact rational scalar: `n / d` with `d >= 1`.
#[derive(Clone, Copy, Debug, PartialEq, Eq, Structural)]
pub struct Rat {
    /// The numerator.
    pub n: i128,
    /// The denominator; keep it positive (see [`Rat::wf`]).
    pub d: i128,
}

impl Rat {
    /// The fraction this scalar denotes.
    pub open spec fn v(self) -> Frac {
        Frac { n: self.n as int, d: self.d as int }
    }

    pub open spec fn wf(self) -> bool {
        frac_wf(self.v())
    }

    /// The whole number `i`.
    pub fn from_int(i: i64) -> (r: Rat)
        ensures
            r.wf(),
            r.v() == frac_from_int(i as int),
    {
        Rat { n: i as i128, d: 1 }
    }

    /// The fraction `num / den`; the denominator's sign is moved into the
    /// numerator. Fails exactly on a zero denominator or on a numerator that
    /// cannot be negated in the machine range.
    pub fn new(num: i128, den: i128) -> (r: Result<Rat, GeometryError>)
        ensures
            den >= 1 ==> (r matches Ok(q) && q.v() == Frac { n: num as int, d: den as int }),
            den <= -1 && num > i128::MIN && den > i128::MIN ==> (r matches Ok(q) && q.v() == Frac {
                n: -(num as int),
                d: -(den as int),
            }),
            r matches Ok(q) ==> q.wf() && frac_eq(q.v(), Frac { n: num as int, d: den as int })
                && den != 0,
    {
        if den >= 1 {
            Ok(Rat { n: num, d: den })
        } else if den == 0 || num == i128::MIN || den == i128::MIN {
            Err(GeometryError::NumericOverflow)
        } else {
            let q = Rat { n: -num, d: -den };
            proof {
                assert(frac_eq(q.v(), Frac { n: num as int, d: den as int })) by (nonlinear_arith)
                    requires q.v().n == -(num as int) && q.v().d == -(den as int);
            }
            Ok(q)
        }
    }

    /// The numerator, for callers outside the verified core.
    pub fn num(&self) -> (r: i128)
        ensures
            r as int == self.v().n,
    {
        self.n
    }

    /// The denominator, for callers outside the verified core.
    pub fn den(&self) -> (r: i128)
        ensures
            r as int == self.v().d,
    {
        self.d
    }

    /// Exact addition, or the overflow error when the cross products leave
    /// the machine range.
    pub fn add(self, o: Rat) -> (r: Result<Rat, GeometryError>)
        requires
            self.wf(),
            o.wf(),
        ensures
            r matches Ok(q) ==> q.wf() && q.v() == frac_add(self.v(), o.v()),
            r is Ok <==> add_fits(self.v(), o.v()),
            r matches Err(e) ==> e == GeometryError::NumericOverflow,
    {
        let n1 = match self.n.checked_mul(o.d) {
            Some(x) => x,
            None => return Err(GeometryError::NumericOverflow),
        };
        let n2 = match o.n.checked_mul(self.d) {
            Some(x) => x,
            None => return Err(GeometryError::NumericOverflow),
        };
        let n = match n1.checked_add(n2) {
            Some(x) => x,
            None => return Err(GeometryError::NumericOverflow),
        };
        let d = match self.d.checked_mul(o.d) {
            Some(x) => x,
            None => return Err(GeometryError::NumericOverflow),
        };
        proof {
            assert(d as int >= 1) by (nonlinear_arith)
                requires d as int == self.v().d * o.v().d && self.v().d >= 1 && o.v().d >= 1;
        }
        Ok(Rat { n, d })
    }

    /// Exact subtraction, or the overflow error.
    pub fn sub(self, o: Rat) -> (r: Result<Rat, GeometryError>)
        requires
            self.wf(),
            o.wf(),
        ensures
            r matches Ok(q) ==> q.wf() && q.v() == frac_sub(self.v(), o.v()),
            r is Ok <==> sub_fits(self.v(), o.v()),
            r matches Err(e) ==> e == GeometryError::NumericOverflow,
    {
        let n1 = match self.n.checked_mul(o.d) {
            Some(x) => x,
            None => return Err(GeometryError::NumericOverflow),
        };
        let n2 = match o.n.checked_mul(self.d) {
            Some(x) => x,
            None => return Err(GeometryError::NumericOverflow),
        };
        let n = match n1.checked_sub(n2) {
            Some(x) => x,
            None => return Err(GeometryError::NumericOverflow),
        };
        let d = match self.d.checked_mul(o.d) {
            Some(x) => x,
            None => return Err(GeometryError::NumericOverflow),
        };
        proof {
            assert(d as int >= 1) by (nonlinear_arith)
                requires d as int == self.v().d * o.v().d && self.v().d >= 1 && o.v().d >= 1;
        }
        Ok(Rat { n, d })
    }

    /// Exact multiplication, or the overflow error.
    pub fn mul(self, o: Rat) -> (r: Result<Rat, GeometryError>)
        requires
            self.wf(),
            o.wf(),
        ensures
            r matches Ok(q) ==> q.wf() && q.v() == frac_mul(self.v(), o.v()),
            r is Ok <==> mul_fits(self.v(), o.v()),
            r matches Err(e) ==> e == GeometryError::NumericOverflow,
    {
        let n = match self.n.checked_mul(o.n) {
            Some(x) => x,
            None => return Err(GeometryError::NumericOverflow),
        };
        let d = match self.d.checked_mul(o.d) {
            Some(x) => x,
            None => return Err(GeometryError::NumericOverflow),
        };
        proof {
            assert(d as int >= 1) by (nonlinear_arith)
                requires d as int == self.v().d * o.v().d && self.v().d >= 1 && o.v().d >= 1;
        }
        Ok(Rat { n, d })
    }

    /// Exact division by a non-zero scalar, or the overflow error.
    pub fn div(self, o: Rat) -> (r: Result<Rat, GeometryError>)
        requires
            self.wf(),
            o.wf(),
            o.v().n != 0,
        ensures
            r matches Ok(q) ==> q.wf() && q.v() == frac_div(self.v(), o.v()),
            r is Ok <==> div_fits(self.v(), o.v()),
            r matches Err(e) ==> e == GeometryError::NumericOverflow,
    {
        let n1 = match self.n.checked_mul(o.d) {
            Some(x) => x,
            None => return Err(GeometryError::NumericOverflow),
        };
        let d1 = match self.d.checked_mul(o.n) {
            Some(x) => x,
            None => return Err(GeometryError::NumericOverflow),
        };
        if o.n >= 1 {
            proof {
                assert(d1 as int >= 1) by (nonlinear_arith)
                    requires d1 as int == self.v().d * o.v().n && self.v().d >= 1
                        && o.v().n >= 1;
            }
            Ok(Rat { n: n1, d: d1 })
        } else {
            let n = match 0i128.checked_sub(n1) {
                Some(x) => x,
                None => return Err(GeometryError::NumericOverflow),
            };
            let d = match 0i128.checked_sub(d1) {
                Some(x) => x,
                None => return Err(GeometryError::NumericOverflow),
            };
            proof {
                assert(d as int >= 1) by (nonlinear_arith)
                    requires d as int == -(self.v().d * o.v().n) && self.v().d >= 1
                        && o.v().n <= -1;
            }
            Ok(Rat { n, d })
        }
    }

    /// Exact negation, or the overflow error on the one unrepresentable value.
    pub fn neg(self) -> (r: Result<Rat, GeometryError>)
        requires
            self.wf(),
        ensures
            r matches Ok(q) ==> q.wf() && q.v() == frac_neg(self.v()),
            r is Ok <==> in_i128(-self.v().n),
            r matches Err(e) ==> e == GeometryError::NumericOverflow,
    {
        match 0i128.checked_sub(self.n) {
            Some(x) => Ok(Rat { n: x, d: self.d }),
            None => Err(GeometryError::NumericOverflow),
        }
    }

    /// Whether this scalar is exactly zero.
    pub fn is_zero(&self) -> (r: bool)
        requires
            self.wf(),
        ensures
            r == frac_eq(self.v(), frac_from_int(0)),
    {
        self.n == 0
    }

    /// `self <= o` as rational numbers, or the overflow error when the
    /// comparison's cross products leave the machine range.
    pub fn le(self, o: Rat) -> (r: Result<bool, GeometryError>)
        requires
            self.wf(),
            o.wf(),
        ensures
            r matches Ok(b) ==> b == frac_le(self.v(), o.v()),
            r is Ok <==> in_i128(self.v().n * o.v().d) && in_i128(o.v().n * self.v().d),
            r matches Err(e) ==> e == GeometryError::NumericOverflow,
    {
        let lhs = match self.n.checked_mul(o.d) {
            Some(x) => x,
            None => return Err(GeometryError::NumericOverflow),
        };
        let rhs = match o.n.checked_mul(self.d) {
            Some(x) => x,
            None => return Err(GeometryError::NumericOverflow),
        };
        Ok(lhs <= rhs)
    }

    /// The same rational in lowest terms, exactly per [`frac_reduce`].
    /// Reduction keeps intermediate values small, which is what lets long
    /// chains of exact operations stay inside the machine range.
    pub fn reduced(self) -> (r: Rat)
        requires
            self.wf(),
        ensures
            r.wf(),
            r.v() == frac_reduce(self.v()),
            frac_eq(r.v(), self.v()),
            r.v().n == 0 <==> self.v().n == 0,
    {
        proof {
            lemma_reduce_props(self.v());
        }
        let m: u128 = if self.n >= 0 {
            self.n as u128
        } else if self.n == i128::MIN {
            (i128::MAX as u128) + 1
        } else {
            (-self.n) as u128
        };
        proof {
            assert(m as int == vstd::math::abs(self.v().n) as int);
        }
        let g: u128 = gcd_u128(m, self.d as u128);
        if g == 1 {
            proof {
                vstd::arithmetic::div_mod::lemma_div_basics(self.v().n);
                vstd::arithmetic::div_mod::lemma_div_basics(self.v().d);
            }
            self
        } else {
            let q = m / g;
            let dq = (self.d as u128) / g;
            proof {
                let gi = g as int;
                lemma_gcd_divides(vstd::math::abs(self.v().n), self.v().d as nat);
                vstd::arithmetic::div_mod::lemma_fundamental_div_mod(m as int, gi);
                vstd::arithmetic::div_mod::lemma_fundamental_div_mod(self.v().d, gi);
                assert(q * g == m) by (nonlinear_arith)
                    requires
                        m as int == gi * (m as int / gi),
                        q == m as int / gi,
                        g == gi,
                ;
                assert(q <= i128::MAX as u128) by (nonlinear_arith)
                    requires
                        q * g == m,
                        g >= 2,
                        m <= (i128::MAX as u128) + 1,
                ;
                assert(dq * g == self.d) by (nonlinear_arith)
                    requires
                        self.v().d == gi * (self.v().d / gi),
                        dq == self.v().d / gi,
                        g == gi,
                ;
                assert(dq <= i128::MAX as u128) by (nonlinear_arith)
                    requires
                        dq * g == self.d,
                        g >= 2,
                        self.d <= i128::MAX,
                ;
            }
            let n2: i128 = if self.n < 0 {
                -(q as i128)
            } else {
                q as i128
            };
            Rat { n: n2, d: dq as i128 }
        }
    }
}

/// Euclid's algorithm on machine words, exactly [`nat_gcd`].
fn gcd_u128(a0: u128, b0: u128) -> (r: u128)
    requires
        b0 >= 1,
    ensures
        r as nat == nat_gcd(a0 as nat, b0 as nat),
        r >= 1,
{
    let mut a = a0;
    let mut b = b0;
    while a != 0
        invariant
            b >= 1,
            nat_gcd(a as nat, b as nat) == nat_gcd(a0 as nat, b0 as nat),
        decreases a,
    {
        let t = b % a;
        b = a;
        a = t;
    }
    proof {
        lemma_gcd_divides(a0 as nat, b0 as nat);
    }
    b
}

} // verus!

//! The scalar capability that user functions are written against.
//!
//! A function meant for differentiation is written generically over
//! `Scalar`; the drivers instantiate it with `Dual` values. The trait
//! pairs every executable operation with an abstract spec-level
//! counterpart, so contracts can speak of what an operation returns
//! without fixing which number type is underneath.

use vstd::prelude::*;

verus! {

/// Result of comparing two scalars by value; `None` from `cmp_v` means
/// the two values are unordered.
#[derive(Clone, Copy, Debug, PartialEq, Eq)]
pub enum Cmp {
    Less,
    Equal,
    Greater,
}

/// Repeated multiplication: `x` to the power `n`.
pub open spec fn pow_n<S: Scalar>(x: S, n: nat) -> S
    decreases n,
{
    if n == 0 {
        S::one_s()
    } else {
        x.mul_s(pow_n(x, (n - 1) as nat))
    }
}

/// An ordered-field-with-transcendentals capability.
///
/// The spec functions (`add_s`, `mul_s`, ...) are each implementor's
/// mathematical model of its operations; the exec methods promise to
/// return exactly the modelled value. The minimal required surface is
/// field arithmetic, comparison by value, `exp`/`ln`, the combined
/// sine-cosine primitive, and conversion from small integers; the
/// remaining operations are derived from it.
///
/// An implementor also owes the commutative-ring laws of its addition
/// and multiplication (`add_laws`, `mul_laws`); nesting `Dual` inside
/// `Dual` depends on them.
pub trait Scalar: Sized + Copy {
    spec fn zero_s() -> Self;

    spec fn one_s() -> Self;

    spec fn of_int_s(n: i64) -> Self;

    spec fn add_s(self, rhs: Self) -> Self;

    spec fn sub_s(self, rhs: Self) -> Self;

    spec fn mul_s(self, rhs: Self) -> Self;

    spec fn div_s(self, rhs: Self) -> Self;

    spec fn neg_s(self) -> Self;

    spec fn exp_s(self) -> Self;

    spec fn ln_s(self) -> Self;

    spec fn sin_s(self) -> Self;

    spec fn cos_s(self) -> Self;

    spec fn cmp_s(self, rhs: Self) -> Option<Cmp>;

    fn zero() -> (r: Self)
        ensures
            r == Self::zero_s(),
    ;

    fn one() -> (r: Self)
        ensures
            r == Self::one_s(),
    ;

    fn of_int(n: i64) -> (r: Self)
        ensures
            r == Self::of_int_s(n),
    ;

    fn add(self, rhs: Self) -> (r: Self)
        ensures
            r == self.add_s(rhs),
    ;

    fn sub(self, rhs: Self) -> (r: Self)
        ensures
            r == self.sub_s(rhs),
    ;

    fn mul(self, rhs: Self) -> (r: Self)
        ensures
            r == self.mul_s(rhs),
    ;

    fn div(self, rhs: Self) -> (r: Self)
        ensures
            r == self.div_s(rhs),
    ;

    fn neg(self) -> (r: Self)
        ensures
            r == self.neg_s(),
    ;

    fn exp(self) -> (r: Self)
        ensures
            r == self.exp_s(),
    ;

    fn ln(self) -> (r: Self)
        ensures
            r == self.ln_s(),
    ;

    /// The combined sine-cosine primitive: one call yields both.
    fn sin_cos(self) -> (r: (Self, Self))
        ensures
            r.0 == self.sin_s(),
            r.1 == self.cos_s(),
    ;

    fn cmp_v(self, rhs: Self) -> (r: Option<Cmp>)
        ensures
            r == self.cmp_s(rhs),
    ;

    /// Addition is commutative and associative with `zero_s` as its
    /// identity.
    proof fn add_laws(a: Self, b: Self, c: Self)
        ensures
            a.add_s(b) == b.add_s(a),
            (a.add_s(b)).add_s(c) == a.add_s(b.add_s(c)),
            a.add_s(Self::zero_s()) == a,
    ;

    /// Multiplication is commutative and associative, has `one_s` as
    /// its identity, annihilates on `zero_s`, and distributes over
    /// addition.
    proof fn mul_laws(a: Self, b: Self, c: Self)
        ensures
            a.mul_s(b) == b.mul_s(a),
            (a.mul_s(b)).mul_s(c) == a.mul_s(b.mul_s(c)),
            a.mul_s(Self::one_s()) == a,
            a.mul_s(Self::zero_s()) == Self::zero_s(),
            a.mul_s(b.add_s(c)) == (a.mul_s(b)).add_s(a.mul_s(c)),
    ;

    fn sin(self) -> (r: Self)
        ensures
            r == self.sin_s(),
    {
        let (s, _) = self.sin_cos();
        s
    }

    fn cos(self) -> (r: Self)
        ensures
            r == self.cos_s(),
    {
        let (_, c) = self.sin_cos();
        c
    }

    fn tan(self) -> (r: Self)
        ensures
            r == self.sin_s().div_s(self.cos_s()),
    {
        let (s, c) = self.sin_cos();
        s.div(c)
    }

    fn lt(self, rhs: Self) -> (b: bool)
        ensures
            b == (self.cmp_s(rhs) == Some(Cmp::Less)),
    {
        match self.cmp_v(rhs) {
            Some(Cmp::Less) => true,
            _ => false,
        }
    }

    fn gt(self, rhs: Self) -> (b: bool)
        ensures
            b == (self.cmp_s(rhs) == Some(Cmp::Greater)),
    {
        match self.cmp_v(rhs) {
            Some(Cmp::Greater) => true,
            _ => false,
        }
    }

    fn is_zero(self) -> (b: bool)
        ensures
            b == (self.cmp_s(Self::zero_s()) == Some(Cmp::Equal)),
    {
        match self.cmp_v(Self::zero()) {
            Some(Cmp::Equal) => true,
            _ => false,
        }
    }

    /// The larger by value; on ties or unordered values, `self`.
    fn max(self, other: Self) -> (r: Self)
        ensures
            r == (if self.cmp_s(other) == Some(Cmp::Less) {
                other
            } else {
                self
            }),
    {
        if self.lt(other) {
            other
        } else {
            self
        }
    }

    /// The smaller by value; on ties or unordered values, `self`.
    fn min(self, other: Self) -> (r: Self)
        ensures
            r == (if self.cmp_s(other) == Some(Cmp::Greater) {
                other
            } else {
                self
            }),
    {
        if self.gt(other) {
            other
        } else {
            self
        }
    }

    fn signum(self) -> (r: Self)
        ensures
            r == (match self.cmp_s(Self::zero_s()) {
                None => Self::zero_s(),
                Some(Cmp::Equal) => Self::zero_s(),
                Some(Cmp::Greater) => Self::one_s(),
                Some(Cmp::Less) => Self::one_s().neg_s(),
            }),
    {
        match self.cmp_v(Self::zero()) {
            None => Self::zero(),
            Some(Cmp::Equal) => Self::zero(),
            Some(Cmp::Greater) => Self::one(),
            Some(Cmp::Less) => Self::one().neg(),
        }
    }

    /// The absolute value is taken as `x * signum(x)`, so at a point
    /// where the sign switches it inherits the value-only ordering's
    /// behaviour rather than a hand-written rule.
    fn abs(self) -> (r: Self)
        ensures
            r == self.mul_s(match self.cmp_s(Self::zero_s()) {
                None => Self::zero_s(),
                Some(Cmp::Equal) => Self::zero_s(),
                Some(Cmp::Greater) => Self::one_s(),
                Some(Cmp::Less) => Self::one_s().neg_s(),
            }),
    {
        self.mul(self.signum())
    }

    fn abs_sub(self, rhs: Self) -> (r: Self)
        ensures
            r == (self.sub_s(rhs)).mul_s(match (self.sub_s(rhs)).cmp_s(Self::zero_s()) {
                None => Self::zero_s(),
                Some(Cmp::Equal) => Self::zero_s(),
                Some(Cmp::Greater) => Self::one_s(),
                Some(Cmp::Less) => Self::one_s().neg_s(),
            }),
    {
        (self.sub(rhs)).abs()
    }

    fn is_sign_positive(self) -> (b: bool)
        ensures
            b == ((match self.cmp_s(Self::zero_s()) {
                None => Self::zero_s(),
                Some(Cmp::Equal) => Self::zero_s(),
                Some(Cmp::Greater) => Self::one_s(),
                Some(Cmp::Less) => Self::one_s().neg_s(),
            }).cmp_s(Self::zero_s()) == Some(Cmp::Greater)),
    {
        self.signum().gt(Self::zero())
    }

    fn is_sign_negative(self) -> (b: bool)
        ensures
            b == ((match self.cmp_s(Self::zero_s()) {
                None => Self::zero_s(),
                Some(Cmp::Equal) => Self::zero_s(),
                Some(Cmp::Greater) => Self::one_s(),
                Some(Cmp::Less) => Self::one_s().neg_s(),
            }).cmp_s(Self::zero_s()) == Some(Cmp::Less)),
    {
        self.signum().lt(Self::zero())
    }

    fn mul_add(self, x: Self, b: Self) -> (r: Self)
        ensures
            r == (self.mul_s(x)).add_s(b),
    {
        self.mul(x).add(b)
    }

    fn recip(self) -> (r: Self)
        ensures
            r == Self::one_s().div_s(self),
    {
        Self::one().div(self)
    }

    fn powf(self, e: Self) -> (r: Self)
        ensures
            r == (e.mul_s(self.ln_s())).exp_s(),
    {
        (e.mul(self.ln())).exp()
    }

    fn sqrt(self) -> (r: Self)
        ensures
            r == ((Self::of_int_s(1).div_s(Self::of_int_s(2))).mul_s(self.ln_s())).exp_s(),
    {
        self.powf(Self::of_int(1).div(Self::of_int(2)))
    }

    fn cbrt(self) -> (r: Self)
        ensures
            r == ((Self::of_int_s(1).div_s(Self::of_int_s(3))).mul_s(self.ln_s())).exp_s(),
    {
        self.powf(Self::of_int(1).div(Self::of_int(3)))
    }

    fn exp2(self) -> (r: Self)
        ensures
            r == (self.mul_s(Self::of_int_s(2).ln_s())).exp_s(),
    {
        Self::of_int(2).powf(self)
    }

    /// Logarithm in base `b`, as a ratio of natural logarithms.
    fn log(self, b: Self) -> (r: Self)
        ensures
            r == self.ln_s().div_s(b.ln_s()),
    {
        self.ln().div(b.ln())
    }

    fn log2(self) -> (r: Self)
        ensures
            r == self.ln_s().div_s(Self::of_int_s(2).ln_s()),
    {
        self.log(Self::of_int(2))
    }

    fn log10(self) -> (r: Self)
        ensures
            r == self.ln_s().div_s(Self::of_int_s(10).ln_s()),
    {
        self.log(Self::of_int(10))
    }

    fn hypot(self, b: Self) -> (r: Self)
        ensures
            r == ((Self::of_int_s(1).div_s(Self::of_int_s(2))).mul_s(
                ((self.mul_s(self)).add_s(b.mul_s(b))).ln_s(),
            )).exp_s(),
    {
        (self.mul(self).add(b.mul(b))).sqrt()
    }

    // The operations below are not part of the guaranteed capability:
    // an implementation may decline one by returning `None`, as the
    // defaults do, but must never return a silently wrong value in its
    // place.
    fn floor(self) -> Option<Self> {
        None
    }

    fn ceil(self) -> Option<Self> {
        None
    }

    fn round(self) -> Option<Self> {
        None
    }

    fn trunc(self) -> Option<Self> {
        None
    }

    fn fract(self) -> Option<Self> {
        None
    }

    fn rem_v(self, _rhs: Self) -> Option<Self> {
        None
    }

    fn to_degrees(self) -> Option<Self> {
        None
    }

    fn to_radians(self) -> Option<Self> {
        None
    }

    fn asin(self) -> Option<Self> {
        None
    }

    fn acos(self) -> Option<Self> {
        None
    }

    fn atan(self) -> Option<Self> {
        None
    }

    fn atan2(self, _rhs: Self) -> Option<Self> {
        None
    }

    fn exp_m1(self) -> Option<Self> {
        None
    }

    fn ln_1p(self) -> Option<Self> {
        None
    }

    fn sinh(self) -> Option<Self> {
        None
    }

    fn cosh(self) -> Option<Self> {
        None
    }

    fn tanh(self) -> Option<Self> {
        None
    }

    fn asinh(self) -> Option<Self> {
        None
    }

    fn acosh(self) -> Option<Self> {
        None
    }

    fn atanh(self) -> Option<Self> {
        None
    }
}

/// Splitting an even exponent: `x^(2m) == (x*x)^m`.
pub proof fn lemma_pow_square<S: Scalar>(x: S, m: nat)
    ensures
        pow_n(x, 2 * m) == pow_n(x.mul_s(x), m),
    decreases m,
{
    if m > 0 {
        lemma_pow_square(x, (m - 1) as nat);
        assert(pow_n(x, 2 * m) == x.mul_s(pow_n(x, (2 * m - 1) as nat)));
        assert(pow_n(x, (2 * m - 1) as nat) == x.mul_s(pow_n(x, (2 * m - 2) as nat)));
        S::mul_laws(x, x, pow_n(x, (2 * m - 2) as nat));
        assert(pow_n(x.mul_s(x), m) == (x.mul_s(x)).mul_s(pow_n(x.mul_s(x), (m - 1) as nat)));
    }
}

/// Integer power by binary exponentiation; a negative exponent goes
/// through the reciprocal first.
pub fn powi<S: Scalar>(base: S, e: i32) -> (r: S)
    requires
        e > i32::MIN,
    ensures
        e >= 0 ==> r == pow_n(base, e as nat),
        e < 0 ==> r == pow_n(S::one_s().div_s(base), (-e) as nat),
{
    let mut x: S = if e < 0 {
        base.recip()
    } else {
        base
    };
    let mut k: u32 = if e < 0 {
        (-e) as u32
    } else {
        e as u32
    };
    let ghost x0 = x;
    let ghost k0 = k as nat;
    let mut acc = S::one();
    proof {
        S::mul_laws(pow_n(x0, k0), S::one_s(), S::one_s());
    }
    while k > 0
        invariant
            acc.mul_s(pow_n(x, k as nat)) == pow_n(x0, k0),
        decreases k,
    {
        let ghost m = (k / 2) as nat;
        if k % 2 == 1 {
            proof {
                lemma_pow_square(x, m);
                assert(pow_n(x, k as nat) == x.mul_s(pow_n(x, (k - 1) as nat)));
                S::mul_laws(acc, x, pow_n(x.mul_s(x), m));
            }
            acc = acc.mul(x);
        } else {
            proof {
                lemma_pow_square(x, m);
            }
        }
        x = x.mul(x);
        k = k / 2;
    }
    proof {
        S::mul_laws(acc, S::one_s(), S::one_s());
    }
    acc
}

} // verus!

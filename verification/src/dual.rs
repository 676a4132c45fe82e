//! Dual numbers: a value paired with a directional derivative.
//!
//! Every arithmetic and transcendental operation propagates the
//! derivative channel by the corresponding calculus rule (linearity,
//! product rule, quotient rule, chain rule). The rules are stated in
//! the spec functions of the `Scalar` implementation, so the contract
//! of each operation is exactly its differentiation rule over the
//! underlying scalar's abstract operations.
//!
//! `Dual<S>` itself implements `Scalar`, so a function written against
//! `Scalar` can be instantiated with `Dual<Dual<S>>` values; the inner
//! derivative channel of the outer derivative channel then carries a
//! second derivative.

use vstd::prelude::*;

use crate::scalar::Cmp;
use crate::scalar::Scalar;

verus! {

/// A pair of a function value `r` and a directional derivative `d`.
///
/// Seed values follow the convention of forward-mode differentiation:
/// the one input being differentiated against carries `d == 1`, every
/// other input and every constant carries `d == 0`.
#[derive(Clone, Copy, Debug, PartialEq)]
pub struct Dual<S: Scalar> {
    pub r: S,
    pub d: S,
}

impl<S: Scalar> Dual<S> {
    /// A constant: the derivative channel starts at zero.
    pub fn new(r: S) -> (res: Self)
        ensures
            res.r == r,
            res.d == S::zero_s(),
    {
        Dual { r, d: S::zero() }
    }
}

impl<S: Scalar> Scalar for Dual<S> {
    open spec fn zero_s() -> Self {
        Dual { r: S::zero_s(), d: S::zero_s() }
    }

    open spec fn one_s() -> Self {
        Dual { r: S::one_s(), d: S::zero_s() }
    }

    open spec fn of_int_s(n: i64) -> Self {
        Dual { r: S::of_int_s(n), d: S::zero_s() }
    }

    /// Linearity: both channels add componentwise.
    open spec fn add_s(self, rhs: Self) -> Self {
        Dual { r: self.r.add_s(rhs.r), d: self.d.add_s(rhs.d) }
    }

    /// Linearity: both channels subtract componentwise.
    open spec fn sub_s(self, rhs: Self) -> Self {
        Dual { r: self.r.sub_s(rhs.r), d: self.d.sub_s(rhs.d) }
    }

    /// Product rule: `(fg)' == f g' + f' g`.
    open spec fn mul_s(self, rhs: Self) -> Self {
        Dual {
            r: self.r.mul_s(rhs.r),
            d: (self.r.mul_s(rhs.d)).add_s(self.d.mul_s(rhs.r)),
        }
    }

    /// Quotient rule: `(f/g)' == (f' g - f g') / g^2`.
    open spec fn div_s(self, rhs: Self) -> Self {
        Dual {
            r: self.r.div_s(rhs.r),
            d: ((self.d.mul_s(rhs.r)).sub_s(self.r.mul_s(rhs.d))).div_s(rhs.r.mul_s(rhs.r)),
        }
    }

    open spec fn neg_s(self) -> Self {
        Dual { r: self.r.neg_s(), d: self.d.neg_s() }
    }

    /// Chain rule for the exponential: `(exp f)' == exp(f) f'`.
    open spec fn exp_s(self) -> Self {
        Dual { r: self.r.exp_s(), d: self.r.exp_s().mul_s(self.d) }
    }

    /// Chain rule for the logarithm: `(ln f)' == f' / f`.
    open spec fn ln_s(self) -> Self {
        Dual { r: self.r.ln_s(), d: self.d.div_s(self.r) }
    }

    /// Chain rule for sine: `(sin f)' == f' cos(f)`.
    open spec fn sin_s(self) -> Self {
        Dual { r: self.r.sin_s(), d: self.d.mul_s(self.r.cos_s()) }
    }

    /// Chain rule for cosine: `(cos f)' == -f' sin(f)`.
    open spec fn cos_s(self) -> Self {
        Dual { r: self.r.cos_s(), d: (self.d.neg_s()).mul_s(self.r.sin_s()) }
    }

    /// Dual values are ordered solely by their value channel; the
    /// derivative channel takes no part in comparisons.
    open spec fn cmp_s(self, rhs: Self) -> Option<Cmp> {
        self.r.cmp_s(rhs.r)
    }

    fn zero() -> (r: Self) {
        Dual { r: S::zero(), d: S::zero() }
    }

    fn one() -> (r: Self) {
        Dual { r: S::one(), d: S::zero() }
    }

    fn of_int(n: i64) -> (r: Self) {
        Dual { r: S::of_int(n), d: S::zero() }
    }

    fn add(self, rhs: Self) -> (r: Self) {
        Dual { r: self.r.add(rhs.r), d: self.d.add(rhs.d) }
    }

    fn sub(self, rhs: Self) -> (r: Self) {
        Dual { r: self.r.sub(rhs.r), d: self.d.sub(rhs.d) }
    }

    fn mul(self, rhs: Self) -> (r: Self) {
        Dual {
            r: self.r.mul(rhs.r),
            d: (self.r.mul(rhs.d)).add(self.d.mul(rhs.r)),
        }
    }

    fn div(self, rhs: Self) -> (r: Self) {
        Dual {
            r: self.r.div(rhs.r),
            d: ((self.d.mul(rhs.r)).sub(self.r.mul(rhs.d))).div(rhs.r.mul(rhs.r)),
        }
    }

    fn neg(self) -> (r: Self) {
        Dual { r: self.r.neg(), d: self.d.neg() }
    }

    fn exp(self) -> (r: Self) {
        let er = self.r.exp();
        Dual { r: er, d: er.mul(self.d) }
    }

    fn ln(self) -> (r: Self) {
        Dual { r: self.r.ln(), d: self.d.div(self.r) }
    }

    /// One transcendental call on the value channel serves both results.
    fn sin_cos(self) -> (r: (Self, Self)) {
        let (s, c) = self.r.sin_cos();
        let sine = Dual { r: s, d: self.d.mul(c) };
        let cosine = Dual { r: c, d: (self.d.neg()).mul(s) };
        proof {
            assert(sine == self.sin_s());
            assert(cosine == self.cos_s());
        }
        (sine, cosine)
    }

    fn cmp_v(self, rhs: Self) -> (r: Option<Cmp>) {
        self.r.cmp_v(rhs.r)
    }

    proof fn add_laws(a: Self, b: Self, c: Self) {
        S::add_laws(a.r, b.r, c.r);
        S::add_laws(a.d, b.d, c.d);
    }

    proof fn mul_laws(a: Self, b: Self, c: Self) {
        // Commutativity and the identities, componentwise.
        S::mul_laws(a.r, b.r, c.r);
        S::mul_laws(a.r, b.d, c.r);
        S::mul_laws(a.d, b.r, c.r);
        S::add_laws(a.r.mul_s(b.d), a.d.mul_s(b.r), a.d.mul_s(b.r));
        S::mul_laws(a.d, Self::one_s().r, c.r);
        S::add_laws(S::zero_s(), a.d, S::zero_s());
        S::add_laws(a.d, S::zero_s(), S::zero_s());
        S::add_laws(S::zero_s(), S::zero_s(), S::zero_s());
        // Associativity: expand both derivative channels to the same
        // three-term sum.
        S::mul_laws(a.r, b.r, c.d);
        S::mul_laws(a.d, b.r, c.d);
        S::mul_laws((a.r.mul_s(b.d)).add_s(a.d.mul_s(b.r)), c.r, c.r);
        S::mul_laws(c.r, a.r.mul_s(b.d), a.d.mul_s(b.r));
        S::mul_laws(c.r, a.d.mul_s(b.r), c.r);
        S::mul_laws(a.r, b.r.mul_s(c.d), b.d.mul_s(c.r));
        S::add_laws(
            a.r.mul_s(b.r.mul_s(c.d)),
            a.r.mul_s(b.d.mul_s(c.r)),
            a.d.mul_s(b.r.mul_s(c.r)),
        );
        assert((a.mul_s(b)).mul_s(c).d == a.mul_s(b.mul_s(c)).d);
        // Distributivity: expand both derivative channels to a
        // four-term sum and rearrange.
        S::mul_laws(a.r, b.d, c.d);
        S::mul_laws(a.d, b.r, c.r);
        let p = a.r.mul_s(b.d);
        let q = a.r.mul_s(c.d);
        let u = a.d.mul_s(b.r);
        let w = a.d.mul_s(c.r);
        S::add_laws(p, q, u.add_s(w));
        S::add_laws(q, u, w);
        S::add_laws(u, q, w);
        S::add_laws(p, u, q.add_s(w));
        assert(a.mul_s(b.add_s(c)).d == (a.mul_s(b)).add_s(a.mul_s(c)).d);
    }
}

} // verus!

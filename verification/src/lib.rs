//! Forward-mode automatic differentiation with dual numbers.
//!
//! A `Dual` value carries a function value together with a directional
//! derivative through ordinary arithmetic. The drivers `diff`, `grad`,
//! `jacobian` and `hessian` seed the derivative channel of the inputs,
//! evaluate the caller's function once per seeded input, and read the
//! derivative channel back out.

pub mod dual;
pub mod jacobian;
pub mod matrix;
pub mod scalar;

use vstd::prelude::*;

use crate::dual::Dual;
use crate::scalar::Scalar;

verus! {

/// The seed for a scalar derivative at `x`: the derivative of `x` with
/// respect to itself is one.
pub open spec fn diff_seed<S: Scalar>(x: S) -> Dual<S> {
    Dual { r: x, d: S::one_s() }
}

/// What `diff` may return: the derivative channel of some evaluation of
/// `f` on the seeded input.
pub open spec fn diff_post<S: Scalar, F: Fn(Dual<S>) -> Dual<S>>(f: F, x: S, r: S) -> bool {
    exists|fx: Dual<S>| call_ensures(f, (diff_seed(x),), fx) && r == fx.d
}

/// Derivative of `f` at `x`, by one evaluation over dual numbers.
pub fn diff<S: Scalar, F: Fn(Dual<S>) -> Dual<S>>(f: &F, x: S) -> (r: S)
    requires
        call_requires(*f, (diff_seed(x),)),
    ensures
        diff_post(*f, x, r),
{
    let seed = Dual { r: x, d: S::one() };
    let fx = f(seed);
    fx.d
}

/// A reusable "derivative of `f`" callable that closes over `f`.
pub fn make_diff_fn<'a, S: Scalar, F: Fn(Dual<S>) -> Dual<S>>(f: &'a F) -> (g: impl Fn(S) -> S +
    'a)
    ensures
        forall|x: S| call_requires(*f, (diff_seed(x),)) ==> call_requires(g, (x,)),
        forall|x: S, y: S| call_ensures(g, (x,), y) ==> diff_post(*f, x, y),
{
    move |x: S| -> (y: S)
        requires
            call_requires(*f, (diff_seed(x),)),
        ensures
            diff_post(*f, x, y),
        {
            diff(f, x)
        }
}

/// Why a driver refused to run.
#[derive(Clone, Copy, Debug, PartialEq, Eq, Structural)]
pub enum AdError {
    /// An input, output, or scratch buffer has the wrong length.
    BufferMismatch,
    /// A supplied result matrix has the wrong dimensions.
    MatrixMismatch,
    /// The vector function produced a vector of the wrong length.
    OutputMismatch,
}

/// The input vector lifted to constants: every derivative channel zero.
pub open spec fn consts_of<S: Scalar>(x: Seq<S>) -> Seq<Dual<S>> {
    Seq::new(x.len(), |k: int| Dual { r: x[k], d: S::zero_s() })
}

/// The input vector with the derivative channel of index `i` seeded to
/// one and every other channel zero.
pub open spec fn seeded<S: Scalar>(x: Seq<S>, i: int) -> Seq<Dual<S>> {
    Seq::new(
        x.len(),
        |k: int|
            Dual {
                r: x[k],
                d: if k == i {
                    S::one_s()
                } else {
                    S::zero_s()
                },
            },
    )
}

/// Every seeding of `x` is an acceptable input of `f`.
pub open spec fn grad_call_ok<S: Scalar, F: Fn(&Vec<Dual<S>>) -> Dual<S>>(
    f: F,
    x: Seq<S>,
) -> bool {
    forall|i: int, v: Vec<Dual<S>>|
        0 <= i < x.len() && v@ == seeded(x, i) ==> call_requires(f, (&v,))
}

/// `gi` is the derivative channel of some evaluation of `f` on the
/// `i`-seeded input.
pub open spec fn grad_entry_ok<S: Scalar, F: Fn(&Vec<Dual<S>>) -> Dual<S>>(
    f: F,
    x: Seq<S>,
    i: int,
    gi: S,
) -> bool {
    exists|v: Vec<Dual<S>>, fx: Dual<S>|
        v@ == seeded(x, i) && call_ensures(f, (&v,), fx) && gi == fx.d
}

/// What `grad` writes on success: entry `i` holds the partial
/// derivative with respect to input `i`, for every `i`.
pub open spec fn grad_post<S: Scalar, F: Fn(&Vec<Dual<S>>) -> Dual<S>>(
    f: F,
    x: Seq<S>,
    g: Seq<S>,
) -> bool {
    &&& g.len() == x.len()
    &&& forall|i: int| 0 <= i < x.len() ==> grad_entry_ok(f, x, i, #[trigger] g[i])
}

/// All partial derivatives of `f` at `x`, one evaluation per input,
/// reusing the caller's scratch buffer `buf` across the evaluations.
///
/// Refuses to run unless `x`, `g` and `buf` all have the same length;
/// on refusal nothing is written. On success the scratch buffer is
/// handed back fully reset: real parts from `x`, derivative parts zero.
pub fn grad<S: Scalar, F: Fn(&Vec<Dual<S>>) -> Dual<S>>(
    f: &F,
    x: &Vec<S>,
    g: &mut Vec<S>,
    buf: &mut Vec<Dual<S>>,
) -> (res: Result<(), AdError>)
    requires
        grad_call_ok(*f, x@),
    ensures
        res is Ok <==> old(g)@.len() == x@.len() && old(buf)@.len() == x@.len(),
        res is Ok ==> grad_post(*f, x@, final(g)@) && final(buf)@ == consts_of(x@),
        res is Err ==> final(g)@ == old(g)@ && final(buf)@ == old(buf)@,
{
    if g.len() != x.len() || buf.len() != x.len() {
        return Err(AdError::BufferMismatch);
    }
    let n = x.len();
    let mut k: usize = 0;
    while k < n
        invariant
            n == x@.len(),
            buf@.len() == n,
            0 <= k <= n,
            forall|j: int| 0 <= j < k ==> buf@[j] == consts_of(x@)[j],
        decreases n - k,
    {
        buf.set(k, Dual::new(x[k]));
        k += 1;
    }
    proof {
        assert(buf@ =~= consts_of(x@));
    }
    let mut i: usize = 0;
    while i < n
        invariant
            grad_call_ok(*f, x@),
            n == x@.len(),
            g@.len() == n,
            buf@.len() == n,
            0 <= i <= n,
            buf@ == consts_of(x@),
            forall|j: int| 0 <= j < i ==> grad_entry_ok(*f, x@, j, #[trigger] g@[j]),
        decreases n - i,
    {
        let c = buf[i];
        buf.set(i, Dual { r: c.r, d: S::one() });
        proof {
            assert(buf@ =~= seeded(x@, i as int));
        }
        let ghost vcall = *buf;
        let fx = f(buf);
        g.set(i, fx.d);
        buf.set(i, Dual { r: c.r, d: S::zero() });
        proof {
            assert(buf@ =~= consts_of(x@));
            assert(grad_entry_ok(*f, x@, i as int, g@[i as int])) by {
                assert(vcall@ == seeded(x@, i as int) && call_ensures(*f, (&vcall,), fx)
                    && g@[i as int] == fx.d);
            }
        }
        i += 1;
    }
    Ok(())
}

/// All partial derivatives of `f` at `x`, managing its own scratch
/// storage; one allocation of the gradient and one of the buffer.
pub fn grad_static<S: Scalar, F: Fn(&Vec<Dual<S>>) -> Dual<S>>(f: &F, x: &Vec<S>) -> (g: Vec<S>)
    requires
        grad_call_ok(*f, x@),
    ensures
        grad_post(*f, x@, g@),
{
    let n = x.len();
    let mut g: Vec<S> = Vec::new();
    let mut buf: Vec<Dual<S>> = Vec::new();
    while g.len() < n
        invariant
            g@.len() <= n,
        decreases n - g@.len(),
    {
        g.push(S::zero());
    }
    while buf.len() < n
        invariant
            buf@.len() <= n,
        decreases n - buf@.len(),
    {
        buf.push(Dual { r: S::zero(), d: S::zero() });
    }
    match grad(f, x, &mut g, &mut buf) {
        Ok(()) => g,
        Err(_) => {
            proof {
                assert(false);
            }
            g
        },
    }
}

/// A reusable "gradient of `f`" callable that closes over `f` and
/// allocates its own scratch storage on each call.
pub fn make_grad_fn_static<'a, S: Scalar, F: Fn(&Vec<Dual<S>>) -> Dual<S>>(f: &'a F) -> (gf: impl Fn(
    &Vec<S>,
) -> Vec<S> + 'a)
    ensures
        forall|x: Vec<S>| grad_call_ok(*f, x@) ==> call_requires(gf, (&x,)),
        forall|x: Vec<S>, g: Vec<S>| call_ensures(gf, (&x,), g) ==> grad_post(*f, x@, g@),
{
    move |x: &Vec<S>| -> (g: Vec<S>)
        requires
            grad_call_ok(*f, x@),
        ensures
            grad_post(*f, x@, g@),
        {
            grad_static(f, x)
        }
}

/// If `f` returns one and the same value for every input with a given
/// view, then the gradient of `f` at `x` is unique: two runs of the
/// driver with the same input write the same output, whether or not
/// they reuse buffers in between.
pub proof fn lemma_grad_deterministic<S: Scalar, F: Fn(&Vec<Dual<S>>) -> Dual<S>>(
    f: F,
    x: Seq<S>,
    g1: Seq<S>,
    g2: Seq<S>,
)
    requires
        grad_post(f, x, g1),
        grad_post(f, x, g2),
        forall|v1: Vec<Dual<S>>, v2: Vec<Dual<S>>, r1: Dual<S>, r2: Dual<S>|
            v1@ == v2@ && #[trigger] call_ensures(f, (&v1,), r1) && #[trigger] call_ensures(
                f,
                (&v2,),
                r2,
            ) ==> r1 == r2,
    ensures
        g1 == g2,
{
    assert forall|i: int| 0 <= i < x.len() implies g1[i] == g2[i] by {
        let (v1, fx1): (Vec<Dual<S>>, Dual<S>) = choose|v: Vec<Dual<S>>, fx: Dual<S>|
            v@ == seeded(x, i) && call_ensures(f, (&v,), fx) && g1[i] == fx.d;
        let (v2, fx2): (Vec<Dual<S>>, Dual<S>) = choose|v: Vec<Dual<S>>, fx: Dual<S>|
            v@ == seeded(x, i) && call_ensures(f, (&v,), fx) && g2[i] == fx.d;
        assert(fx1 == fx2);
    }
    assert(g1 =~= g2);
}

/// If `f` returns one and the same value on the seeded input, the
/// scalar derivative at `x` is unique: two runs of `diff` agree.
pub proof fn lemma_diff_deterministic<S: Scalar, F: Fn(Dual<S>) -> Dual<S>>(
    f: F,
    x: S,
    r1: S,
    r2: S,
)
    requires
        diff_post(f, x, r1),
        diff_post(f, x, r2),
        forall|y1: Dual<S>, y2: Dual<S>|
            #[trigger] call_ensures(f, (diff_seed(x),), y1) && #[trigger] call_ensures(
                f,
                (diff_seed(x),),
                y2,
            ) ==> y1 == y2,
    ensures
        r1 == r2,
{
    let fx1 = choose|fx: Dual<S>| call_ensures(f, (diff_seed(x),), fx) && r1 == fx.d;
    let fx2 = choose|fx: Dual<S>| call_ensures(f, (diff_seed(x),), fx) && r2 == fx.d;
    assert(fx1 == fx2);
}

} // verus!

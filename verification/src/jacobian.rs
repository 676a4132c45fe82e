//! Jacobians of vector functions, and Hessians as the Jacobian of a
//! gradient.
//!
//! The Jacobian driver seeds one input channel at a time, exactly as
//! the gradient driver does, but records a whole output column per
//! evaluation. The Hessian driver hands the Jacobian driver a gradient
//! computation over nested dual values, so the same seeding machinery
//! runs one derivative level higher.

use vstd::prelude::*;

use crate::consts_of;
use crate::dual::Dual;
use crate::grad_call_ok;
use crate::grad_entry_ok;
use crate::grad_post;
use crate::grad_static;
use crate::matrix::Matrix;
use crate::scalar::Scalar;
use crate::seeded;
use crate::AdError;

verus! {

/// Every seeding of `x` is an acceptable input of the vector function
/// `f`.
pub open spec fn jac_call_ok<S: Scalar, F: Fn(&Vec<Dual<S>>) -> Vec<Dual<S>>>(
    f: F,
    x: Seq<S>,
) -> bool {
    forall|i: int, v: Vec<Dual<S>>|
        0 <= i < x.len() && v@ == seeded(x, i) ==> call_requires(f, (&v,))
}

/// Column `i` of `m` holds the derivative channels of some evaluation
/// of `f` on the `i`-seeded input.
pub open spec fn jac_column_ok<S: Scalar, F: Fn(&Vec<Dual<S>>) -> Vec<Dual<S>>>(
    f: F,
    x: Seq<S>,
    n_out: int,
    m: Seq<Seq<S>>,
    i: int,
) -> bool {
    exists|v: Vec<Dual<S>>, out: Vec<Dual<S>>|
        v@ == seeded(x, i) && call_ensures(f, (&v,), out) && out@.len() == n_out && (forall|j: int|
            0 <= j < n_out ==> m[j][i] == out@[j].d)
}

/// What `jacobian` returns on success: an `n_out` by `len(x)` matrix
/// whose entry `(j, i)` is the partial derivative of output `j` with
/// respect to input `i`.
pub open spec fn jacobian_post<S: Scalar, F: Fn(&Vec<Dual<S>>) -> Vec<Dual<S>>>(
    f: F,
    x: Seq<S>,
    n_out: int,
    m: Seq<Seq<S>>,
) -> bool {
    &&& m.len() == n_out
    &&& forall|j: int| 0 <= j < n_out ==> (#[trigger] m[j]).len() == x.len()
    &&& forall|i: int| 0 <= i < x.len() ==> jac_column_ok(f, x, n_out, m, i)
}

/// A column fact is kept by any matrix change that leaves that
/// column's entries alone.
proof fn lemma_column_preserved<S: Scalar, F: Fn(&Vec<Dual<S>>) -> Vec<Dual<S>>>(
    f: F,
    x: Seq<S>,
    n_out: int,
    m1: Seq<Seq<S>>,
    m2: Seq<Seq<S>>,
    i: int,
)
    requires
        jac_column_ok(f, x, n_out, m1, i),
        forall|j: int| 0 <= j < n_out ==> m2[j][i] == m1[j][i],
    ensures
        jac_column_ok(f, x, n_out, m2, i),
{
    let (v, out): (Vec<Dual<S>>, Vec<Dual<S>>) = choose|v: Vec<Dual<S>>, out: Vec<Dual<S>>|
        v@ == seeded(x, i) && call_ensures(f, (&v,), out) && out@.len() == n_out && (forall|j: int|
            0 <= j < n_out ==> m1[j][i] == out@[j].d);
    assert(v@ == seeded(x, i) && call_ensures(f, (&v,), out) && out@.len() == n_out && (forall|
        j: int,
    |
        0 <= j < n_out ==> m2[j][i] == out@[j].d));
}

/// The full Jacobian of `f` at `x`: one evaluation per input, a column
/// recorded per evaluation, reusing the caller's scratch buffer.
///
/// `n_out` is the expected output length of `f`; a result matrix may
/// be passed in to be overwritten (`jac`), otherwise a zeroed one is
/// allocated. Refuses to run on a scratch-buffer or matrix dimension
/// mismatch, and refuses mid-way if `f` returns a vector that is not
/// of length `n_out`.
pub fn jacobian<S: Scalar, F: Fn(&Vec<Dual<S>>) -> Vec<Dual<S>>>(
    f: &F,
    x: &Vec<S>,
    buf_in: &mut Vec<Dual<S>>,
    n_out: usize,
    jac: Option<Matrix<S>>,
) -> (res: Result<Matrix<S>, AdError>)
    requires
        jac_call_ok(*f, x@),
        jac matches Some(m0) ==> m0.wf(),
    ensures
        res matches Ok(m) ==> m.wf() && m.ncols() == x@.len() && jacobian_post(
            *f,
            x@,
            n_out as int,
            m@,
        ) && final(buf_in)@ == consts_of(x@),
        (old(buf_in)@.len() == x@.len() && (jac matches Some(m0) ==> m0@.len() == n_out
            && m0.ncols() == x@.len()) && (forall|i: int, v: Vec<Dual<S>>, out: Vec<Dual<S>>|
            0 <= i < x@.len() && v@ == seeded(x@, i) && call_ensures(*f, (&v,), out)
                ==> out@.len() == n_out)) ==> res is Ok,
        res == Err::<Matrix<S>, AdError>(AdError::BufferMismatch) <==> old(buf_in)@.len()
            != x@.len(),
        res == Err::<Matrix<S>, AdError>(AdError::MatrixMismatch) <==> (jac matches Some(m0)
            && old(buf_in)@.len() == x@.len() && (m0@.len() != n_out || m0.ncols() != x@.len())),
        res == Err::<Matrix<S>, AdError>(AdError::OutputMismatch) ==> exists|
            i: int,
            v: Vec<Dual<S>>,
            out: Vec<Dual<S>>,
        |
            0 <= i < x@.len() && v@ == seeded(x@, i) && call_ensures(*f, (&v,), out)
                && out@.len() != n_out,
{
    let n_in = x.len();
    if buf_in.len() != n_in {
        return Err(AdError::BufferMismatch);
    }
    let mut m: Matrix<S> = match jac {
        Some(m0) => {
            if m0.rows() != n_out || m0.cols() != n_in {
                return Err(AdError::MatrixMismatch);
            }
            m0
        },
        None => Matrix::zeros(n_out, n_in),
    };
    let mut k: usize = 0;
    while k < n_in
        invariant
            n_in == x@.len(),
            buf_in@.len() == n_in,
            0 <= k <= n_in,
            forall|j: int| 0 <= j < k ==> buf_in@[j] == consts_of(x@)[j],
        decreases n_in - k,
    {
        buf_in.set(k, Dual::new(x[k]));
        k += 1;
    }
    proof {
        assert(buf_in@ =~= consts_of(x@));
    }
    let mut i: usize = 0;
    while i < n_in
        invariant
            jac_call_ok(*f, x@),
            n_in == x@.len(),
            old(buf_in)@.len() == n_in,
            jac matches Some(m0) ==> m0@.len() == n_out && m0.ncols() == n_in,
            buf_in@.len() == n_in,
            0 <= i <= n_in,
            buf_in@ == consts_of(x@),
            m.wf(),
            m@.len() == n_out,
            m.ncols() == n_in,
            forall|c: int| 0 <= c < i ==> jac_column_ok(*f, x@, n_out as int, m@, c),
        decreases n_in - i,
    {
        let c0 = buf_in[i];
        buf_in.set(i, Dual { r: c0.r, d: S::one() });
        proof {
            assert(buf_in@ =~= seeded(x@, i as int));
        }
        let ghost vcall = *buf_in;
        let out = f(buf_in);
        buf_in.set(i, Dual { r: c0.r, d: S::zero() });
        proof {
            assert(buf_in@ =~= consts_of(x@));
        }
        if out.len() != n_out {
            proof {
                assert(0 <= i < x@.len() && vcall@ == seeded(x@, i as int) && call_ensures(
                    *f,
                    (&vcall,),
                    out,
                ) && out@.len() != n_out);
            }
            return Err(AdError::OutputMismatch);
        }
        let mut j: usize = 0;
        while j < n_out
            invariant
                n_in == x@.len(),
                0 <= i < n_in,
                out@.len() == n_out,
                m.wf(),
                m@.len() == n_out,
                m.ncols() == n_in,
                0 <= j <= n_out,
                forall|jj: int| 0 <= jj < j ==> m@[jj][i as int] == out@[jj].d,
                forall|c: int| 0 <= c < i ==> jac_column_ok(*f, x@, n_out as int, m@, c),
            decreases n_out - j,
        {
            let ghost mprev = m;
            m.set(j, i, out[j].d);
            proof {
                assert forall|c: int| 0 <= c < i implies jac_column_ok(
                    *f,
                    x@,
                    n_out as int,
                    m@,
                    c,
                ) by {
                    assert(forall|jj: int| 0 <= jj < n_out ==> m@[jj][c] == mprev@[jj][c]);
                    lemma_column_preserved(*f, x@, n_out as int, mprev@, m@, c);
                }
            }
            j += 1;
        }
        proof {
            assert(jac_column_ok(*f, x@, n_out as int, m@, i as int)) by {
                assert(vcall@ == seeded(x@, i as int) && call_ensures(*f, (&vcall,), out)
                    && out@.len() == n_out as int && (forall|jj: int|
                    0 <= jj < n_out ==> m@[jj][i as int] == out@[jj].d));
            }
        }
        i += 1;
    }
    Ok(m)
}

/// Every double seeding of `x` is an acceptable input of `f`: first
/// seed input `i` at the outer derivative level, then input `k` at the
/// inner one.
pub open spec fn hess_call_ok<S: Scalar, F: Fn(&Vec<Dual<Dual<S>>>) -> Dual<Dual<S>>>(
    f: F,
    x: Seq<S>,
) -> bool {
    forall|i: int, k: int, v: Vec<Dual<Dual<S>>>|
        0 <= i < x.len() && 0 <= k < x.len() && v@ == seeded(seeded(x, i), k) ==> call_requires(
            f,
            (&v,),
        )
}

/// `h` is the inner derivative channel of gradient entry `j` of `f`,
/// the gradient being taken at the `i`-seeded input: the mixed second
/// partial with respect to inputs `j` and `i`.
pub open spec fn hess_entry_ok<S: Scalar, F: Fn(&Vec<Dual<Dual<S>>>) -> Dual<Dual<S>>>(
    f: F,
    x: Seq<S>,
    j: int,
    i: int,
    h: S,
) -> bool {
    exists|gj: Dual<S>| grad_entry_ok(f, seeded(x, i), j, gj) && h == gj.d
}

/// What `hessian` returns on success: a square matrix of all second
/// partial derivatives.
pub open spec fn hessian_post<S: Scalar, F: Fn(&Vec<Dual<Dual<S>>>) -> Dual<Dual<S>>>(
    f: F,
    x: Seq<S>,
    m: Seq<Seq<S>>,
) -> bool {
    &&& m.len() == x.len()
    &&& forall|j: int| 0 <= j < x.len() ==> (#[trigger] m[j]).len() == x.len()
    &&& forall|j: int, i: int|
        0 <= j < x.len() && 0 <= i < x.len() ==> hess_entry_ok(f, x, j, i, #[trigger] m[j][i])
}

/// All second partial derivatives of `f` at `x`: the Jacobian of the
/// gradient of `f`, the gradient being computed over dual values whose
/// scalars are themselves dual values.
///
/// `f` is a scalar function over such nested duals; no separate
/// second-derivative rule exists anywhere, only the first-derivative
/// rules applied at two nesting depths. Symmetry of the result is not
/// enforced: each entry is computed independently.
pub fn hessian<S: Scalar, F: Fn(&Vec<Dual<Dual<S>>>) -> Dual<Dual<S>>>(
    f: &F,
    x: &Vec<S>,
    buf_in: &mut Vec<Dual<S>>,
    hess: Option<Matrix<S>>,
) -> (res: Result<Matrix<S>, AdError>)
    requires
        hess_call_ok(*f, x@),
        hess matches Some(m0) ==> m0.wf(),
    ensures
        res matches Ok(m) ==> m.wf() && m.ncols() == x@.len() && hessian_post(*f, x@, m@)
            && final(buf_in)@ == consts_of(x@),
        (old(buf_in)@.len() == x@.len() && (hess matches Some(m0) ==> m0@.len() == x@.len()
            && m0.ncols() == x@.len())) ==> res is Ok,
        res == Err::<Matrix<S>, AdError>(AdError::BufferMismatch) <==> old(buf_in)@.len()
            != x@.len(),
        res == Err::<Matrix<S>, AdError>(AdError::MatrixMismatch) <==> (hess matches Some(m0)
            && old(buf_in)@.len() == x@.len() && (m0@.len() != x@.len() || m0.ncols() != x@.len())),
{
    let n = x.len();
    let fg: Ghost<F> = Ghost(*f);
    let g = |v: &Vec<Dual<S>>| -> (out: Vec<Dual<S>>)
        requires
            grad_call_ok(fg@, v@),
        ensures
            grad_post(fg@, v@, out@),
        {
            grad_static(f, v)
        };
    proof {
        assert forall|i: int, v: Vec<Dual<S>>|
            0 <= i < x@.len() && v@ == seeded(x@, i) implies call_requires(g, (&v,)) by {
            assert forall|k: int, v2: Vec<Dual<Dual<S>>>|
                0 <= k < v@.len() && v2@ == seeded(v@, k) implies call_requires(*f, (&v2,)) by {
                assert(v2@ == seeded(seeded(x@, i), k));
            }
            assert(grad_call_ok(*f, v@));
        }
    }
    let res = jacobian(&g, x, buf_in, n, hess);
    proof {
        assert forall|i: int, v: Vec<Dual<S>>, out: Vec<Dual<S>>|
            0 <= i < x@.len() && v@ == seeded(x@, i) && call_ensures(g, (&v,), out) implies out@.len()
            == n by {
            assert(grad_post(*f, v@, out@));
        }
        if res is Ok {
            let m = res->Ok_0;
            assert forall|j: int, i: int|
                0 <= j < x@.len() && 0 <= i < x@.len() implies hess_entry_ok(
                *f,
                x@,
                j,
                i,
                #[trigger] m@[j][i],
            ) by {
                assert(jac_column_ok(g, x@, n as int, m@, i));
                let (v, out): (Vec<Dual<S>>, Vec<Dual<S>>) = choose|
                    v: Vec<Dual<S>>,
                    out: Vec<Dual<S>>,
                |
                    v@ == seeded(x@, i) && call_ensures(g, (&v,), out) && out@.len() == n as int
                        && (forall|jj: int| 0 <= jj < n as int ==> m@[jj][i] == out@[jj].d);
                assert(grad_post(*f, v@, out@));
                assert(grad_entry_ok(*f, seeded(x@, i), j, out@[j]));
                assert(m@[j][i] == out@[j].d);
            }
        }
    }
    res
}

/// If `f` returns outputs of one and the same view for every input
/// with a given view, the Jacobian at `x` is unique: two runs of the
/// driver with the same input fill the same entries, whether or not
/// they reuse buffers in between.
pub proof fn lemma_jacobian_deterministic<S: Scalar, F: Fn(&Vec<Dual<S>>) -> Vec<Dual<S>>>(
    f: F,
    x: Seq<S>,
    n_out: int,
    m1: Seq<Seq<S>>,
    m2: Seq<Seq<S>>,
)
    requires
        jacobian_post(f, x, n_out, m1),
        jacobian_post(f, x, n_out, m2),
        forall|v1: Vec<Dual<S>>, v2: Vec<Dual<S>>, o1: Vec<Dual<S>>, o2: Vec<Dual<S>>|
            v1@ == v2@ && #[trigger] call_ensures(f, (&v1,), o1) && #[trigger] call_ensures(
                f,
                (&v2,),
                o2,
            ) ==> o1@ == o2@,
    ensures
        forall|j: int, i: int| 0 <= j < n_out && 0 <= i < x.len() ==> m1[j][i] == m2[j][i],
{
    assert forall|j: int, i: int|
        0 <= j < n_out && 0 <= i < x.len() implies m1[j][i] == m2[j][i] by {
        assert(jac_column_ok(f, x, n_out, m1, i));
        assert(jac_column_ok(f, x, n_out, m2, i));
        let (v1, o1): (Vec<Dual<S>>, Vec<Dual<S>>) = choose|v: Vec<Dual<S>>, out: Vec<Dual<S>>|
            v@ == seeded(x, i) && call_ensures(f, (&v,), out) && out@.len() == n_out && (forall|
                jj: int,
            |
                0 <= jj < n_out ==> m1[jj][i] == out@[jj].d);
        let (v2, o2): (Vec<Dual<S>>, Vec<Dual<S>>) = choose|v: Vec<Dual<S>>, out: Vec<Dual<S>>|
            v@ == seeded(x, i) && call_ensures(f, (&v,), out) && out@.len() == n_out && (forall|
                jj: int,
            |
                0 <= jj < n_out ==> m2[jj][i] == out@[jj].d);
        assert(o1@ == o2@);
    }
}

/// If `f` returns one and the same value for every input with a given
/// view, the Hessian at `x` is unique: two runs of the driver with the
/// same input fill the same entries.
pub proof fn lemma_hessian_deterministic<S: Scalar, F: Fn(&Vec<Dual<Dual<S>>>) -> Dual<Dual<S>>>(
    f: F,
    x: Seq<S>,
    m1: Seq<Seq<S>>,
    m2: Seq<Seq<S>>,
)
    requires
        hessian_post(f, x, m1),
        hessian_post(f, x, m2),
        forall|v1: Vec<Dual<Dual<S>>>, v2: Vec<Dual<Dual<S>>>, r1: Dual<Dual<S>>, r2: Dual<
            Dual<S>,
        >|
            v1@ == v2@ && #[trigger] call_ensures(f, (&v1,), r1) && #[trigger] call_ensures(
                f,
                (&v2,),
                r2,
            ) ==> r1 == r2,
    ensures
        forall|j: int, i: int| 0 <= j < x.len() && 0 <= i < x.len() ==> m1[j][i] == m2[j][i],
{
    assert forall|j: int, i: int|
        0 <= j < x.len() && 0 <= i < x.len() implies m1[j][i] == m2[j][i] by {
        assert(hess_entry_ok(f, x, j, i, m1[j][i]));
        assert(hess_entry_ok(f, x, j, i, m2[j][i]));
        let g1 = choose|gj: Dual<S>| grad_entry_ok(f, seeded(x, i), j, gj) && m1[j][i] == gj.d;
        let g2 = choose|gj: Dual<S>| grad_entry_ok(f, seeded(x, i), j, gj) && m2[j][i] == gj.d;
        let (w1, fx1): (Vec<Dual<Dual<S>>>, Dual<Dual<S>>) = choose|
            v: Vec<Dual<Dual<S>>>,
            fx: Dual<Dual<S>>,
        | v@ == seeded(seeded(x, i), j) && call_ensures(f, (&v,), fx) && g1 == fx.d;
        let (w2, fx2): (Vec<Dual<Dual<S>>>, Dual<Dual<S>>) = choose|
            v: Vec<Dual<Dual<S>>>,
            fx: Dual<Dual<S>>,
        | v@ == seeded(seeded(x, i), j) && call_ensures(f, (&v,), fx) && g2 == fx.d;
        assert(fx1 == fx2);
    }
}

/// Computing a Jacobian by columns agrees with computing each row by
/// repeated gradient seeding: if `fs` always returns component `j` of
/// what `fv` returns on an input of the same view, then row `j` of the
/// Jacobian of `fv` equals the gradient of `fs`.
pub proof fn lemma_jacobian_row_matches_grad<
    S: Scalar,
    FV: Fn(&Vec<Dual<S>>) -> Vec<Dual<S>>,
    FS: Fn(&Vec<Dual<S>>) -> Dual<S>,
>(fv: FV, fs: FS, x: Seq<S>, n_out: int, m: Seq<Seq<S>>, g: Seq<S>, j: int)
    requires
        jacobian_post(fv, x, n_out, m),
        grad_post(fs, x, g),
        0 <= j < n_out,
        forall|v1: Vec<Dual<S>>, v2: Vec<Dual<S>>, out: Vec<Dual<S>>, r: Dual<S>|
            v1@ == v2@ && #[trigger] call_ensures(fv, (&v1,), out) && #[trigger] call_ensures(
                fs,
                (&v2,),
                r,
            ) && 0 <= j < out@.len() ==> r == out@[j],
    ensures
        forall|i: int| 0 <= i < x.len() ==> m[j][i] == g[i],
{
    assert forall|i: int| 0 <= i < x.len() implies m[j][i] == g[i] by {
        assert(jac_column_ok(fv, x, n_out, m, i));
        let (v1, out): (Vec<Dual<S>>, Vec<Dual<S>>) = choose|v: Vec<Dual<S>>, out: Vec<Dual<S>>|
            v@ == seeded(x, i) && call_ensures(fv, (&v,), out) && out@.len() == n_out && (forall|
                jj: int,
            |
                0 <= jj < n_out ==> m[jj][i] == out@[jj].d);
        assert(grad_entry_ok(fs, x, i, g[i]));
        let (v2, r): (Vec<Dual<S>>, Dual<S>) = choose|v: Vec<Dual<S>>, r: Dual<S>|
            v@ == seeded(x, i) && call_ensures(fs, (&v,), r) && g[i] == r.d;
        assert(r == out@[j]);
    }
}

} // verus!

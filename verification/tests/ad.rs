use dualdiff::dual::Dual;
use dualdiff::jacobian::hessian;
use dualdiff::jacobian::jacobian;
use dualdiff::matrix::Matrix;
use dualdiff::scalar::powi;
use dualdiff::scalar::Cmp;
use dualdiff::scalar::Scalar;
use dualdiff::diff;
use dualdiff::grad;
use dualdiff::grad_static;
use dualdiff::make_diff_fn;
use dualdiff::make_grad_fn_static;
use dualdiff::AdError;

/// A plain double-precision scalar for exercising the library.
#[derive(Clone, Copy, Debug, PartialEq)]
struct R64(f64);

impl Scalar for R64 {
    fn zero_s() -> Self {
        R64(0.0)
    }

    fn one_s() -> Self {
        R64(1.0)
    }

    fn of_int_s(n: i64) -> Self {
        R64(n as f64)
    }

    fn add_s(self, rhs: Self) -> Self {
        R64(self.0 + rhs.0)
    }

    fn sub_s(self, rhs: Self) -> Self {
        R64(self.0 - rhs.0)
    }

    fn mul_s(self, rhs: Self) -> Self {
        R64(self.0 * rhs.0)
    }

    fn div_s(self, rhs: Self) -> Self {
        R64(self.0 / rhs.0)
    }

    fn neg_s(self) -> Self {
        R64(-self.0)
    }

    fn exp_s(self) -> Self {
        R64(self.0.exp())
    }

    fn ln_s(self) -> Self {
        R64(self.0.ln())
    }

    fn sin_s(self) -> Self {
        R64(self.0.sin())
    }

    fn cos_s(self) -> Self {
        R64(self.0.cos())
    }

    fn cmp_s(self, rhs: Self) -> Option<Cmp> {
        self.cmp_v(rhs)
    }

    fn add_laws(_a: Self, _b: Self, _c: Self) {}

    fn mul_laws(_a: Self, _b: Self, _c: Self) {}

    fn zero() -> Self {
        R64(0.0)
    }

    fn one() -> Self {
        R64(1.0)
    }

    fn of_int(n: i64) -> Self {
        R64(n as f64)
    }

    fn add(self, rhs: Self) -> Self {
        R64(self.0 + rhs.0)
    }

    fn sub(self, rhs: Self) -> Self {
        R64(self.0 - rhs.0)
    }

    fn mul(self, rhs: Self) -> Self {
        R64(self.0 * rhs.0)
    }

    fn div(self, rhs: Self) -> Self {
        R64(self.0 / rhs.0)
    }

    fn neg(self) -> Self {
        R64(-self.0)
    }

    fn exp(self) -> Self {
        R64(self.0.exp())
    }

    fn ln(self) -> Self {
        R64(self.0.ln())
    }

    fn sin_cos(self) -> (Self, Self) {
        let (s, c) = self.0.sin_cos();
        (R64(s), R64(c))
    }

    fn cmp_v(self, rhs: Self) -> Option<Cmp> {
        match self.0.partial_cmp(&rhs.0) {
            None => None,
            Some(std::cmp::Ordering::Less) => Some(Cmp::Less),
            Some(std::cmp::Ordering::Equal) => Some(Cmp::Equal),
            Some(std::cmp::Ordering::Greater) => Some(Cmp::Greater),
        }
    }
}

fn close(a: f64, b: f64) -> bool {
    (a - b).abs() <= 1e-9 * (1.0 + a.abs().max(b.abs()))
}

/// `(x - 1) / (x + 1)`, the running example for scalar derivatives.
fn moebius<T: Scalar>(x: T) -> T {
    (x.sub(T::one())).div(x.add(T::one()))
}

#[test]
fn new() {
    let x = Dual::new(R64(3.14));
    println!("{:?}", x);
    assert_eq!(x.r, R64(3.14));
    assert_eq!(x.d, R64(0.0));
}

#[test]
fn arithmetic() {
    let a = Dual { r: R64(2.0), d: R64(1.0) };
    let b = Dual { r: R64(0.5), d: R64(2.0) };

    let c = a.div(b);
    println!("{:?}", c);
    assert_eq!(c.r, R64(4.0));
    assert_eq!(c.d, R64((1.0 * 0.5 - 2.0 * 2.0) / (0.5 * 0.5)));
}

#[test]
fn diff1() {
    let x = R64(1.0);

    let d = diff(&moebius::<Dual<R64>>, x);
    println!("{}", d.0);
    assert_eq!(d.0, 0.5);
}

#[test]
fn diff_fn() {
    let df = make_diff_fn(&moebius::<Dual<R64>>);

    let d = df(R64(1.0));
    println!("{}", d.0);
    assert_eq!(d.0, 0.5);
}

#[test]
fn diff2() {
    let f = moebius::<Dual<Dual<R64>>>;
    let df = make_diff_fn(&f);
    let ddf = make_diff_fn(&df);

    println!("{}", ddf(R64(0.0)).0);
    println!("{}", ddf(R64(0.5)).0);
    println!("{}", ddf(R64(1.0)).0);
    // The second derivative of (x - 1) / (x + 1) is -4 / (x + 1)^3.
    assert!(close(ddf(R64(0.0)).0, -4.0));
    assert!(close(ddf(R64(0.5)).0, -4.0 / 1.5_f64.powi(3)));
    assert!(close(ddf(R64(1.0)).0, -0.5));
}

#[test]
fn diff3() {
    type D9 = Dual<Dual<Dual<Dual<Dual<Dual<Dual<Dual<Dual<R64>>>>>>>>>;
    let f = moebius::<D9>;
    let d1f = make_diff_fn(&f);
    let d2f = make_diff_fn(&d1f);
    let d3f = make_diff_fn(&d2f);
    let d4f = make_diff_fn(&d3f);
    let d5f = make_diff_fn(&d4f);
    let d6f = make_diff_fn(&d5f);
    let d7f = make_diff_fn(&d6f);
    let d8f = make_diff_fn(&d7f);
    let d9f = make_diff_fn(&d8f);
    let d = d9f(R64(0.0));
    println!("{}", d.0);
    // The ninth derivative of (x - 1) / (x + 1) at zero is 2 * 9!.
    assert!(close(d.0, 725760.0));
}

#[test]
fn diff_fancy() {
    // sin(e^(x * cos(x / 3)) * ln(cos(x) + 1.5))
    fn f<T: Scalar>(x: T) -> T {
        ((x.mul((x.div(T::of_int(3))).cos())).exp().mul(
            (x.cos().add(T::of_int(3).div(T::of_int(2)))).ln(),
        ))
        .sin()
    }

    type D4 = Dual<Dual<Dual<Dual<R64>>>>;
    let d1f = make_diff_fn(&f::<D4>);
    let d2f = make_diff_fn(&d1f);
    let d3f = make_diff_fn(&d2f);
    let d4f = make_diff_fn(&d3f);

    let d = d4f(R64(4.0));
    println!("{}", d.0);
    assert!(d.0.is_finite());
}

/// `x * exp(x * y)`, the running example for gradients.
fn gf<T: Scalar>(v: &Vec<T>) -> T {
    v[0].mul((v[0].mul(v[1])).exp())
}

#[test]
fn grad1() {
    let x = vec![R64(1.0), R64(1.0)];
    let mut g = vec![R64(0.0); 2];
    let mut buf = vec![Dual::new(R64(0.0)); 2];

    grad(&gf::<Dual<R64>>, &x, &mut g, &mut buf).unwrap();

    println!("{:?}", g);
    let e = std::f64::consts::E;
    assert!(close(g[0].0, 2.0 * e));
    assert!(close(g[1].0, e));
}

#[test]
fn grad1_fn() {
    let mut g = vec![R64(0.0); 2];
    let mut buf = vec![Dual::new(R64(0.0)); 2];

    let mut df = |x: &Vec<R64>, g: &mut Vec<R64>| {
        grad(&gf::<Dual<R64>>, x, g, &mut buf).unwrap()
    };

    df(&vec![R64(1.0), R64(1.0)], &mut g);

    println!("{:?}", g);
    let e = std::f64::consts::E;
    assert!(close(g[0].0, 2.0 * e));
    assert!(close(g[1].0, e));
}

#[test]
fn grad1_static() {
    let x = vec![R64(1.0), R64(1.0)];

    let g = grad_static(&gf::<Dual<R64>>, &x);

    println!("{:?}", g);
    let e = std::f64::consts::E;
    assert!(close(g[0].0, 2.0 * e));
    assert!(close(g[1].0, e));
}

#[test]
fn grad1_fn_static() {
    let df = make_grad_fn_static(&gf::<Dual<R64>>);

    let g = df(&vec![R64(1.0), R64(1.0)]);
    println!("{:?}", g);
    let e = std::f64::consts::E;
    assert!(close(g[0].0, 2.0 * e));
    assert!(close(g[1].0, e));
}

/// `[(x^2 - y^2) sin(xy), xy cos(x^2 - y^2)]`, the running example for
/// Jacobians.
fn f1<T: Scalar>(v: &Vec<T>) -> Vec<T> {
    let x2my2 = powi(v[0], 2).sub(powi(v[1], 2));
    let xy = v[0].mul(v[1]);
    vec![x2my2.mul(xy.sin()), xy.mul(x2my2.cos())]
}

#[test]
fn jacobian1() {
    let x = vec![R64(1.0), R64(2.0)];
    let mut buf_in = vec![Dual::new(R64(0.0)); 2];

    let j = jacobian(&f1::<Dual<R64>>, &x, &mut buf_in, 2, None).unwrap();
    println!(
        "{:6.3?}",
        [
            [j.get(0, 0).0, j.get(0, 1).0],
            [j.get(1, 0).0, j.get(1, 1).0],
        ]
    );

    let (s2, c2) = 2.0_f64.sin_cos();
    let (s3, c3) = 3.0_f64.sin_cos();
    assert!(close(j.get(0, 0).0, 2.0 * s2 - 6.0 * c2));
    assert!(close(j.get(0, 1).0, -4.0 * s2 - 3.0 * c2));
    assert!(close(j.get(1, 0).0, 2.0 * c3 + 4.0 * s3));
    assert!(close(j.get(1, 1).0, c3 - 8.0 * s3));
}

#[test]
fn hessian1() {
    let x = vec![R64(1.0), R64(2.0)];
    let mut buf_in = vec![Dual::new(R64(0.0)); 2];

    let h = hessian(&gf::<Dual<Dual<R64>>>, &x, &mut buf_in, None).unwrap();
    println!(
        "{:8.4?}",
        [
            [h.get(0, 0).0, h.get(0, 1).0],
            [h.get(1, 0).0, h.get(1, 1).0],
        ]
    );

    let e2 = 2.0_f64.exp();
    assert!(close(h.get(0, 0).0, 8.0 * e2));
    assert!(close(h.get(0, 1).0, 4.0 * e2));
    assert!(close(h.get(1, 0).0, 4.0 * e2));
    assert!(close(h.get(1, 1).0, e2));
}

#[test]
fn nested_diff_on_polynomial_is_exactly_zero() {
    // x^3 - 2x^2 + 5x - 7 has degree 3, so four derivatives reach zero
    // exactly, not approximately.
    fn p<T: Scalar>(x: T) -> T {
        x.mul(x).mul(x).sub(T::of_int(2).mul(x).mul(x)).add(T::of_int(5).mul(x)).sub(
            T::of_int(7),
        )
    }

    type D3 = Dual<Dual<Dual<R64>>>;
    let e1 = make_diff_fn(&p::<D3>);
    let e2 = make_diff_fn(&e1);
    let e3 = make_diff_fn(&e2);
    assert_eq!(e3(R64(0.0)).0, 6.0);

    type D4 = Dual<Dual<Dual<Dual<R64>>>>;
    let d1 = make_diff_fn(&p::<D4>);
    let d2 = make_diff_fn(&d1);
    let d3 = make_diff_fn(&d2);
    let d4 = make_diff_fn(&d3);
    assert_eq!(d4(R64(0.0)).0, 0.0);
    assert_eq!(d4(R64(2.5)).0, 0.0);
    assert_eq!(d4(R64(-11.0)).0, 0.0);
}

#[test]
fn grad_buffer_mismatch_fails_fast() {
    let x = vec![R64(1.0), R64(2.0), R64(3.0)];
    let mut g = vec![R64(9.0); 2];
    let mut buf = vec![Dual::new(R64(0.0)); 2];

    let res = grad(&gf::<Dual<R64>>, &x, &mut g, &mut buf);
    assert_eq!(res, Err(AdError::BufferMismatch));
    // Nothing was silently truncated or written.
    assert_eq!(g, vec![R64(9.0); 2]);
}

#[test]
fn grad_repeated_calls_reuse_buffers_cleanly() {
    let x = vec![R64(0.3), R64(-1.25)];
    let mut g1 = vec![R64(0.0); 2];
    let mut g2 = vec![R64(7.0); 2];
    let mut buf = vec![Dual { r: R64(42.0), d: R64(42.0) }; 2];

    grad(&gf::<Dual<R64>>, &x, &mut g1, &mut buf).unwrap();
    grad(&gf::<Dual<R64>>, &x, &mut g2, &mut buf).unwrap();

    assert_eq!(g1, g2);
    // The buffer comes back fully reset between and after runs.
    assert_eq!(buf[0], Dual { r: R64(0.3), d: R64(0.0) });
    assert_eq!(buf[1], Dual { r: R64(-1.25), d: R64(0.0) });
}

#[test]
fn jacobian_rows_match_repeated_grad_seeding() {
    let x = vec![R64(1.0), R64(2.0)];
    let mut buf_in = vec![Dual::new(R64(0.0)); 2];
    let j = jacobian(&f1::<Dual<R64>>, &x, &mut buf_in, 2, None).unwrap();

    fn f1_row0<T: Scalar>(v: &Vec<T>) -> T {
        powi(v[0], 2).sub(powi(v[1], 2)).mul((v[0].mul(v[1])).sin())
    }
    fn f1_row1<T: Scalar>(v: &Vec<T>) -> T {
        v[0].mul(v[1]).mul((powi(v[0], 2).sub(powi(v[1], 2))).cos())
    }

    let g0 = grad_static(&f1_row0::<Dual<R64>>, &x);
    let g1 = grad_static(&f1_row1::<Dual<R64>>, &x);

    assert_eq!(j.get(0, 0), g0[0]);
    assert_eq!(j.get(0, 1), g0[1]);
    assert_eq!(j.get(1, 0), g1[0]);
    assert_eq!(j.get(1, 1), g1[1]);
}

#[test]
fn jacobian_error_variants() {
    // Scratch buffer of the wrong length.
    let x = vec![R64(1.0), R64(2.0)];
    let mut short_buf = vec![Dual::new(R64(0.0)); 1];
    let res = jacobian(&f1::<Dual<R64>>, &x, &mut short_buf, 2, None);
    assert_eq!(res.unwrap_err(), AdError::BufferMismatch);

    // Supplied matrix of the wrong dimensions.
    let mut buf_in = vec![Dual::new(R64(0.0)); 2];
    let wrong: Matrix<R64> = Matrix::zeros(3, 2);
    let res = jacobian(&f1::<Dual<R64>>, &x, &mut buf_in, 2, Some(wrong));
    assert_eq!(res.unwrap_err(), AdError::MatrixMismatch);

    // Vector function whose output length disagrees with n_out.
    fn too_short<T: Scalar>(v: &Vec<T>) -> Vec<T> {
        vec![v[0]]
    }
    let res = jacobian(&too_short::<Dual<R64>>, &x, &mut buf_in, 2, None);
    assert_eq!(res.unwrap_err(), AdError::OutputMismatch);
}

#[test]
fn jacobian_fills_supplied_matrix() {
    let x = vec![R64(1.0), R64(2.0)];
    let mut buf_in = vec![Dual::new(R64(0.0)); 2];
    let prior: Matrix<R64> = Matrix::zeros(2, 2);
    let j = jacobian(&f1::<Dual<R64>>, &x, &mut buf_in, 2, Some(prior)).unwrap();
    let mut buf2 = vec![Dual::new(R64(0.0)); 2];
    let j2 = jacobian(&f1::<Dual<R64>>, &x, &mut buf2, 2, None).unwrap();
    for r in 0..2 {
        for c in 0..2 {
            assert_eq!(j.get(r, c), j2.get(r, c));
        }
    }
}

#[test]
fn hessian_is_symmetric_for_smooth_functions() {
    fn smooth<T: Scalar>(v: &Vec<T>) -> T {
        (v[0].mul(v[1]).sin()).add(powi(v[0], 3).mul((v[1]).exp()))
    }

    let x = vec![R64(0.7), R64(-0.4)];
    let mut buf_in = vec![Dual::new(R64(0.0)); 2];
    let h = hessian(&smooth::<Dual<Dual<R64>>>, &x, &mut buf_in, None).unwrap();

    for i in 0..2 {
        for j in 0..2 {
            assert!(close(h.get(i, j).0, h.get(j, i).0));
        }
    }
}

#[test]
fn hessian_error_variants() {
    let x = vec![R64(1.0), R64(2.0)];
    let mut short_buf = vec![Dual::new(R64(0.0)); 1];
    let res = hessian(&gf::<Dual<Dual<R64>>>, &x, &mut short_buf, None);
    assert_eq!(res.unwrap_err(), AdError::BufferMismatch);

    let mut buf_in = vec![Dual::new(R64(0.0)); 2];
    let wrong: Matrix<R64> = Matrix::zeros(2, 1);
    let res = hessian(&gf::<Dual<Dual<R64>>>, &x, &mut buf_in, Some(wrong));
    assert_eq!(res.unwrap_err(), AdError::MatrixMismatch);
}

#[test]
fn powi_follows_the_derivative_of_powers() {
    // d/dx x^3 = 3 x^2 at x = 2.
    let x = Dual { r: R64(2.0), d: R64(1.0) };
    let y = powi(x, 3);
    assert_eq!(y.r, R64(8.0));
    assert_eq!(y.d, R64(12.0));

    // d/dx x^-2 = -2 x^-3 at x = 2.
    let y = powi(x, -2);
    assert!(close(y.r.0, 0.25));
    assert!(close(y.d.0, -0.25));

    let y = powi(x, 0);
    assert_eq!(y.r, R64(1.0));
    assert_eq!(y.d, R64(0.0));
}

#[test]
fn derived_operations_follow_their_rules() {
    let x = Dual { r: R64(4.0), d: R64(1.0) };

    // d/dx sqrt(x) = 1 / (2 sqrt(x)).
    let s = x.sqrt();
    assert!(close(s.r.0, 2.0));
    assert!(close(s.d.0, 0.25));

    // d/dx tan(x) = 1 / cos^2(x), here at x = 0.5.
    let t = Dual { r: R64(0.5), d: R64(1.0) }.tan();
    assert!(close(t.r.0, 0.5_f64.tan()));
    assert!(close(t.d.0, 1.0 / (0.5_f64.cos() * 0.5_f64.cos())));

    // recip, powf, log share the exp/ln route.
    let r = x.recip();
    assert!(close(r.r.0, 0.25));
    assert!(close(r.d.0, -1.0 / 16.0));
    let p = x.powf(Dual::new(R64(1.5)));
    assert!(close(p.r.0, 8.0));
    assert!(close(p.d.0, 1.5 * 4.0_f64.powf(0.5)));
    let l = x.log2();
    assert!(close(l.r.0, 2.0));
    assert!(close(l.d.0, 1.0 / (4.0 * 2.0_f64.ln())));

    // Value-only ordering: abs, signum, min, max.
    let n = Dual { r: R64(-3.0), d: R64(1.0) };
    assert_eq!(n.signum(), Dual { r: R64(-1.0), d: R64(0.0) });
    let a = n.abs();
    assert_eq!(a.r, R64(3.0));
    assert_eq!(a.d, R64(-1.0));
    assert_eq!(x.max(n), x);
    assert_eq!(x.min(n), n);
    assert!(n.is_sign_negative());
    assert!(x.is_sign_positive());
    assert!(!x.is_zero());
    assert!(Dual::<R64>::zero().is_zero());

    // hypot(3, 4) = 5.
    let h = Dual::new(R64(3.0)).hypot(Dual::new(R64(4.0)));
    assert!(close(h.r.0, 5.0));

    // mul_add, abs_sub, exp2, log10, of_int on plain scalars.
    assert_eq!(R64(2.0).mul_add(R64(3.0), R64(4.0)), R64(10.0));
    assert_eq!(R64(1.0).abs_sub(R64(4.0)), R64(3.0));
    assert!(close(R64(3.0).exp2().0, 8.0));
    assert!(close(R64(1000.0).log10().0, 3.0));
    assert_eq!(R64::of_int(-7), R64(-7.0));
    assert_eq!(powi(R64(3.0), 4), R64(81.0));
    assert!(close(powi(R64(2.0), -3).0, 0.125));
}

#[test]
fn declined_operations_say_so() {
    let x = Dual::new(R64(1.0));
    assert!(x.floor().is_none());
    assert!(x.ceil().is_none());
    assert!(x.round().is_none());
    assert!(x.trunc().is_none());
    assert!(x.fract().is_none());
    assert!(x.rem_v(x).is_none());
    assert!(x.asin().is_none());
    assert!(x.acos().is_none());
    assert!(x.atan().is_none());
    assert!(x.atan2(x).is_none());
    assert!(x.sinh().is_none());
    assert!(x.cosh().is_none());
    assert!(x.tanh().is_none());
    assert!(x.asinh().is_none());
    assert!(x.acosh().is_none());
    assert!(x.atanh().is_none());
    assert!(x.exp_m1().is_none());
    assert!(x.ln_1p().is_none());
    assert!(x.to_degrees().is_none());
    assert!(x.to_radians().is_none());
}

#[test]
fn matrix_basics() {
    let mut m: Matrix<R64> = Matrix::zeros(2, 3);
    assert_eq!(m.rows(), 2);
    assert_eq!(m.cols(), 3);
    assert_eq!(m.get(1, 2), R64(0.0));
    m.set(1, 2, R64(5.0));
    assert_eq!(m.get(1, 2), R64(5.0));
    assert_eq!(m.get(0, 2), R64(0.0));
    assert_eq!(m.get(1, 1), R64(0.0));
}

#[test]
fn empty_input_gives_empty_gradient() {
    let x: Vec<R64> = vec![];
    let g = grad_static(&gf::<Dual<R64>>, &x);
    assert!(g.is_empty());
}

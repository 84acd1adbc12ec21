//! The error function and its inverse.
use crate::primitive::{deterministic, whole, Primitive, PrimitiveSpec};
use vstd::prelude::*;

verus! {

/// Error functions.
pub trait Error: Sized {
    /// Compute the error function.
    fn erf(self) -> Self;

    /// Compute the complementary error function.
    fn erfc(self) -> Self;

    /// Compute the inverse error function.
    fn erfinv(self) -> Self;
}

/// The polynomial in `w - 2.5` that approximates `erfinv(x) / x` near the
/// middle of the domain, where `w = -ln((1 - x)(1 + x))` is below five.
pub open spec fn central_spec<S: Primitive>(w: S) -> S {
    let w = w.sub_spec(S::decimal_spec(25, -1));
    let p = S::decimal_spec(281022636, -16);
    let p = S::decimal_spec(343273939, -15).add_spec(p.mul_spec(w));
    let p = S::decimal_spec(-35233877, -13).add_spec(p.mul_spec(w));
    let p = S::decimal_spec(-439150654, -14).add_spec(p.mul_spec(w));
    let p = S::decimal_spec(21858087, -11).add_spec(p.mul_spec(w));
    let p = S::decimal_spec(-125372503, -11).add_spec(p.mul_spec(w));
    let p = S::decimal_spec(-417768164, -11).add_spec(p.mul_spec(w));
    let p = S::decimal_spec(246640727, -9).add_spec(p.mul_spec(w));
    S::decimal_spec(150140941, -8).add_spec(p.mul_spec(w))
}

/// The polynomial in `sqrt(w) - 3` that approximates `erfinv(x) / x` towards
/// the ends of the domain.
pub open spec fn tail_spec<S: Primitive>(w: S) -> S {
    let w = w.sqrt_spec().sub_spec(whole::<S>(3));
    let p = S::decimal_spec(-200214257, -12);
    let p = S::decimal_spec(100950558, -12).add_spec(p.mul_spec(w));
    let p = S::decimal_spec(134934322, -11).add_spec(p.mul_spec(w));
    let p = S::decimal_spec(-367342844, -11).add_spec(p.mul_spec(w));
    let p = S::decimal_spec(573950773, -11).add_spec(p.mul_spec(w));
    let p = S::decimal_spec(-76224613, -10).add_spec(p.mul_spec(w));
    let p = S::decimal_spec(943887047, -11).add_spec(p.mul_spec(w));
    let p = S::decimal_spec(100167406, -8).add_spec(p.mul_spec(w));
    S::decimal_spec(283297682, -8).add_spec(p.mul_spec(w))
}

/// One step of Halley's method on `erf(r) - x`, from the estimate `r`.
pub open spec fn refined_spec<S: Primitive>(r: S, x: S) -> S {
    let two = whole::<S>(2);
    let fx = r.erf_spec().sub_spec(x);
    let df = two.div_spec(S::decimal_spec(17724538509055159, -16)).mul_spec(
        r.mul_spec(r).neg_spec().exp_spec(),
    );
    let d2f = whole::<S>(-2).mul_spec(r).mul_spec(df);
    r.sub_spec(
        two.mul_spec(fx).mul_spec(df).div_spec(
            two.mul_spec(df).mul_spec(df).sub_spec(fx.mul_spec(d2f)),
        ),
    )
}

/// The value that `erfinv` computes: a polynomial estimate, refined by one
/// step of Halley's method.
pub open spec fn erfinv_spec<S: Primitive>(x: S) -> S {
    let one = whole::<S>(1);
    let w = one.sub_spec(x).mul_spec(one.add_spec(x)).ln_spec().neg_spec();
    let p = if w.lt_spec(whole::<S>(5)) {
        central_spec(w)
    } else {
        tail_spec(w)
    };
    refined_spec(p.mul_spec(x), x)
}

fn central<S: Primitive>(w: S) -> (p: S)
    ensures
        deterministic::<S>() ==> p == central_spec(w),
{
    let w = w.sub(S::decimal(25, -1));
    let p = S::decimal(281022636, -16);
    let p = S::decimal(343273939, -15).add(p.mul(w));
    let p = S::decimal(-35233877, -13).add(p.mul(w));
    let p = S::decimal(-439150654, -14).add(p.mul(w));
    let p = S::decimal(21858087, -11).add(p.mul(w));
    let p = S::decimal(-125372503, -11).add(p.mul(w));
    let p = S::decimal(-417768164, -11).add(p.mul(w));
    let p = S::decimal(246640727, -9).add(p.mul(w));
    S::decimal(150140941, -8).add(p.mul(w))
}

fn tail<S: Primitive>(w: S) -> (p: S)
    ensures
        deterministic::<S>() ==> p == tail_spec(w),
{
    let w = w.sqrt().sub(S::decimal(3, 0));
    let p = S::decimal(-200214257, -12);
    let p = S::decimal(100950558, -12).add(p.mul(w));
    let p = S::decimal(134934322, -11).add(p.mul(w));
    let p = S::decimal(-367342844, -11).add(p.mul(w));
    let p = S::decimal(573950773, -11).add(p.mul(w));
    let p = S::decimal(-76224613, -10).add(p.mul(w));
    let p = S::decimal(943887047, -11).add(p.mul(w));
    let p = S::decimal(100167406, -8).add(p.mul(w));
    S::decimal(283297682, -8).add(p.mul(w))
}

fn refined<S: Primitive>(r: S, x: S) -> (v: S)
    ensures
        deterministic::<S>() ==> v == refined_spec(r, x),
{
    let two = S::decimal(2, 0);
    let fx = Primitive::erf(r).sub(x);
    let df = two.div(S::decimal(17724538509055159, -16)).mul(r.mul(r).neg().exp());
    let d2f = S::decimal(-2, 0).mul(r).mul(df);
    r.sub(two.mul(fx).mul(df).div(two.mul(df).mul(df).sub(fx.mul(d2f))))
}

impl<S: Primitive> Error for S {
    fn erf(self) -> (r: Self)
        ensures
            deterministic::<S>() ==> r == self.erf_spec(),
    {
        Primitive::erf(self)
    }

    fn erfc(self) -> (r: Self)
        ensures
            deterministic::<S>() ==> r == self.erfc_spec(),
    {
        Primitive::erfc(self)
    }

    fn erfinv(self) -> (r: Self)
        ensures
            deterministic::<S>() ==> r == erfinv_spec(self),
    {
        let one = S::decimal(1, 0);
        let w = one.sub(self).mul(one.add(self)).ln().neg();
        let p = if w.lt(S::decimal(5, 0)) {
            central(w)
        } else {
            tail(w)
        };
        refined(p.mul(self), self)
    }
}

} // verus!

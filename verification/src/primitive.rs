//! The elementary operations that the special functions are built from.
//!
//! The library never touches a machine number itself. Everything it computes
//! is expressed through the operations of [`Primitive`], which a numeric type
//! supplies. The proofs treat each operation as an unknown function of its
//! operands: [`PrimitiveSpec`] gives that function a name, and
//! [`deterministic`] is the hypothesis under which a call returns it.
use vstd::prelude::*;

verus! {

/// Elementary operations on a scalar.
///
/// No method carries a contract: an implementation promises nothing beyond
/// returning. What the library states about its own results is stated under
/// the hypothesis [`deterministic`].
pub trait Primitive: Sized + Copy {
    /// The scalar nearest to `mantissa * 10^exponent`.
    fn decimal(mantissa: i64, exponent: i32) -> Self;

    /// `self + rhs`.
    fn add(self, rhs: Self) -> Self;

    /// `self - rhs`.
    fn sub(self, rhs: Self) -> Self;

    /// `self * rhs`.
    fn mul(self, rhs: Self) -> Self;

    /// `self / rhs`.
    fn div(self, rhs: Self) -> Self;

    /// `-self`.
    fn neg(self) -> Self;

    /// The absolute value.
    fn abs(self) -> Self;

    /// The smaller of the two operands.
    fn min(self, rhs: Self) -> Self;

    /// `self < rhs`.
    fn lt(self, rhs: Self) -> bool;

    /// `self <= rhs`.
    fn le(self, rhs: Self) -> bool;

    /// `self == rhs`.
    fn eq(self, rhs: Self) -> bool;

    /// The integer part, saturated to the range of `i64`.
    fn truncate(self) -> i64;

    /// The natural logarithm.
    fn ln(self) -> Self;

    /// The exponential function.
    fn exp(self) -> Self;

    /// The square root.
    fn sqrt(self) -> Self;

    /// `self` raised to a scalar power.
    fn powf(self, exponent: Self) -> Self;

    /// `self` raised to an integer power.
    fn powi(self, exponent: i32) -> Self;

    /// The natural logarithm of the absolute value of the gamma function,
    /// with the sign of the gamma function.
    fn lgamma(self) -> (Self, i32);

    /// The error function.
    fn erf(self) -> Self;

    /// The complementary error function.
    fn erfc(self) -> Self;
}

/// Some result that a call of `f` on `args` may return.
pub open spec fn value_of<F: FnOnce<Args, Output = R>, Args: core::marker::Tuple, R>(
    f: F,
    args: Args,
) -> R {
    choose|r: R| call_ensures(f, args, r)
}

/// A call of `f` has at most one possible result for each argument.
pub open spec fn single_valued<F: FnOnce<Args, Output = R>, Args: core::marker::Tuple, R>(
    f: F,
) -> bool {
    forall|args: Args, r1: R, r2: R|
        #![trigger call_ensures(f, args, r1), call_ensures(f, args, r2)]
        call_ensures(f, args, r1) && call_ensures(f, args, r2) ==> r1 == r2
}

/// Every operation of `S` is a function of its operands: two calls on the
/// same operands return the same result.
pub open spec fn deterministic<S: Primitive>() -> bool {
    &&& single_valued::<_, (i64, i32), S>(S::decimal)
    &&& single_valued::<_, (S, S), S>(S::add)
    &&& single_valued::<_, (S, S), S>(S::sub)
    &&& single_valued::<_, (S, S), S>(S::mul)
    &&& single_valued::<_, (S, S), S>(S::div)
    &&& single_valued::<_, (S,), S>(S::neg)
    &&& single_valued::<_, (S,), S>(S::abs)
    &&& single_valued::<_, (S, S), S>(S::min)
    &&& single_valued::<_, (S, S), bool>(S::lt)
    &&& single_valued::<_, (S, S), bool>(S::le)
    &&& single_valued::<_, (S, S), bool>(S::eq)
    &&& single_valued::<_, (S,), i64>(S::truncate)
    &&& single_valued::<_, (S,), S>(S::ln)
    &&& single_valued::<_, (S,), S>(S::exp)
    &&& single_valued::<_, (S,), S>(S::sqrt)
    &&& single_valued::<_, (S, S), S>(S::powf)
    &&& single_valued::<_, (S, i32), S>(S::powi)
    &&& single_valued::<_, (S,), (S, i32)>(S::lgamma)
    &&& single_valued::<_, (S,), S>(S::erf)
    &&& single_valued::<_, (S,), S>(S::erfc)
}

/// Names for what the operations of [`Primitive`] return.
pub trait PrimitiveSpec: Primitive {
    /// What `decimal` returns.
    spec fn decimal_spec(mantissa: int, exponent: int) -> Self;

    /// What `add` returns.
    spec fn add_spec(self, rhs: Self) -> Self;

    /// What `sub` returns.
    spec fn sub_spec(self, rhs: Self) -> Self;

    /// What `mul` returns.
    spec fn mul_spec(self, rhs: Self) -> Self;

    /// What `div` returns.
    spec fn div_spec(self, rhs: Self) -> Self;

    /// What `neg` returns.
    spec fn neg_spec(self) -> Self;

    /// What `abs` returns.
    spec fn abs_spec(self) -> Self;

    /// What `min` returns.
    spec fn min_spec(self, rhs: Self) -> Self;

    /// What `lt` returns.
    spec fn lt_spec(self, rhs: Self) -> bool;

    /// What `le` returns.
    spec fn le_spec(self, rhs: Self) -> bool;

    /// What `eq` returns.
    spec fn eq_spec(self, rhs: Self) -> bool;

    /// What `truncate` returns.
    spec fn truncate_spec(self) -> i64;

    /// What `ln` returns.
    spec fn ln_spec(self) -> Self;

    /// What `exp` returns.
    spec fn exp_spec(self) -> Self;

    /// What `sqrt` returns.
    spec fn sqrt_spec(self) -> Self;

    /// What `powf` returns.
    spec fn powf_spec(self, exponent: Self) -> Self;

    /// What `powi` returns.
    spec fn powi_spec(self, exponent: i32) -> Self;

    /// What `lgamma` returns.
    spec fn lgamma_spec(self) -> (Self, i32);

    /// What `erf` returns.
    spec fn erf_spec(self) -> Self;

    /// What `erfc` returns.
    spec fn erfc_spec(self) -> Self;
}

impl<S: Primitive> PrimitiveSpec for S {
    open spec fn decimal_spec(mantissa: int, exponent: int) -> Self {
        value_of(S::decimal, (mantissa as i64, exponent as i32))
    }

    open spec fn add_spec(self, rhs: Self) -> Self {
        value_of(S::add, (self, rhs))
    }

    open spec fn sub_spec(self, rhs: Self) -> Self {
        value_of(S::sub, (self, rhs))
    }

    open spec fn mul_spec(self, rhs: Self) -> Self {
        value_of(S::mul, (self, rhs))
    }

    open spec fn div_spec(self, rhs: Self) -> Self {
        value_of(S::div, (self, rhs))
    }

    open spec fn neg_spec(self) -> Self {
        value_of(S::neg, (self,))
    }

    open spec fn abs_spec(self) -> Self {
        value_of(S::abs, (self,))
    }

    open spec fn min_spec(self, rhs: Self) -> Self {
        value_of(S::min, (self, rhs))
    }

    open spec fn lt_spec(self, rhs: Self) -> bool {
        value_of(S::lt, (self, rhs))
    }

    open spec fn le_spec(self, rhs: Self) -> bool {
        value_of(S::le, (self, rhs))
    }

    open spec fn eq_spec(self, rhs: Self) -> bool {
        value_of(S::eq, (self, rhs))
    }

    open spec fn truncate_spec(self) -> i64 {
        value_of(S::truncate, (self,))
    }

    open spec fn ln_spec(self) -> Self {
        value_of(S::ln, (self,))
    }

    open spec fn exp_spec(self) -> Self {
        value_of(S::exp, (self,))
    }

    open spec fn sqrt_spec(self) -> Self {
        value_of(S::sqrt, (self,))
    }

    open spec fn powf_spec(self, exponent: Self) -> Self {
        value_of(S::powf, (self, exponent))
    }

    open spec fn powi_spec(self, exponent: i32) -> Self {
        value_of(S::powi, (self, exponent))
    }

    open spec fn lgamma_spec(self) -> (Self, i32) {
        value_of(S::lgamma, (self,))
    }

    open spec fn erf_spec(self) -> Self {
        value_of(S::erf, (self,))
    }

    open spec fn erfc_spec(self) -> Self {
        value_of(S::erfc, (self,))
    }
}

/// The scalar for an integer.
pub open spec fn whole<S: Primitive>(n: int) -> S {
    S::decimal_spec(n, 0)
}

/// Whether `v` is a shape parameter: strictly positive.
pub open spec fn is_shape<S: Primitive>(v: S) -> bool {
    whole::<S>(0).lt_spec(v)
}

} // verus!

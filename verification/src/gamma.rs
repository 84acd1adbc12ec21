//! The gamma function and its relatives.
use crate::failure::Failure;
use crate::primitive::{deterministic, is_shape, whole, Primitive, PrimitiveSpec};
use vstd::prelude::*;

verus! {

/// The most steps that an expansion of [`inc_gamma`] may take.
pub const EXPANSION_LIMIT: u64 = 10_000_000;

/// Compute the natural logarithm of the gamma function: the logarithm of its
/// absolute value, and its sign.
pub fn ln_gamma<S: Primitive>(x: S) -> (r: (S, i32))
    ensures
        deterministic::<S>() ==> r == x.lgamma_spec(),
{
    x.lgamma()
}

/// The running state of the power series.
pub struct Power<S> {
    /// The shifted shape parameter of the last term.
    pub a: S,
    /// The term added last.
    pub c: S,
    /// The sum so far.
    pub value: S,
}

/// The state after the next term of the power series has been added.
pub open spec fn power_step_spec<S: Primitive>(s: Power<S>, x: S) -> Power<S> {
    let a = s.a.add_spec(whole::<S>(1));
    let c = s.c.mul_spec(x.div_spec(a));
    Power { a, c, value: s.value.add_spec(c) }
}

/// The sum that the power series reaches from state `s` with `fuel` terms
/// still allowed, and whether its last term fell to `1e-14`.
pub open spec fn power_sum_spec<S: Primitive>(s: Power<S>, x: S, fuel: nat) -> (S, bool)
    decreases fuel,
{
    if fuel == 0 {
        (s.value, false)
    } else {
        let t = power_step_spec(s, x);
        if t.c.le_spec(S::decimal_spec(1, -14)) {
            (t.value, true)
        } else {
            power_sum_spec(t, x, (fuel - 1) as nat)
        }
    }
}

/// The lower tail by the power series: `exp(p ln x - x - lnΓ(p + 1) + ln v)`
/// for the sum `v` of the series, or zero where that exponent lies below
/// `-88`.
pub open spec fn lower_by_series_spec<S: Primitive>(x: S, p: S) -> (S, bool) {
    let start = Power { a: p, c: whole::<S>(1), value: whole::<S>(1) };
    let (value, met) = power_sum_spec(start, x, EXPANSION_LIMIT as nat);
    let arg = p.mul_spec(x.ln_spec()).sub_spec(x).sub_spec(
        p.add_spec(whole::<S>(1)).lgamma_spec().0,
    ).add_spec(value.ln_spec());
    if whole::<S>(-88).le_spec(arg) {
        (arg.exp_spec(), met)
    } else {
        (whole::<S>(0), met)
    }
}

/// The running state of the continued fraction.
pub struct Fraction<S> {
    /// The partial numerator's first factor.
    pub a: S,
    /// The partial denominator.
    pub b: S,
    /// The partial numerator's second factor.
    pub c: S,
    /// The numerator of the convergent before the last.
    pub pn1: S,
    /// The denominator of the convergent before the last.
    pub pn2: S,
    /// The numerator of the last convergent.
    pub pn3: S,
    /// The denominator of the last convergent.
    pub pn4: S,
    /// The last convergent that was accepted.
    pub value: S,
}

/// The state before the first step of the continued fraction.
pub open spec fn fraction_start_spec<S: Primitive>(x: S, p: S) -> Fraction<S> {
    let one = whole::<S>(1);
    let a = one.sub_spec(p);
    let b = a.add_spec(x).add_spec(one);
    let pn3 = x.add_spec(one);
    let pn4 = x.mul_spec(b);
    Fraction { a, b, c: whole::<S>(0), pn1: one, pn2: x, pn3, pn4, value: pn3.div_spec(pn4) }
}

/// One step of the continued fraction: the next state, and whether the new
/// convergent agrees with the last one to within `1e-14`, absolutely and
/// relatively. A convergent with a zero denominator is passed over. The four
/// terms of the recurrence are scaled down by `1e37` whenever the newest
/// numerator reaches that size.
pub open spec fn fraction_step_spec<S: Primitive>(s: Fraction<S>) -> (Fraction<S>, bool) {
    let tol = S::decimal_spec(1, -14);
    let oflo = S::decimal_spec(1, 37);
    let a = s.a.add_spec(whole::<S>(1));
    let b = s.b.add_spec(whole::<S>(2));
    let c = s.c.add_spec(whole::<S>(1));
    let an = a.mul_spec(c);
    let pn5 = b.mul_spec(s.pn3).sub_spec(an.mul_spec(s.pn1));
    let pn6 = b.mul_spec(s.pn4).sub_spec(an.mul_spec(s.pn2));
    let usable = !pn6.eq_spec(whole::<S>(0));
    let rn = pn5.div_spec(pn6);
    if usable && s.value.sub_spec(rn).abs_spec().le_spec(tol.min_spec(tol.mul_spec(rn))) {
        (s, true)
    } else {
        let value = if usable {
            rn
        } else {
            s.value
        };
        if oflo.le_spec(pn5.abs_spec()) {
            (
                Fraction {
                    a,
                    b,
                    c,
                    pn1: s.pn3.div_spec(oflo),
                    pn2: s.pn4.div_spec(oflo),
                    pn3: pn5.div_spec(oflo),
                    pn4: pn6.div_spec(oflo),
                    value,
                },
                false,
            )
        } else {
            (Fraction { a, b, c, pn1: s.pn3, pn2: s.pn4, pn3: pn5, pn4: pn6, value }, false)
        }
    }
}

/// The convergent that the continued fraction reaches from state `s` with
/// `fuel` steps still allowed, and whether two convergents agreed.
pub open spec fn fraction_value_spec<S: Primitive>(s: Fraction<S>, fuel: nat) -> (S, bool)
    decreases fuel,
{
    if fuel == 0 {
        (s.value, false)
    } else {
        let (t, met) = fraction_step_spec(s);
        if met {
            (t.value, true)
        } else {
            fraction_value_spec(t, (fuel - 1) as nat)
        }
    }
}

/// The lower tail by the continued fraction:
/// `1 - exp(p ln x - x - lnΓ(p) + ln v)` for the value `v` of the fraction,
/// or one where that exponent lies below `-88`.
pub open spec fn lower_by_fraction_spec<S: Primitive>(x: S, p: S) -> (S, bool) {
    let (value, met) = fraction_value_spec(fraction_start_spec(x, p), EXPANSION_LIMIT as nat);
    let arg = p.mul_spec(x.ln_spec()).sub_spec(x).sub_spec(p.lgamma_spec().0).add_spec(
        value.ln_spec(),
    );
    if whole::<S>(-88).le_spec(arg) {
        (whole::<S>(1).sub_spec(arg.exp_spec()), met)
    } else {
        (whole::<S>(1), met)
    }
}

/// The value that [`inc_gamma`] computes.
pub open spec fn inc_gamma_spec<S: Primitive>(x: S, p: S) -> Result<S, Failure<S>> {
    if !whole::<S>(0).le_spec(x) || !is_shape(p) {
        Err(Failure::Domain)
    } else if x.eq_spec(whole::<S>(0)) {
        Ok(whole::<S>(0))
    } else if S::decimal_spec(1, 8).lt_spec(x) {
        Ok(whole::<S>(1))
    } else {
        let (value, met) = if x.le_spec(whole::<S>(1)) || x.lt_spec(p) {
            lower_by_series_spec(x, p)
        } else {
            lower_by_fraction_spec(x, p)
        };
        if met {
            Ok(value)
        } else {
            Err(Failure::NoConvergence(value))
        }
    }
}

fn power_step<S: Primitive>(s: Power<S>, x: S) -> (t: Power<S>)
    ensures
        deterministic::<S>() ==> t == power_step_spec(s, x),
{
    let a = s.a.add(S::decimal(1, 0));
    let c = s.c.mul(x.div(a));
    Power { a, c, value: s.value.add(c) }
}

fn power_sum<S: Primitive>(p: S, x: S) -> (r: (S, bool))
    ensures
        deterministic::<S>() ==> r == power_sum_spec(
            Power { a: p, c: whole::<S>(1), value: whole::<S>(1) },
            x,
            EXPANSION_LIMIT as nat,
        ),
{
    let one = S::decimal(1, 0);
    let tol = S::decimal(1, -14);
    let mut s = Power { a: p, c: one, value: one };
    let mut left: u64 = EXPANSION_LIMIT;
    while left > 0
        invariant
            deterministic::<S>() ==> tol == S::decimal_spec(1, -14),
            deterministic::<S>() ==> power_sum_spec(s, x, left as nat) == power_sum_spec(
                Power { a: p, c: whole::<S>(1), value: whole::<S>(1) },
                x,
                EXPANSION_LIMIT as nat,
            ),
        decreases left,
    {
        let t = power_step(s, x);
        if t.c.le(tol) {
            return (t.value, true);
        }
        s = t;
        left = left - 1;
    }
    (s.value, false)
}

fn lower_by_series<S: Primitive>(x: S, p: S) -> (r: (S, bool))
    ensures
        deterministic::<S>() ==> r == lower_by_series_spec(x, p),
{
    let (value, met) = power_sum(p, x);
    let arg = p.mul(x.ln()).sub(x).sub(p.add(S::decimal(1, 0)).lgamma().0).add(value.ln());
    if S::decimal(-88, 0).le(arg) {
        (arg.exp(), met)
    } else {
        (S::decimal(0, 0), met)
    }
}

fn fraction_start<S: Primitive>(x: S, p: S) -> (s: Fraction<S>)
    ensures
        deterministic::<S>() ==> s == fraction_start_spec(x, p),
{
    let one = S::decimal(1, 0);
    let a = one.sub(p);
    let b = a.add(x).add(one);
    let pn3 = x.add(one);
    let pn4 = x.mul(b);
    Fraction { a, b, c: S::decimal(0, 0), pn1: one, pn2: x, pn3, pn4, value: pn3.div(pn4) }
}

fn fraction_step<S: Primitive>(s: Fraction<S>) -> (r: (Fraction<S>, bool))
    ensures
        deterministic::<S>() ==> r == fraction_step_spec(s),
{
    let tol = S::decimal(1, -14);
    let oflo = S::decimal(1, 37);
    let a = s.a.add(S::decimal(1, 0));
    let b = s.b.add(S::decimal(2, 0));
    let c = s.c.add(S::decimal(1, 0));
    let an = a.mul(c);
    let pn5 = b.mul(s.pn3).sub(an.mul(s.pn1));
    let pn6 = b.mul(s.pn4).sub(an.mul(s.pn2));
    let usable = !pn6.eq(S::decimal(0, 0));
    let rn = pn5.div(pn6);
    if usable && s.value.sub(rn).abs().le(tol.min(tol.mul(rn))) {
        return (s, true);
    }
    let value = if usable {
        rn
    } else {
        s.value
    };
    if oflo.le(pn5.abs()) {
        (
            Fraction {
                a,
                b,
                c,
                pn1: s.pn3.div(oflo),
                pn2: s.pn4.div(oflo),
                pn3: pn5.div(oflo),
                pn4: pn6.div(oflo),
                value,
            },
            false,
        )
    } else {
        (Fraction { a, b, c, pn1: s.pn3, pn2: s.pn4, pn3: pn5, pn4: pn6, value }, false)
    }
}

fn fraction_value<S: Primitive>(start: Fraction<S>) -> (r: (S, bool))
    ensures
        deterministic::<S>() ==> r == fraction_value_spec(start, EXPANSION_LIMIT as nat),
{
    let mut s = start;
    let mut left: u64 = EXPANSION_LIMIT;
    while left > 0
        invariant
            deterministic::<S>() ==> fraction_value_spec(s, left as nat) == fraction_value_spec(
                start,
                EXPANSION_LIMIT as nat,
            ),
        decreases left,
    {
        let (t, met) = fraction_step(s);
        if met {
            return (t.value, true);
        }
        s = t;
        left = left - 1;
    }
    (s.value, false)
}

fn lower_by_fraction<S: Primitive>(x: S, p: S) -> (r: (S, bool))
    ensures
        deterministic::<S>() ==> r == lower_by_fraction_spec(x, p),
{
    let (value, met) = fraction_value(fraction_start(x, p));
    let arg = p.mul(x.ln()).sub(x).sub(p.lgamma().0).add(value.ln());
    if S::decimal(-88, 0).le(arg) {
        (S::decimal(1, 0).sub(arg.exp()), met)
    } else {
        (S::decimal(1, 0), met)
    }
}

/// Compute the regularized lower incomplete gamma function `P(x, p)`.
///
/// The argument must be at least zero and the shape parameter positive, else
/// the result is [`Failure::Domain`]. At zero the result is zero, and beyond
/// `1e8` it is one. For `x <= 1` or `x < p` the function sums a power
/// series, otherwise it evaluates a continued fraction; should either take
/// more than [`EXPANSION_LIMIT`] steps, the value reached comes back inside
/// [`Failure::NoConvergence`].
pub fn inc_gamma<S: Primitive>(x: S, p: S) -> (r: Result<S, Failure<S>>)
    ensures
        deterministic::<S>() ==> r == inc_gamma_spec(x, p),
{
    let zero = S::decimal(0, 0);
    if !zero.le(x) || !zero.lt(p) {
        return Err(Failure::Domain);
    }
    if x.eq(zero) {
        return Ok(zero);
    }
    if S::decimal(1, 8).lt(x) {
        return Ok(S::decimal(1, 0));
    }
    let (value, met) = if x.le(S::decimal(1, 0)) || x.lt(p) {
        lower_by_series(x, p)
    } else {
        lower_by_fraction(x, p)
    };
    if met {
        Ok(value)
    } else {
        Err(Failure::NoConvergence(value))
    }
}

/// The most times that [`digamma`] may shift its argument upwards.
pub const SHIFT_LIMIT: usize = 1_000_000;

/// The asymptotic expansion of the digamma function, for arguments above
/// eight: `ln x - 1/(2x) - x^-2 P(x^-2)` with a polynomial `P` of degree
/// seven.
pub open spec fn expansion_spec<S: Primitive>(x: S) -> S {
    let inv = whole::<S>(1).div_spec(x);
    let inv2 = inv.mul_spec(inv);
    let sum = inv2.mul_spec(whole::<S>(0)).add_spec(whole::<S>(-3617).div_spec(whole::<S>(8160)));
    let sum = inv2.mul_spec(sum).add_spec(whole::<S>(1).div_spec(whole::<S>(12)));
    let sum = inv2.mul_spec(sum).add_spec(whole::<S>(-691).div_spec(whole::<S>(32760)));
    let sum = inv2.mul_spec(sum).add_spec(whole::<S>(5).div_spec(whole::<S>(660)));
    let sum = inv2.mul_spec(sum).add_spec(whole::<S>(-1).div_spec(whole::<S>(240)));
    let sum = inv2.mul_spec(sum).add_spec(whole::<S>(1).div_spec(whole::<S>(252)));
    let sum = inv2.mul_spec(sum).add_spec(whole::<S>(-1).div_spec(whole::<S>(120)));
    let sum = inv2.mul_spec(sum).add_spec(whole::<S>(1).div_spec(whole::<S>(12)));
    x.ln_spec().sub_spec(S::decimal_spec(5, -1).mul_spec(inv)).sub_spec(inv2.mul_spec(sum))
}

/// The argument after `n` shifts by one.
pub open spec fn shift_spec<S: Primitive>(x: S, n: nat) -> S
    decreases n,
{
    if n == 0 {
        x
    } else {
        shift_spec(x, (n - 1) as nat).add_spec(whole::<S>(1))
    }
}

/// The digamma function by the recurrence `ψ(x) = ψ(x + 1) - 1/x`, which is
/// followed upwards until the argument is above eight, and whether that took
/// no more than `fuel` shifts.
pub open spec fn recurrence_spec<S: Primitive>(x: S, fuel: nat) -> (S, bool)
    decreases fuel,
{
    if !x.le_spec(whole::<S>(8)) {
        (expansion_spec(x), true)
    } else if fuel == 0 {
        (expansion_spec(x), false)
    } else {
        let (v, met) = recurrence_spec(x.add_spec(whole::<S>(1)), (fuel - 1) as nat);
        (v.sub_spec(whole::<S>(1).div_spec(x)), met)
    }
}

/// The value that [`digamma`] computes.
pub open spec fn digamma_spec<S: Primitive>(x: S) -> Result<S, Failure<S>> {
    let (v, met) = recurrence_spec(x, SHIFT_LIMIT as nat);
    if met {
        Ok(v)
    } else {
        Err(Failure::NoConvergence(v))
    }
}

fn expansion<S: Primitive>(x: S) -> (v: S)
    ensures
        deterministic::<S>() ==> v == expansion_spec(x),
{
    let one = S::decimal(1, 0);
    let twelfth = one.div(S::decimal(12, 0));
    let inv = one.div(x);
    let inv2 = inv.mul(inv);
    let sum = inv2.mul(S::decimal(0, 0)).add(S::decimal(-3617, 0).div(S::decimal(8160, 0)));
    let sum = inv2.mul(sum).add(twelfth);
    let sum = inv2.mul(sum).add(S::decimal(-691, 0).div(S::decimal(32760, 0)));
    let sum = inv2.mul(sum).add(S::decimal(5, 0).div(S::decimal(660, 0)));
    let sum = inv2.mul(sum).add(S::decimal(-1, 0).div(S::decimal(240, 0)));
    let sum = inv2.mul(sum).add(one.div(S::decimal(252, 0)));
    let sum = inv2.mul(sum).add(S::decimal(-1, 0).div(S::decimal(120, 0)));
    let sum = inv2.mul(sum).add(twelfth);
    x.ln().sub(S::decimal(5, -1).mul(inv)).sub(inv2.mul(sum))
}

/// Compute the real-valued digamma function: the logarithmic derivative of
/// the gamma function.
///
/// An argument of at most eight is shifted upwards by the recurrence
/// `ψ(x) = ψ(x + 1) - 1/x` until it is above eight, where an asymptotic
/// expansion applies. Should that take more than [`SHIFT_LIMIT`] shifts, the
/// value that the expansion gives where the shifting stopped comes back,
/// carried down the recurrence, inside [`Failure::NoConvergence`].
pub fn digamma<S: Primitive>(x: S) -> (r: Result<S, Failure<S>>)
    ensures
        deterministic::<S>() ==> r == digamma_spec(x),
{
    let one = S::decimal(1, 0);
    let eight = S::decimal(8, 0);
    let mut below: Vec<S> = Vec::new();
    let mut y = x;
    let mut above = !y.le(eight);
    while !above && below.len() < SHIFT_LIMIT
        invariant
            below.len() <= SHIFT_LIMIT,
            deterministic::<S>() ==> one == whole::<S>(1) && eight == whole::<S>(8),
            deterministic::<S>() ==> above == !y.le_spec(whole::<S>(8)),
            deterministic::<S>() ==> y == shift_spec(x, below.len() as nat),
            deterministic::<S>() ==> forall|i: int|
                0 <= i < below.len() ==> below[i] == shift_spec(x, i as nat) && (
                #[trigger] shift_spec(x, i as nat)).le_spec(whole::<S>(8)),
        decreases SHIFT_LIMIT - below.len(), !above as int,
    {
        below.push(y);
        y = y.add(one);
        above = !y.le(eight);
    }
    let mut v = expansion(y);
    let mut k = below.len();
    while k > 0
        invariant
            k <= below.len() <= SHIFT_LIMIT,
            deterministic::<S>() ==> one == whole::<S>(1),
            deterministic::<S>() ==> forall|i: int|
                0 <= i < below.len() ==> below[i] == shift_spec(x, i as nat) && (
                #[trigger] shift_spec(x, i as nat)).le_spec(whole::<S>(8)),
            deterministic::<S>() ==> (v, above) == recurrence_spec(
                shift_spec(x, k as nat),
                (SHIFT_LIMIT - k) as nat,
            ),
        decreases k,
    {
        k = k - 1;
        v = v.sub(one.div(below[k]));
    }
    if above {
        Ok(v)
    } else {
        Err(Failure::NoConvergence(v))
    }
}

} // verus!

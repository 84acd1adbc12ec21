//! The beta function and its relatives.
use crate::failure::Failure;
use crate::primitive::{deterministic, is_shape, whole, Primitive, PrimitiveSpec};
use vstd::prelude::*;

verus! {

/// The most terms that the series of [`inc_beta`] may add up.
pub const SERIES_LIMIT: u64 = 10_000_000;

/// The value that [`ln_beta`] computes.
pub open spec fn ln_beta_spec<S: Primitive>(x: S, y: S) -> S {
    x.lgamma_spec().0.add_spec(y.lgamma_spec().0).sub_spec(x.add_spec(y).lgamma_spec().0)
}

/// Compute the natural logarithm of the beta function.
///
/// The domain is `{(x, y): x > 0, y > 0}`.
pub fn ln_beta<S: Primitive>(x: S, y: S) -> (r: S)
    ensures
        deterministic::<S>() ==> r == ln_beta_spec(x, y),
{
    let (a, _) = x.lgamma();
    let (b, _) = y.lgamma();
    let (c, _) = x.add(y).lgamma();
    a.add(b).sub(c)
}

/// How Soper's reduction is set up for one argument: which tail of the
/// distribution is summed, and with which parameters.
pub struct Setup<S> {
    /// Whether the complementary tail is summed, so that the result is one
    /// minus the sum.
    pub flip: bool,
    /// The first shape parameter of the tail that is summed.
    pub p: S,
    /// Its second shape parameter.
    pub q: S,
    /// The argument of that tail.
    pub pbase: S,
    /// One minus that argument.
    pub qbase: S,
    /// The sum of the two shape parameters.
    pub psq: S,
}

/// The running state of Soper's series.
pub struct Series<S> {
    /// The term added last.
    pub term: S,
    /// The sum so far.
    pub alpha: S,
    /// The index of the next term.
    pub ai: S,
    /// The factor by which the next term grows.
    pub temp: S,
    /// The ratio by which the next term is scaled.
    pub rx: S,
    /// The shifted sum of the parameters, which "raising p" increases.
    pub psq: S,
    /// The reductions "by parts" that are left; zero once the series has
    /// gone over to "raising p".
    pub ns: i64,
}

/// The tail that the series is summed over: the one for which
/// `p >= (p + q) x` holds, where the series converges fastest.
pub open spec fn setup_spec<S: Primitive>(x: S, p: S, q: S) -> Setup<S> {
    let psq = p.add_spec(q);
    if p.lt_spec(psq.mul_spec(x)) {
        Setup { flip: true, p: q, q: p, pbase: whole::<S>(1).sub_spec(x), qbase: x, psq }
    } else {
        Setup { flip: false, p, q, pbase: x, qbase: whole::<S>(1).sub_spec(x), psq }
    }
}

/// The state before the first term.
pub open spec fn start_spec<S: Primitive>(c: Setup<S>) -> Series<S> {
    let ns = c.q.add_spec(c.qbase.mul_spec(c.psq)).truncate_spec();
    Series {
        term: whole::<S>(1),
        alpha: whole::<S>(1),
        ai: whole::<S>(1),
        temp: c.q.sub_spec(whole::<S>(1)),
        rx: if ns == 0 {
            c.pbase
        } else {
            c.pbase.div_spec(c.qbase)
        },
        psq: c.psq,
        ns: if ns < 0 {
            0
        } else {
            ns
        },
    }
}

/// The state after the next term has been added to the sum.
pub open spec fn add_term_spec<S: Primitive>(s: Series<S>, p: S) -> Series<S> {
    let term = s.term.mul_spec(s.temp).mul_spec(s.rx).div_spec(p.add_spec(s.ai));
    Series { term, alpha: s.alpha.add_spec(term), ..s }
}

/// The stopping rule: the last term is at most `1e-15`, both absolutely and
/// relative to the sum.
pub open spec fn settled_spec<S: Primitive>(s: Series<S>) -> bool {
    let acu = S::decimal_spec(1, -15);
    let size = if s.term.lt_spec(whole::<S>(0)) {
        s.term.neg_spec()
    } else {
        s.term
    };
    size.le_spec(acu) && size.le_spec(acu.mul_spec(s.alpha))
}

/// The state made ready for the term after the one just added: one more
/// reduction "by parts" while any is left, "raising p" from then on.
pub open spec fn advance_spec<S: Primitive>(s: Series<S>, q: S, pbase: S) -> Series<S> {
    let ai = s.ai.add_spec(whole::<S>(1));
    if s.ns > 1 {
        Series { ai, ns: (s.ns - 1) as i64, temp: q.sub_spec(ai), ..s }
    } else if s.ns == 1 {
        Series { ai, ns: 0, temp: q.sub_spec(ai), rx: pbase, ..s }
    } else {
        Series { ai, temp: s.psq, psq: s.psq.add_spec(whole::<S>(1)), ..s }
    }
}

/// The sum that the series for the shape parameters `p` and `q` at `pbase`
/// reaches from state `s` with `fuel` terms still allowed, and whether the
/// stopping rule was met.
pub open spec fn series_spec<S: Primitive>(s: Series<S>, p: S, q: S, pbase: S, fuel: nat) -> (
    S,
    bool,
)
    decreases fuel,
{
    if fuel == 0 {
        (s.alpha, false)
    } else {
        let t = add_term_spec(s, p);
        if settled_spec(t) {
            (t.alpha, true)
        } else {
            series_spec(advance_spec(t, q, pbase), p, q, pbase, (fuel - 1) as nat)
        }
    }
}

/// The sum of the whole series that `c` sets up.
pub open spec fn sum_spec<S: Primitive>(c: Setup<S>) -> (S, bool) {
    series_spec(start_spec(c), c.p, c.q, c.pbase, SERIES_LIMIT as nat)
}

/// The integral that belongs to the sum `alpha` of the series.
pub open spec fn scaled_spec<S: Primitive>(alpha: S, c: Setup<S>, ln_beta: S) -> S {
    let exponent = c.p.mul_spec(c.pbase.ln_spec()).add_spec(
        c.q.sub_spec(whole::<S>(1)).mul_spec(c.qbase.ln_spec()),
    ).sub_spec(ln_beta);
    let value = alpha.mul_spec(exponent.exp_spec()).div_spec(c.p);
    if c.flip {
        whole::<S>(1).sub_spec(value)
    } else {
        value
    }
}

/// The value that [`inc_beta`] computes.
pub open spec fn inc_beta_spec<S: Primitive>(x: S, p: S, q: S, ln_beta: S) -> Result<
    S,
    Failure<S>,
> {
    if !is_shape(p) || !is_shape(q) {
        Err(Failure::Domain)
    } else if x.le_spec(whole::<S>(0)) {
        Ok(whole::<S>(0))
    } else if whole::<S>(1).le_spec(x) {
        Ok(whole::<S>(1))
    } else if !whole::<S>(0).lt_spec(x) {
        Err(Failure::Domain)
    } else {
        let c = setup_spec(x, p, q);
        let (alpha, met) = sum_spec(c);
        let value = scaled_spec(alpha, c, ln_beta);
        if met {
            Ok(value)
        } else {
            Err(Failure::NoConvergence(value))
        }
    }
}

fn setup<S: Primitive>(x: S, p: S, q: S) -> (c: Setup<S>)
    ensures
        deterministic::<S>() ==> c == setup_spec(x, p, q),
{
    let one = S::decimal(1, 0);
    let psq = p.add(q);
    if p.lt(psq.mul(x)) {
        Setup { flip: true, p: q, q: p, pbase: one.sub(x), qbase: x, psq }
    } else {
        Setup { flip: false, p, q, pbase: x, qbase: one.sub(x), psq }
    }
}

fn start<S: Primitive>(c: &Setup<S>) -> (s: Series<S>)
    ensures
        deterministic::<S>() ==> s == start_spec(*c),
{
    let one = S::decimal(1, 0);
    let ns = c.q.add(c.qbase.mul(c.psq)).truncate();
    let rx = if ns == 0 {
        c.pbase
    } else {
        c.pbase.div(c.qbase)
    };
    Series {
        term: one,
        alpha: one,
        ai: one,
        temp: c.q.sub(one),
        rx,
        psq: c.psq,
        ns: if ns < 0 {
            0
        } else {
            ns
        },
    }
}

fn add_term<S: Primitive>(s: Series<S>, p: S) -> (t: Series<S>)
    ensures
        deterministic::<S>() ==> t == add_term_spec(s, p),
{
    let term = s.term.mul(s.temp).mul(s.rx).div(p.add(s.ai));
    Series { term, alpha: s.alpha.add(term), ..s }
}

fn settled<S: Primitive>(s: &Series<S>) -> (b: bool)
    ensures
        deterministic::<S>() ==> b == settled_spec(*s),
{
    let acu = S::decimal(1, -15);
    let size = if s.term.lt(S::decimal(0, 0)) {
        s.term.neg()
    } else {
        s.term
    };
    size.le(acu) && size.le(acu.mul(s.alpha))
}

fn advance<S: Primitive>(s: Series<S>, q: S, pbase: S) -> (t: Series<S>)
    ensures
        deterministic::<S>() ==> t == advance_spec(s, q, pbase),
{
    let ai = s.ai.add(S::decimal(1, 0));
    if s.ns > 1 {
        Series { ai, ns: s.ns - 1, temp: q.sub(ai), ..s }
    } else if s.ns == 1 {
        Series { ai, ns: 0, temp: q.sub(ai), rx: pbase, ..s }
    } else {
        Series { ai, temp: s.psq, psq: s.psq.add(S::decimal(1, 0)), ..s }
    }
}

fn series<S: Primitive>(c: &Setup<S>) -> (r: (S, bool))
    ensures
        deterministic::<S>() ==> r == sum_spec(*c),
{
    let mut s = start(c);
    let mut left: u64 = SERIES_LIMIT;
    while left > 0
        invariant
            deterministic::<S>() ==> series_spec(s, c.p, c.q, c.pbase, left as nat) == sum_spec(
                *c,
            ),
        decreases left,
    {
        let t = add_term(s, c.p);
        if settled(&t) {
            return (t.alpha, true);
        }
        s = advance(t, c.q, c.pbase);
        left = left - 1;
    }
    (s.alpha, false)
}

fn scaled<S: Primitive>(alpha: S, c: &Setup<S>, ln_beta: S) -> (v: S)
    ensures
        deterministic::<S>() ==> v == scaled_spec(alpha, *c, ln_beta),
{
    let one = S::decimal(1, 0);
    let exponent = c.p.mul(c.pbase.ln()).add(c.q.sub(one).mul(c.qbase.ln())).sub(ln_beta);
    let value = alpha.mul(exponent.exp()).div(c.p);
    if c.flip {
        one.sub(value)
    } else {
        value
    }
}

/// Compute the regularized incomplete beta function `I_x(p, q)`.
///
/// The shape parameters must be positive, else the result is
/// [`Failure::Domain`]. An argument at or below zero gives zero and one at or
/// above one gives one, without any computation; an argument that compares
/// with neither bound is outside the domain. In between, the function sums
/// Soper's series, by parts and then by raising `p`, until the last term no
/// longer matters; should that take more than [`SERIES_LIMIT`] terms, the
/// value reached comes back inside [`Failure::NoConvergence`].
pub fn inc_beta<S: Primitive>(x: S, p: S, q: S, ln_beta: S) -> (r: Result<S, Failure<S>>)
    ensures
        deterministic::<S>() ==> r == inc_beta_spec(x, p, q, ln_beta),
{
    let zero = S::decimal(0, 0);
    let one = S::decimal(1, 0);
    if !zero.lt(p) || !zero.lt(q) {
        return Err(Failure::Domain);
    }
    if x.le(zero) {
        return Ok(zero);
    }
    if one.le(x) {
        return Ok(one);
    }
    if !zero.lt(x) {
        return Err(Failure::Domain);
    }
    let c = setup(x, p, q);
    let (alpha, met) = series(&c);
    let value = scaled(alpha, &c, ln_beta);
    if met {
        Ok(value)
    } else {
        Err(Failure::NoConvergence(value))
    }
}

/// The most Newton steps that [`inv_inc_beta`] may take.
pub const NEWTON_LIMIT: u64 = 1_000;

/// The most times that one Newton step of [`inv_inc_beta`] may be shortened.
pub const DAMPING_LIMIT: u64 = 2_000;

/// The equation `I_x(p, q) = alpha` as the root finder sees it: with the
/// level brought into the lower half by symmetry.
pub struct Target<S> {
    /// Whether the parameters were swapped and the level mirrored, so that
    /// the root is one minus the solution found.
    pub flip: bool,
    /// The level to reach, at most one half.
    pub alpha: S,
    /// The first shape parameter.
    pub p: S,
    /// The second shape parameter.
    pub q: S,
    /// The logarithm of the beta function at the shape parameters.
    pub ln_beta: S,
    /// The accuracy asked of the root.
    pub acu: S,
}

/// The running state of the Newton iteration.
pub struct Newton<S> {
    /// The current estimate of the root.
    pub x: S,
    /// The scaled residual at the estimate before.
    pub yprev: S,
    /// The square of the step taken last.
    pub sq: S,
    /// The square of the longest step that may be taken.
    pub prev: S,
}

/// How the search for an admissible step ended.
pub enum Damped<S> {
    /// The stopping rule holds; the payload is the root.
    Converged(S),
    /// A step was found: the new estimate, and the square of the step.
    Moved(S, S),
    /// No admissible step was found within the allowance.
    Exhausted,
}

/// The accuracy asked of the root: `10^e` with
/// `e = trunc(-5/p^2 - alpha^(-0.2) - 13)`, but not below `1e-30`.
pub open spec fn accuracy_spec<S: Primitive>(alpha: S, p: S) -> S {
    let e = whole::<S>(-5).div_spec(p).div_spec(p).sub_spec(
        whole::<S>(1).div_spec(alpha.powf_spec(S::decimal_spec(2, -1))),
    ).sub_spec(whole::<S>(13)).truncate_spec();
    if e > -30 {
        whole::<S>(10).powi_spec(
            if e > i32::MAX {
                i32::MAX
            } else {
                e as i32
            },
        )
    } else {
        S::decimal_spec(1, -30)
    }
}

/// The equation to solve for a level strictly between zero and one.
pub open spec fn target_spec<S: Primitive>(alpha: S, p: S, q: S, ln_beta: S) -> Target<S> {
    if S::decimal_spec(5, -1).lt_spec(alpha) {
        let mirrored = whole::<S>(1).sub_spec(alpha);
        Target {
            flip: true,
            alpha: mirrored,
            p: q,
            q: p,
            ln_beta,
            acu: accuracy_spec(mirrored, q),
        }
    } else {
        Target { flip: false, alpha, p, q, ln_beta, acu: accuracy_spec(alpha, p) }
    }
}

/// Hastings' approximation to the upper `alpha` point of the standard normal
/// distribution.
pub open spec fn hastings_spec<S: Primitive>(alpha: S) -> S {
    let x = alpha.mul_spec(alpha).ln_spec().neg_spec().sqrt_spec();
    let above = S::decimal_spec(230753, -5).add_spec(S::decimal_spec(27061, -5).mul_spec(x));
    let below = whole::<S>(1).add_spec(
        S::decimal_spec(99229, -5).add_spec(S::decimal_spec(4481, -5).mul_spec(x)).mul_spec(x),
    );
    x.sub_spec(above.div_spec(below))
}

/// Carter's approximation to the root, for both shape parameters above one.
pub open spec fn carter_spec<S: Primitive>(y: S, p: S, q: S) -> S {
    let one = whole::<S>(1);
    let two = whole::<S>(2);
    let three = whole::<S>(3);
    let six = whole::<S>(6);
    let r = y.mul_spec(y).sub_spec(three).div_spec(six);
    let s = one.div_spec(two.mul_spec(p).sub_spec(one));
    let t = one.div_spec(two.mul_spec(q).sub_spec(one));
    let h = two.div_spec(s.add_spec(t));
    let w = y.mul_spec(h.add_spec(r).sqrt_spec()).div_spec(h).sub_spec(
        t.sub_spec(s).mul_spec(
            r.add_spec(whole::<S>(5).div_spec(six)).sub_spec(two.div_spec(three.mul_spec(h))),
        ),
    );
    p.div_spec(p.add_spec(q.mul_spec(two.mul_spec(w).exp_spec())))
}

/// The approximation to the root through the chi-squared distribution, for
/// the other shape parameters. Which of its three formulas applies is decided
/// by the Wilson-Hilferty estimate of the chi-squared point.
pub open spec fn scheffe_tukey_spec<S: Primitive>(y: S, t: Target<S>) -> S {
    let one = whole::<S>(1);
    let two = whole::<S>(2);
    let ninth = one.div_spec(whole::<S>(9).mul_spec(t.q));
    let chi = two.mul_spec(t.q).mul_spec(
        one.sub_spec(ninth).add_spec(y.mul_spec(ninth.sqrt_spec())).powf_spec(whole::<S>(3)),
    );
    if chi.le_spec(whole::<S>(0)) {
        one.sub_spec(
            one.sub_spec(t.alpha).mul_spec(t.q).ln_spec().add_spec(t.ln_beta).div_spec(
                t.q,
            ).exp_spec(),
        )
    } else {
        let ratio = two.mul_spec(two.mul_spec(t.p).add_spec(t.q).sub_spec(one)).div_spec(chi);
        if ratio.le_spec(one) {
            t.alpha.mul_spec(t.p).ln_spec().add_spec(t.ln_beta).div_spec(t.p).exp_spec()
        } else {
            one.sub_spec(two.div_spec(ratio.add_spec(one)))
        }
    }
}

/// The estimate that the Newton iteration starts from, kept inside
/// `[0.0001, 0.9999]`.
pub open spec fn first_guess_spec<S: Primitive>(t: Target<S>) -> S {
    let one = whole::<S>(1);
    let low = S::decimal_spec(1, -4);
    let high = S::decimal_spec(9999, -4);
    let y = hastings_spec(t.alpha);
    let x = if one.lt_spec(t.p) && one.lt_spec(t.q) {
        carter_spec(y, t.p, t.q)
    } else {
        scheffe_tukey_spec(y, t)
    };
    if x.lt_spec(low) {
        low
    } else if high.lt_spec(x) {
        high
    } else {
        x
    }
}

/// The Newton step at `x`, where the forward function has the value `v`:
/// the residual `v - alpha` divided by the density.
pub open spec fn residual_spec<S: Primitive>(v: S, x: S, t: Target<S>) -> S {
    let one = whole::<S>(1);
    v.sub_spec(t.alpha).mul_spec(
        t.ln_beta.add_spec(one.sub_spec(t.p).mul_spec(x.ln_spec())).add_spec(
            one.sub_spec(t.q).mul_spec(one.sub_spec(x).ln_spec()),
        ).exp_spec(),
    )
}

/// The square of the longest step allowed at a residual `y`: the last
/// squared step, but at least `1e-30`, where the residual has changed sign,
/// and as before elsewhere.
pub open spec fn trust_spec<S: Primitive>(y: S, s: Newton<S>) -> S {
    let fpu = S::decimal_spec(1, -30);
    if y.mul_spec(s.yprev).le_spec(whole::<S>(0)) {
        if fpu.lt_spec(s.sq) {
            s.sq
        } else {
            fpu
        }
    } else {
        s.prev
    }
}

/// The search for an admissible step from `x` along the Newton step `y`,
/// starting with the fraction `g` of it and with `fuel` trials allowed. A
/// trial is admissible if its square is below `prev` and it stays inside
/// `[0, 1]`; each trial that fails is followed by one a third as long. An
/// admissible trial ends the whole iteration where `converged` holds;
/// elsewhere it is taken unless it lands on zero or one.
pub open spec fn damp_spec<S: Primitive>(
    x: S,
    y: S,
    prev: S,
    g: S,
    converged: bool,
    fuel: nat,
) -> Damped<S>
    decreases fuel,
{
    if fuel == 0 {
        Damped::Exhausted
    } else {
        let zero = whole::<S>(0);
        let one = whole::<S>(1);
        let adj = g.mul_spec(y);
        let sq = adj.mul_spec(adj);
        let tx = x.sub_spec(adj);
        let admissible = sq.lt_spec(prev) && zero.le_spec(tx) && tx.le_spec(one);
        if admissible && converged {
            Damped::Converged(tx)
        } else if admissible && !tx.eq_spec(zero) && !tx.eq_spec(one) {
            Damped::Moved(tx, sq)
        } else {
            damp_spec(x, y, prev, g.div_spec(whole::<S>(3)), converged, (fuel - 1) as nat)
        }
    }
}

/// The root that the Newton iteration reaches from state `s` with `fuel`
/// steps still allowed, and whether it stopped by its own rule: because the
/// accuracy was met, or because a step no longer changed the estimate.
pub open spec fn newton_spec<S: Primitive>(s: Newton<S>, t: Target<S>, fuel: nat) -> (S, bool)
    decreases fuel,
{
    if fuel == 0 {
        (s.x, false)
    } else {
        match inc_beta_spec(s.x, t.p, t.q, t.ln_beta) {
            Err(_) => (s.x, false),
            Ok(v) => {
                let y = residual_spec(v, s.x, t);
                let prev = trust_spec(y, s);
                let converged = prev.le_spec(t.acu) || y.mul_spec(y).le_spec(t.acu);
                match damp_spec(s.x, y, prev, whole::<S>(1), converged, DAMPING_LIMIT as nat) {
                    Damped::Converged(tx) => (tx, true),
                    Damped::Exhausted => (s.x, false),
                    Damped::Moved(tx, sq) => if tx.eq_spec(s.x) {
                        (s.x, true)
                    } else {
                        newton_spec(Newton { x: tx, yprev: y, sq, prev }, t, (fuel - 1) as nat)
                    },
                }
            },
        }
    }
}

/// The value that [`inv_inc_beta`] computes.
pub open spec fn inv_inc_beta_spec<S: Primitive>(alpha: S, p: S, q: S, ln_beta: S) -> Result<
    S,
    Failure<S>,
> {
    if !is_shape(p) || !is_shape(q) {
        Err(Failure::Domain)
    } else if alpha.le_spec(whole::<S>(0)) {
        Ok(whole::<S>(0))
    } else if whole::<S>(1).le_spec(alpha) {
        Ok(whole::<S>(1))
    } else if !whole::<S>(0).lt_spec(alpha) {
        Err(Failure::Domain)
    } else {
        let t = target_spec(alpha, p, q, ln_beta);
        let start = Newton {
            x: first_guess_spec(t),
            yprev: whole::<S>(0),
            sq: whole::<S>(1),
            prev: whole::<S>(1),
        };
        let (x, met) = newton_spec(start, t, NEWTON_LIMIT as nat);
        let value = if t.flip {
            whole::<S>(1).sub_spec(x)
        } else {
            x
        };
        if met {
            Ok(value)
        } else {
            Err(Failure::NoConvergence(value))
        }
    }
}

fn accuracy<S: Primitive>(alpha: S, p: S) -> (acu: S)
    ensures
        deterministic::<S>() ==> acu == accuracy_spec(alpha, p),
{
    let e = S::decimal(-5, 0).div(p).div(p).sub(
        S::decimal(1, 0).div(alpha.powf(S::decimal(2, -1))),
    ).sub(S::decimal(13, 0)).truncate();
    if e > -30 {
        S::decimal(10, 0).powi(
            if e > 2147483647 {
                i32::MAX
            } else {
                e as i32
            },
        )
    } else {
        S::decimal(1, -30)
    }
}

fn target<S: Primitive>(alpha: S, p: S, q: S, ln_beta: S) -> (t: Target<S>)
    ensures
        deterministic::<S>() ==> t == target_spec(alpha, p, q, ln_beta),
{
    if S::decimal(5, -1).lt(alpha) {
        let mirrored = S::decimal(1, 0).sub(alpha);
        Target { flip: true, alpha: mirrored, p: q, q: p, ln_beta, acu: accuracy(mirrored, q) }
    } else {
        Target { flip: false, alpha, p, q, ln_beta, acu: accuracy(alpha, p) }
    }
}

fn hastings<S: Primitive>(alpha: S) -> (y: S)
    ensures
        deterministic::<S>() ==> y == hastings_spec(alpha),
{
    let x = alpha.mul(alpha).ln().neg().sqrt();
    let above = S::decimal(230753, -5).add(S::decimal(27061, -5).mul(x));
    let below = S::decimal(1, 0).add(
        S::decimal(99229, -5).add(S::decimal(4481, -5).mul(x)).mul(x),
    );
    x.sub(above.div(below))
}

fn carter<S: Primitive>(y: S, p: S, q: S) -> (x: S)
    ensures
        deterministic::<S>() ==> x == carter_spec(y, p, q),
{
    let one = S::decimal(1, 0);
    let two = S::decimal(2, 0);
    let three = S::decimal(3, 0);
    let six = S::decimal(6, 0);
    let r = y.mul(y).sub(three).div(six);
    let s = one.div(two.mul(p).sub(one));
    let t = one.div(two.mul(q).sub(one));
    let h = two.div(s.add(t));
    let w = y.mul(h.add(r).sqrt()).div(h).sub(
        t.sub(s).mul(r.add(S::decimal(5, 0).div(six)).sub(two.div(three.mul(h)))),
    );
    p.div(p.add(q.mul(two.mul(w).exp())))
}

fn scheffe_tukey<S: Primitive>(y: S, t: &Target<S>) -> (x: S)
    ensures
        deterministic::<S>() ==> x == scheffe_tukey_spec(y, *t),
{
    let one = S::decimal(1, 0);
    let two = S::decimal(2, 0);
    let ninth = one.div(S::decimal(9, 0).mul(t.q));
    let chi = two.mul(t.q).mul(one.sub(ninth).add(y.mul(ninth.sqrt())).powf(S::decimal(3, 0)));
    if chi.le(S::decimal(0, 0)) {
        one.sub(one.sub(t.alpha).mul(t.q).ln().add(t.ln_beta).div(t.q).exp())
    } else {
        let ratio = two.mul(two.mul(t.p).add(t.q).sub(one)).div(chi);
        if ratio.le(one) {
            t.alpha.mul(t.p).ln().add(t.ln_beta).div(t.p).exp()
        } else {
            one.sub(two.div(ratio.add(one)))
        }
    }
}

fn first_guess<S: Primitive>(t: &Target<S>) -> (x: S)
    ensures
        deterministic::<S>() ==> x == first_guess_spec(*t),
{
    let one = S::decimal(1, 0);
    let low = S::decimal(1, -4);
    let high = S::decimal(9999, -4);
    let y = hastings(t.alpha);
    let x = if one.lt(t.p) && one.lt(t.q) {
        carter(y, t.p, t.q)
    } else {
        scheffe_tukey(y, t)
    };
    if x.lt(low) {
        low
    } else if high.lt(x) {
        high
    } else {
        x
    }
}

fn residual<S: Primitive>(v: S, x: S, t: &Target<S>) -> (y: S)
    ensures
        deterministic::<S>() ==> y == residual_spec(v, x, *t),
{
    let one = S::decimal(1, 0);
    v.sub(t.alpha).mul(
        t.ln_beta.add(one.sub(t.p).mul(x.ln())).add(one.sub(t.q).mul(one.sub(x).ln())).exp(),
    )
}

fn trust<S: Primitive>(y: S, s: &Newton<S>) -> (prev: S)
    ensures
        deterministic::<S>() ==> prev == trust_spec(y, *s),
{
    let fpu = S::decimal(1, -30);
    if y.mul(s.yprev).le(S::decimal(0, 0)) {
        if fpu.lt(s.sq) {
            s.sq
        } else {
            fpu
        }
    } else {
        s.prev
    }
}

fn damp<S: Primitive>(x: S, y: S, prev: S, converged: bool) -> (d: Damped<S>)
    ensures
        deterministic::<S>() ==> d == damp_spec(
            x,
            y,
            prev,
            whole::<S>(1),
            converged,
            DAMPING_LIMIT as nat,
        ),
{
    let zero = S::decimal(0, 0);
    let one = S::decimal(1, 0);
    let three = S::decimal(3, 0);
    let mut g = one;
    let mut left: u64 = DAMPING_LIMIT;
    while left > 0
        invariant
            deterministic::<S>() ==> zero == whole::<S>(0) && one == whole::<S>(1) && three
                == whole::<S>(3),
            deterministic::<S>() ==> damp_spec(x, y, prev, g, converged, left as nat) == damp_spec(
                x,
                y,
                prev,
                whole::<S>(1),
                converged,
                DAMPING_LIMIT as nat,
            ),
        decreases left,
    {
        let adj = g.mul(y);
        let sq = adj.mul(adj);
        let tx = x.sub(adj);
        let admissible = sq.lt(prev) && zero.le(tx) && tx.le(one);
        if admissible && converged {
            return Damped::Converged(tx);
        }
        if admissible && !tx.eq(zero) && !tx.eq(one) {
            return Damped::Moved(tx, sq);
        }
        g = g.div(three);
        left = left - 1;
    }
    Damped::Exhausted
}

fn newton<S: Primitive>(start: Newton<S>, t: &Target<S>) -> (r: (S, bool))
    ensures
        deterministic::<S>() ==> r == newton_spec(start, *t, NEWTON_LIMIT as nat),
{
    let mut s = start;
    let mut left: u64 = NEWTON_LIMIT;
    while left > 0
        invariant
            deterministic::<S>() ==> newton_spec(s, *t, left as nat) == newton_spec(
                start,
                *t,
                NEWTON_LIMIT as nat,
            ),
        decreases left,
    {
        let v = match inc_beta(s.x, t.p, t.q, t.ln_beta) {
            Ok(v) => v,
            Err(_) => {
                return (s.x, false);
            },
        };
        let y = residual(v, s.x, t);
        let prev = trust(y, &s);
        let converged = prev.le(t.acu) || y.mul(y).le(t.acu);
        match damp(s.x, y, prev, converged) {
            Damped::Converged(tx) => {
                return (tx, true);
            },
            Damped::Exhausted => {
                return (s.x, false);
            },
            Damped::Moved(tx, sq) => {
                if tx.eq(s.x) {
                    return (s.x, true);
                }
                s = Newton { x: tx, yprev: y, sq, prev };
                left = left - 1;
            },
        }
    }
    (s.x, false)
}

/// Compute the inverse of the regularized incomplete beta function: the `x`
/// with `I_x(p, q) = alpha`.
///
/// The shape parameters must be positive, else the result is
/// [`Failure::Domain`]. A level at or below zero gives zero and one at or
/// above one gives one, without any computation; a level that compares with
/// neither bound is outside the domain. In between, a level above one half
/// is mirrored, an analytic approximation gives a first estimate, and
/// Newton's method refines it with steps that are shortened until they stay
/// inside the unit interval and inside the trust region. Should that take
/// more than [`NEWTON_LIMIT`] steps, or one step more than
/// [`DAMPING_LIMIT`] shortenings, or should the forward function fail, the
/// estimate reached comes back inside [`Failure::NoConvergence`].
pub fn inv_inc_beta<S: Primitive>(alpha: S, p: S, q: S, ln_beta: S) -> (r: Result<S, Failure<S>>)
    ensures
        deterministic::<S>() ==> r == inv_inc_beta_spec(alpha, p, q, ln_beta),
{
    let zero = S::decimal(0, 0);
    let one = S::decimal(1, 0);
    if !zero.lt(p) || !zero.lt(q) {
        return Err(Failure::Domain);
    }
    if alpha.le(zero) {
        return Ok(zero);
    }
    if one.le(alpha) {
        return Ok(one);
    }
    if !zero.lt(alpha) {
        return Err(Failure::Domain);
    }
    let t = target(alpha, p, q, ln_beta);
    let start = Newton { x: first_guess(&t), yprev: zero, sq: one, prev: one };
    let (x, met) = newton(start, &t);
    let value = if t.flip {
        one.sub(x)
    } else {
        x
    };
    if met {
        Ok(value)
    } else {
        Err(Failure::NoConvergence(value))
    }
}

} // verus!

//! Laws that the special functions obey for every scalar.
//!
//! Each law is stated over the values that the functions are specified to
//! return. Where a law needs the scalar's arithmetic to behave in some way,
//! it says so in its hypotheses: nothing is taken for granted about a scalar.
use crate::beta::{
    add_term_spec, advance_spec, damp_spec, first_guess_spec, inc_beta_spec, inv_inc_beta_spec,
    ln_beta_spec, newton_spec, residual_spec, setup_spec, start_spec, target_spec, trust_spec,
    Damped, Newton, Series, Setup, Target, DAMPING_LIMIT, NEWTON_LIMIT,
};
use crate::failure::Failure;
use crate::gamma::inc_gamma_spec;
use crate::primitive::{is_shape, whole, Primitive, PrimitiveSpec};
use vstd::prelude::*;

verus! {

/// Zero and one compare with themselves and with each other as numbers do.
pub open spec fn units_in_order<S: Primitive>() -> bool {
    &&& whole::<S>(0).le_spec(whole::<S>(0))
    &&& whole::<S>(0).eq_spec(whole::<S>(0))
    &&& whole::<S>(1).le_spec(whole::<S>(1))
    &&& !whole::<S>(1).le_spec(whole::<S>(0))
}

/// Whether `x` lies strictly between zero and one.
pub open spec fn strictly_inside<S: Primitive>(x: S) -> bool {
    &&& whole::<S>(0).lt_spec(x)
    &&& !x.le_spec(whole::<S>(0))
    &&& !whole::<S>(1).le_spec(x)
}

/// One minus the value inside `r`, whichever way `r` came out.
pub open spec fn complement<S: Primitive>(r: Result<S, Failure<S>>) -> Result<S, Failure<S>> {
    match r {
        Ok(v) => Ok(whole::<S>(1).sub_spec(v)),
        Err(Failure::NoConvergence(v)) => Err(Failure::NoConvergence(whole::<S>(1).sub_spec(v))),
        Err(Failure::Domain) => Err(Failure::Domain),
    }
}

/// The incomplete beta function is zero at or below zero and one at or above
/// one, whatever the positive shape parameters.
pub proof fn inc_beta_saturates<S: Primitive>(x: S, p: S, q: S, ln_beta: S)
    requires
        is_shape(p),
        is_shape(q),
    ensures
        x.le_spec(whole::<S>(0)) ==> inc_beta_spec(x, p, q, ln_beta) == Ok::<S, Failure<S>>(
            whole::<S>(0),
        ),
        !x.le_spec(whole::<S>(0)) && whole::<S>(1).le_spec(x) ==> inc_beta_spec(x, p, q, ln_beta)
            == Ok::<S, Failure<S>>(whole::<S>(1)),
{
}

/// The inverse of the incomplete beta function is zero at or below level
/// zero and one at or above level one, whatever the positive shape
/// parameters.
pub proof fn inv_inc_beta_saturates<S: Primitive>(alpha: S, p: S, q: S, ln_beta: S)
    requires
        is_shape(p),
        is_shape(q),
    ensures
        alpha.le_spec(whole::<S>(0)) ==> inv_inc_beta_spec(alpha, p, q, ln_beta) == Ok::<
            S,
            Failure<S>,
        >(whole::<S>(0)),
        !alpha.le_spec(whole::<S>(0)) && whole::<S>(1).le_spec(alpha) ==> inv_inc_beta_spec(
            alpha,
            p,
            q,
            ln_beta,
        ) == Ok::<S, Failure<S>>(whole::<S>(1)),
{
}

/// At the ends of the unit interval the incomplete beta function and its
/// inverse return the ends themselves, and the incomplete gamma function is
/// zero at zero: exactly, for all positive shape parameters.
pub proof fn boundaries_are_exact<S: Primitive>(p: S, q: S, ln_beta: S)
    requires
        units_in_order::<S>(),
        is_shape(p),
        is_shape(q),
    ensures
        inc_beta_spec(whole::<S>(0), p, q, ln_beta) == Ok::<S, Failure<S>>(whole::<S>(0)),
        inc_beta_spec(whole::<S>(1), p, q, ln_beta) == Ok::<S, Failure<S>>(whole::<S>(1)),
        inv_inc_beta_spec(whole::<S>(0), p, q, ln_beta) == Ok::<S, Failure<S>>(whole::<S>(0)),
        inv_inc_beta_spec(whole::<S>(1), p, q, ln_beta) == Ok::<S, Failure<S>>(whole::<S>(1)),
        inc_gamma_spec(whole::<S>(0), p) == Ok::<S, Failure<S>>(whole::<S>(0)),
{
}

/// The logarithm of the beta function does not depend on the order of its
/// arguments, provided that the two sums it forms do not.
pub proof fn ln_beta_is_symmetric<S: Primitive>(x: S, y: S)
    requires
        x.add_spec(y) == y.add_spec(x),
        x.lgamma_spec().0.add_spec(y.lgamma_spec().0) == y.lgamma_spec().0.add_spec(
            x.lgamma_spec().0,
        ),
    ensures
        ln_beta_spec(x, y) == ln_beta_spec(y, x),
{
}

/// Reflection: where the incomplete beta function at `x` sums the
/// complementary tail, and at `1 - x` with the shape parameters exchanged
/// sums its own, the first is exactly one minus the second. Both then sum
/// the same series, which takes that the scalar gives `p + q = q + p` and
/// `1 - (1 - x) = x`.
pub proof fn inc_beta_reflects<S: Primitive>(x: S, p: S, q: S, ln_beta: S)
    requires
        is_shape(p),
        is_shape(q),
        strictly_inside(x),
        strictly_inside(whole::<S>(1).sub_spec(x)),
        p.add_spec(q) == q.add_spec(p),
        whole::<S>(1).sub_spec(whole::<S>(1).sub_spec(x)) == x,
        setup_spec(x, p, q).flip,
        !setup_spec(whole::<S>(1).sub_spec(x), q, p).flip,
    ensures
        inc_beta_spec(x, p, q, ln_beta) == complement(
            inc_beta_spec(whole::<S>(1).sub_spec(x), q, p, ln_beta),
        ),
{
}

/// The Newton iteration does not look at whether the equation was mirrored:
/// two equations with the same level, shape parameters and accuracy have the
/// same root.
pub proof fn newton_ignores_flip<S: Primitive>(s: Newton<S>, t: Target<S>, u: Target<S>, fuel: nat)
    requires
        t.alpha == u.alpha,
        t.p == u.p,
        t.q == u.q,
        t.ln_beta == u.ln_beta,
        t.acu == u.acu,
    ensures
        newton_spec(s, t, fuel) == newton_spec(s, u, fuel),
    decreases fuel,
{
    if fuel > 0 {
        if let Ok(v) = inc_beta_spec(s.x, t.p, t.q, t.ln_beta) {
            let y = residual_spec(v, s.x, t);
            assert(y == residual_spec(v, s.x, u));
            let prev = trust_spec(y, s);
            let converged = prev.le_spec(t.acu) || y.mul_spec(y).le_spec(t.acu);
            let damped = damp_spec(s.x, y, prev, whole::<S>(1), converged, DAMPING_LIMIT as nat);
            if let Damped::Moved(tx, sq) = damped {
                if !tx.eq_spec(s.x) {
                    newton_ignores_flip(Newton { x: tx, yprev: y, sq, prev }, t, u, (fuel - 1) as nat);
                }
            }
        }
    }
}

/// Mirroring: for a level above one half whose mirror image is not, the
/// inverse of the incomplete beta function is exactly one minus the inverse
/// at the mirrored level with the shape parameters exchanged.
pub proof fn inv_inc_beta_mirrors<S: Primitive>(alpha: S, p: S, q: S, ln_beta: S)
    requires
        is_shape(p),
        is_shape(q),
        strictly_inside(alpha),
        strictly_inside(whole::<S>(1).sub_spec(alpha)),
        S::decimal_spec(5, -1).lt_spec(alpha),
        !S::decimal_spec(5, -1).lt_spec(whole::<S>(1).sub_spec(alpha)),
    ensures
        inv_inc_beta_spec(alpha, p, q, ln_beta) == complement(
            inv_inc_beta_spec(whole::<S>(1).sub_spec(alpha), q, p, ln_beta),
        ),
{
    let mirrored = whole::<S>(1).sub_spec(alpha);
    let t = target_spec(alpha, p, q, ln_beta);
    let u = target_spec(mirrored, q, p, ln_beta);
    assert(first_guess_spec(t) == first_guess_spec(u));
    let start = Newton {
        x: first_guess_spec(t),
        yprev: whole::<S>(0),
        sq: whole::<S>(1),
        prev: whole::<S>(1),
    };
    newton_ignores_flip(start, t, u, NEWTON_LIMIT as nat);
}

/// The incomplete gamma function is one beyond `1e8`, for every positive
/// shape parameter.
pub proof fn inc_gamma_saturates<S: Primitive>(x: S, p: S)
    requires
        is_shape(p),
        whole::<S>(0).le_spec(x),
        !x.eq_spec(whole::<S>(0)),
        S::decimal_spec(1, 8).lt_spec(x),
    ensures
        inc_gamma_spec(x, p) == Ok::<S, Failure<S>>(whole::<S>(1)),
{
}

/// The state of Soper's series after `k` rounds of adding a term and
/// advancing, wherever the stopping rule would have ended it.
pub open spec fn rounds_spec<S: Primitive>(s: Series<S>, p: S, q: S, pbase: S, k: nat) -> Series<S>
    decreases k,
{
    if k == 0 {
        s
    } else {
        advance_spec(add_term_spec(rounds_spec(s, p, q, pbase, (k - 1) as nat), p), q, pbase)
    }
}

/// The series starts with a count of reductions "by parts" that is not
/// negative.
pub proof fn start_counts_parts<S: Primitive>(c: Setup<S>)
    ensures
        start_spec(c).ns >= 0,
{
}

/// Soper's schedule: a series that starts with `n` reductions "by parts"
/// makes exactly those, one in each round, and raises `p` in every round
/// after them. While parts are left the shifted parameter sum stays as it
/// is, and the ratio changes once, to `pbase`, with the last part.
pub proof fn parts_then_raising<S: Primitive>(s: Series<S>, p: S, q: S, pbase: S, k: nat)
    requires
        s.ns >= 0,
    ensures
        rounds_spec(s, p, q, pbase, k).ns == if k <= s.ns {
            s.ns - k
        } else {
            0
        },
        k <= s.ns ==> rounds_spec(s, p, q, pbase, k).psq == s.psq,
        k < s.ns ==> rounds_spec(s, p, q, pbase, k).rx == s.rx,
        0 < s.ns <= k ==> rounds_spec(s, p, q, pbase, k).rx == pbase,
        k > s.ns ==> rounds_spec(s, p, q, pbase, k).temp == rounds_spec(
            s,
            p,
            q,
            pbase,
            (k - 1) as nat,
        ).psq,
    decreases k,
{
    if k > 0 {
        parts_then_raising(s, p, q, pbase, (k - 1) as nat);
    }
}

} // verus!

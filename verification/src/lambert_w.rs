//! The Lambert W function, as an interface.
use vstd::prelude::*;

verus! {

/// Lambert W functions.
pub trait LambertW: Sized {
    /// Compute the real-valued part of the principal branch of the Lambert W
    /// function: the inverse of `f(w) = w e^w` for `w >= -1`.
    fn lambert_w0(self) -> Self;

    /// Compute the real-valued part of the secondary branch of the Lambert W
    /// function: the inverse of `f(w) = w e^w` for `w < -1`.
    fn lambert_wm1(self) -> Self;
}

} // verus!

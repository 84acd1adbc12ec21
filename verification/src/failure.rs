//! The ways in which an evaluation can fail.
use vstd::prelude::*;

verus! {

/// Why a function did not return a value.
#[derive(Debug, PartialEq)]
pub enum Failure<S> {
    /// An argument lies outside the domain of the function.
    Domain,
    /// The iteration used up its allowance of steps before it met its
    /// stopping rule. The payload is the estimate it had reached.
    NoConvergence(S),
}

} // verus!

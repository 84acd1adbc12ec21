//! Special functions over any scalar that supplies the elementary operations.
//!
//! The functions of this crate are the incomplete beta function and its
//! inverse, the incomplete gamma function, the digamma function and the
//! inverse error function. They are iterations: series, continued fractions
//! and a damped Newton method, each with a stopping rule and a bound on its
//! steps.
//!
//! None of them names a machine number. A scalar is any type with the
//! operations of [`Primitive`]; the arithmetic and the elementary functions
//! are that type's business. What is proved here is what the functions do
//! with those operations: every function terminates, and it returns exactly
//! the value that its `_spec` function describes, provided that the scalar's
//! operations are functions of their operands
//! ([`primitive::deterministic`]). The module [`laws`] holds what follows
//! for every such scalar.
pub mod beta;
pub mod error;
pub mod failure;
pub mod gamma;
pub mod lambert_w;
pub mod laws;
pub mod omega;
pub mod primitive;

pub use crate::beta::{inc_beta, inv_inc_beta, ln_beta};
pub use crate::error::Error;
pub use crate::failure::Failure;
pub use crate::gamma::{digamma, inc_gamma, ln_gamma};
pub use crate::lambert_w::LambertW;
pub use crate::omega::Omega;
pub use crate::primitive::Primitive;

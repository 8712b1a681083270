//! Two-party arithmetic over additively shared elements of the scalar field
//! of BLS12-377.
//!
//! A value is either public (both parties hold it) or shared (each party
//! holds one summand). Linear operations are local. Products and inverses of
//! shared values consume correlated randomness and take rounds on the
//! channel; those are written as resumable steps, so that the caller owns the
//! socket and this crate owns every decision.

pub mod algebra;
pub mod beaver;
pub mod bytes;
pub mod channel;
pub mod circuit;
pub mod curve;
pub mod dealing;
pub mod driver;
pub mod error;
pub mod field;
pub mod groth;
pub mod laws;
pub mod marlin;
pub mod product;
pub mod protocol;
pub mod share;
pub mod squarings;
pub mod wire;

//! Verified core of the `wyvern` interpolation library.
//!
//! The library works on the bit patterns of IEEE-754 binary64 samples, so that
//! every decision that depends only on how samples are ordered (bracketing,
//! window placement, median selection, kernel supports, validation, plan
//! caching) is proved here, while the floating-point arithmetic itself is
//! carried out by the caller.
pub mod ieee;
pub mod plan;
pub mod window;
pub mod median;
pub mod cache;
pub mod kinds;
pub mod support;

//! A deterministic harness around small computational kernels: bounded
//! binary search, three in-place sorts, a minimum-coin-count dynamic
//! program, and in-place sequence reversal.
//!
//! Each kernel family comes in two implementation classes. The *checked*
//! class validates every index and every subtraction, so an out-of-range
//! access is structurally unreachable and the function is total on its
//! stated domain. The *unchecked* class trusts the caller-supplied size
//! and bounds; where the trusted arithmetic would go wrong it reports a
//! [`errors::Fault`] instead of producing an answer, so the fault surface
//! stays reachable and precisely described. On valid input the two
//! classes agree.
//!
//! The [`harness`] module is the driver: it validates the argument count,
//! decodes the argument vector into a typed buffer, applies the chosen
//! kernel a fixed number of repetitions, and hands back the final buffer
//! or scalar result.

pub mod coins;
pub mod errors;
pub mod harness;
pub mod parse;
pub mod reverse;
pub mod search;
pub mod sort;

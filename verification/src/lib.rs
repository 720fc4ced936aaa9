//! Symbolic-regression core: expression trees over a fixed-point scalar
//! domain, a parser and printer for them, a rewrite-to-fixpoint simplifier,
//! a randomized expression generator, and a derivative-free pattern-search
//! fit engine, together with the search driver's decision logic.
//!
//! Scalar values are held in fixed point: an `i64` raw count of millionths
//! (see `fx`). Everything that only needs exact arithmetic on those values
//! lives here and is verified; the floating-point residual evaluation is
//! supplied from outside, event by event, to the fit engine.

pub mod driver;
pub mod expr;
pub mod fit;
pub mod fx;
pub mod generate;
pub mod params;
pub mod parser;
pub mod printer;
pub mod random;
pub mod rename;
pub mod simplify;


//! Procedural "random art": a randomized, depth-bounded expression tree is
//! built once per image channel and then evaluated at every pixel coordinate.
//! This crate holds the verified core: tree construction with its structural
//! invariants, the random-source interface it draws from, and the pixel
//! generator's policy for rescaling an evaluation result to a channel byte.

pub mod expression;
pub mod generators;
pub mod random;

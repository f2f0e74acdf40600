//! Bit-vector expressions with a precise semantics.
//!
//! Expressions are built by a [`DContext`](expr::DContext) and combined by
//! the methods of [`DExpr`](expr::DExpr). Operations on constant operands are
//! folded to constants; other operations build an expression tree. Every
//! expression denotes, for each assignment of its symbols, a natural number
//! below `2^width` (see `DExpr::eval`), and every method states the value of
//! its result in terms of the values of its operands.
pub mod bits;
pub mod expr;
pub mod solver;
pub mod array;
pub mod bounds;

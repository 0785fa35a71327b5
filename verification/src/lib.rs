//! A tiny calculator over textual S-expressions.
//!
//! The library parses expressions such as `(add 1 (mult 2 3))` into an
//! [`Expr`] tree and reduces that tree to a single `i32`.  Both directions
//! carry full functional contracts: [`parse`] is proved to agree with a
//! mathematical recursive-descent parser over the input's characters, and
//! [`eval`] with a mathematical left-to-right fold over the tree.

pub mod evaluator;
pub mod expr;
pub mod laws;
pub mod parser;
pub mod scan;

pub use evaluator::eval;
pub use evaluator::EvalError;
pub use expr::Expr;
pub use parser::parse;
pub use parser::ParseError;

//! The evaluation kernel of a small symbolic-computation engine.
//!
//! Expressions are trees. Their leaves are atoms: numbers, text literals and
//! symbols. Their inner nodes are sums, differences, lists and function
//! definitions. The kernel folds sums and differences over their leaves, and
//! applies function definitions by putting arguments in the places of their
//! parameters.
//!
//! Every function here is verified against a contract over a mathematical
//! view of its data: integers, sequences of characters, and trees over
//! sequences. Decimal arithmetic is the `decimal` crate's; the contracts of
//! `decimal_bridge` say what is taken from it on trust.
//!
//! - `text`: decimal integer literals and substring search.
//! - `parsing`: the recognisers for numeric, text and symbol literals.
//! - `decimal_bridge`: the boundary to the `decimal` crate.
//! - `numeric`: the numeric tower and its arithmetic.
//! - `atom`: atoms and their classification from text.
//! - `expression`: expression trees, their text, substitution and equality.
//! - `list`: list nodes.
//! - `arithmetic`: sums and differences, and the evaluator that folds them.
//! - `function`: function definitions and their evaluation.

pub mod arithmetic;
pub mod atom;
pub mod decimal_bridge;
pub mod expression;
pub mod function;
pub mod list;
pub mod numeric;
pub mod parsing;
pub mod text;

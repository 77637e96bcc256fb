//! An evaluator for the untyped lambda calculus over de Bruijn indices.
pub mod term;
pub mod reduction;
pub mod combinators;
pub mod pairs;
pub mod parser;

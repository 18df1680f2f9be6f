//! A small expression language for boolean filter predicates over named
//! variables, such as `name == 'John'` or `age >= 18`.
//!
//! A filter is parsed into a tree ([`parse`]), and the tree is evaluated
//! against the variables that a host supplies through a
//! [`ast::VariableLookup`] ([`ast::Expr::evaluate`]).  Both may fail, with an
//! [`Error`]; neither panics.
//!
//! Every executable function carries a contract over the views of the types,
//! and Verus proves it:
//!
//! - [`ast`] holds the data model and its views;
//! - [`grammar`] is the syntax, as spec functions, and [`parsing`] the parser
//!   that is proved to follow it;
//! - [`eval`] is the meaning of the operators and of evaluation;
//! - [`unparse`] writes trees back as text, and [`dump`] writes them line by
//!   line for reading;
//! - [`laws`] proves what holds of these together.

pub mod ast;
pub mod convert;
pub mod dump;
pub mod error;
pub mod eval;
pub mod grammar;
pub mod laws;
pub mod parsing;
pub mod text;
pub mod unparse;

pub use crate::error::{Error, ParseFailure};
pub use crate::parsing::parse;

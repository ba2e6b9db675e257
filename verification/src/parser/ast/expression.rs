//! Expressions of the language.
pub use crate::parser::ast::binary_expression::{ExprView, Expression};

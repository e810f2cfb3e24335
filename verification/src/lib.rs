//! A static type checker for a small expression-oriented language.
//!
//! The language has three scalar types (`void`, `bool`, `float`) and
//! fixed-arity tuples of them.  A program is a set of function
//! declarations; the checker infers a type for every expression in every
//! body and reports the first violation of the typing rules.

pub mod ast;
pub mod validator;

pub use ast::{BinOp, CmpOp, Declaration, Expr};
pub use validator::{validate_program, Type, TypeError};

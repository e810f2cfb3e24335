//! The abstract syntax that the checker consumes.
//!
//! These shapes are produced by a frontend (lexer/parser); the checker
//! only reads them.  Every scalar literal and identifier is a `float`
//! except for boolean literals.

use vstd::prelude::*;

verus! {

/// An arithmetic operator.  The checker does not distinguish operators:
/// any of them accepts any pair of equally typed operands.
#[derive(Debug, Clone, Copy, PartialEq, Eq, Structural)]
pub enum BinOp {
    Add,
    Sub,
    Mul,
    Div,
}

/// A comparison operator.  A comparison always has type `bool`.
#[derive(Debug, Clone, Copy, PartialEq, Eq, Structural)]
pub enum CmpOp {
    Eq,
    Ne,
    Lt,
    Le,
    Gt,
    Ge,
}

/// An expression of the source language.
#[derive(Debug, PartialEq)]
pub enum Expr {
    /// A numeric literal, kept in its source spelling.
    Literal(String),
    /// A reference to a variable.
    Identifier(String),
    /// A boolean literal.
    Bool(bool),
    /// The address of a global datum.
    GlobalDataAddr(String),
    /// An arithmetic operation on two operands.
    Binop(BinOp, Box<Expr>, Box<Expr>),
    /// A comparison of two operands.
    Compare(CmpOp, Box<Expr>, Box<Expr>),
    /// A one-armed conditional: condition and body.
    IfThen(Box<Expr>, Vec<Expr>),
    /// A two-armed conditional: condition, then-body, else-body.
    IfElse(Box<Expr>, Vec<Expr>, Vec<Expr>),
    /// An assignment of one or more values to one or more targets.
    Assign(Vec<String>, Vec<Expr>),
    /// A compound assignment such as `x += e`.
    AssignOp(BinOp, String, Box<Expr>),
    /// A loop: condition and body.
    WhileLoop(Box<Expr>, Vec<Expr>),
    /// A sequence of expressions valued at its last member.
    Block(Vec<Expr>),
    /// A call of a declared function.
    Call(String, Vec<Expr>),
    /// A parenthesised expression.
    Parentheses(Box<Expr>),
}

/// A function declaration: its name, parameter names, return slot
/// names, and body.  The checker reads declarations and never writes
/// them.
#[derive(Debug, PartialEq)]
pub struct Declaration {
    pub name: String,
    pub params: Vec<String>,
    pub returns: Vec<String>,
    pub body: Vec<Expr>,
}

} // verus!

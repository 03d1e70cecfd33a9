//! The payload structs of the abstract-syntax-tree node variants.

use vstd::prelude::*;

use crate::ast::AST;

verus! {

/// An ordered sequence of statements.
#[derive(PartialEq, Eq, Debug)]
pub struct Block {
    pub items: Vec<AST>,
}

/// A statement that evaluates an expression and discards its value.
#[derive(PartialEq, Eq, Debug)]
pub struct ExprStatement {
    pub expr: Box<AST>,
}

/// The sum of two subexpressions.
#[derive(PartialEq, Eq, Debug)]
pub struct Addition {
    pub lhs: Box<AST>,
    pub rhs: Box<AST>,
}

/// The difference of two subexpressions.
#[derive(PartialEq, Eq, Debug)]
pub struct Subtraction {
    pub lhs: Box<AST>,
    pub rhs: Box<AST>,
}

/// The product of two subexpressions.
#[derive(PartialEq, Eq, Debug)]
pub struct Multiplication {
    pub lhs: Box<AST>,
    pub rhs: Box<AST>,
}

/// The quotient of two subexpressions.
#[derive(PartialEq, Eq, Debug)]
pub struct Division {
    pub lhs: Box<AST>,
    pub rhs: Box<AST>,
}

/// A signed 64-bit integer literal.
#[derive(PartialEq, Eq, Debug)]
pub struct IntLiteral {
    pub value: i64,
}

} // verus!

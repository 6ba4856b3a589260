//! The statement tree: expression statements, print statements and variable
//! declarations.

use vstd::prelude::*;

use crate::ast::expr::{Expr, Visitor};
use crate::ast::token::Token;

verus! {

/// A statement node.
#[derive(Debug, PartialEq)]
pub enum Stmt {
    Expression(ExpressionStmt),
    Print(PrintStmt),
    Var(VarStmt),
}

impl Stmt {
    /// Double dispatch for the two statement kinds the visitor contract
    /// covers.
    pub fn accept<R, V: Visitor<R>>(&self, visitor: &mut V) -> R
        requires
            self matches Stmt::Expression(_) || self matches Stmt::Print(_),
    {
        match self {
            Stmt::Expression(stmt) => visitor.visit_expression_stmt(stmt),
            Stmt::Print(stmt) => visitor.visit_print_stmt(stmt),
            Stmt::Var(_) => vstd::pervasive::unreached(),
        }
    }
}

impl Clone for Stmt {
    fn clone(&self) -> (res: Self)
        ensures
            res == *self,
    {
        match self {
            Stmt::Expression(stmt) => Stmt::Expression(stmt.clone()),
            Stmt::Print(stmt) => Stmt::Print(stmt.clone()),
            Stmt::Var(stmt) => Stmt::Var(stmt.clone()),
        }
    }
}

impl Clone for ExpressionStmt {
    fn clone(&self) -> (res: Self)
        ensures
            res == *self,
    {
        ExpressionStmt { expression: self.expression.clone() }
    }
}

impl Clone for PrintStmt {
    fn clone(&self) -> (res: Self)
        ensures
            res == *self,
    {
        PrintStmt { expression: self.expression.clone() }
    }
}

impl Clone for VarStmt {
    fn clone(&self) -> (res: Self)
        ensures
            res == *self,
    {
        VarStmt { name: self.name.clone(), initializer: self.initializer.clone() }
    }
}

/// An expression evaluated for its effect and discarded.
#[derive(Debug, PartialEq)]
pub struct ExpressionStmt {
    pub expression: Expr,
}

impl ExpressionStmt {
    pub fn new(expression: Expr) -> (r: ExpressionStmt)
        ensures
            r.expression == expression,
    {
        ExpressionStmt { expression }
    }
}

/// A statement that prints the textual form of its expression's value.
#[derive(Debug, PartialEq)]
pub struct PrintStmt {
    pub expression: Expr,
}

impl PrintStmt {
    pub fn new(expression: Expr) -> (r: PrintStmt)
        ensures
            r.expression == expression,
    {
        PrintStmt { expression }
    }
}

/// A variable declaration: a name token and its initializer.
#[derive(Debug, PartialEq)]
pub struct VarStmt {
    pub name: Token,
    pub initializer: Expr,
}

impl VarStmt {
    pub fn new(name: Token, initializer: Expr) -> (r: VarStmt)
        ensures
            r.name == name,
            r.initializer == initializer,
    {
        VarStmt { name, initializer }
    }
}

} // verus!

//! The expression tree: a closed variant over binary, grouping, literal and
//! unary nodes, each node owning its children.

use vstd::prelude::*;

use crate::ast::number::Number;
use crate::ast::token::Token;

verus! {

/// An expression node.
#[derive(Debug, PartialEq)]
pub enum Expr {
    Binary(Box<BinaryExpr>),
    Grouping(Box<GroupingExpr>),
    Literal(Box<LiteralExpr>),
    Unary(Box<UnaryExpr>),
}

/// A literal payload: carried both by number and string tokens and by
/// literal expression nodes.
#[derive(Debug, PartialEq)]
pub enum LiteralExpr {
    Str(String),
    Num(Number),
    Bool(bool),
    Nil,
}

impl Clone for LiteralExpr {
    fn clone(&self) -> (res: Self)
        ensures
            res == *self,
    {
        match self {
            LiteralExpr::Str(s) => LiteralExpr::Str(s.clone()),
            LiteralExpr::Num(n) => LiteralExpr::Num(*n),
            LiteralExpr::Bool(b) => LiteralExpr::Bool(*b),
            LiteralExpr::Nil => LiteralExpr::Nil,
        }
    }
}

impl Clone for Expr {
    fn clone(&self) -> (res: Self)
        ensures
            res == *self,
        decreases self,
    {
        match self {
            Expr::Binary(expr) => Expr::Binary(Box::new((**expr).clone())),
            Expr::Grouping(expr) => Expr::Grouping(Box::new((**expr).clone())),
            Expr::Literal(expr) => Expr::Literal(Box::new((**expr).clone())),
            Expr::Unary(expr) => Expr::Unary(Box::new((**expr).clone())),
        }
    }
}

impl Clone for BinaryExpr {
    fn clone(&self) -> (res: Self)
        ensures
            res == *self,
        decreases self,
    {
        BinaryExpr {
            left: Box::new((*self.left).clone()),
            operator: self.operator.clone(),
            right: Box::new((*self.right).clone()),
        }
    }
}

impl Clone for GroupingExpr {
    fn clone(&self) -> (res: Self)
        ensures
            res == *self,
        decreases self,
    {
        GroupingExpr { expr: Box::new((*self.expr).clone()) }
    }
}

impl Clone for UnaryExpr {
    fn clone(&self) -> (res: Self)
        ensures
            res == *self,
        decreases self,
    {
        UnaryExpr { operator: self.operator.clone(), right: Box::new((*self.right).clone()) }
    }
}

/// A binary operation: left operand, operator token, right operand.
#[derive(Debug, PartialEq)]
pub struct BinaryExpr {
    pub left: Box<Expr>,
    pub operator: Token,
    pub right: Box<Expr>,
}

impl BinaryExpr {
    pub fn new(left: Expr, operator: Token, right: Expr) -> (r: BinaryExpr)
        ensures
            r.left == left,
            r.operator == operator,
            r.right == right,
    {
        BinaryExpr { left: Box::new(left), operator, right: Box::new(right) }
    }
}

/// A parenthesized expression.
#[derive(Debug, PartialEq)]
pub struct GroupingExpr {
    pub expr: Box<Expr>,
}

impl GroupingExpr {
    pub fn new(expr: Expr) -> (r: GroupingExpr)
        ensures
            r.expr == expr,
    {
        GroupingExpr { expr: Box::new(expr) }
    }
}

/// A prefix operation: operator token and operand.
#[derive(Debug, PartialEq)]
pub struct UnaryExpr {
    pub operator: Token,
    pub right: Box<Expr>,
}

impl UnaryExpr {
    pub fn new(operator: Token, right: Expr) -> (r: UnaryExpr)
        ensures
            r.operator == operator,
            r.right == right,
    {
        UnaryExpr { operator, right: Box::new(right) }
    }
}

/// The visitor contract over expressions and simple statements; the printer
/// implements it, and users of the crate may implement it for passes of
/// their own. What each method returns is up to the implementation, so
/// `accept` promises only to dispatch.
pub trait Visitor<R> {
    fn visit_binary_expr(&mut self, expr: &BinaryExpr) -> R;

    fn visit_grouping_expr(&mut self, expr: &GroupingExpr) -> R;

    fn visit_literal_expr(&mut self, expr: &LiteralExpr) -> R;

    fn visit_unary_expr(&mut self, expr: &UnaryExpr) -> R;

    fn visit_expression_stmt(&mut self, stmt: &crate::ast::stmt::ExpressionStmt) -> R;

    fn visit_print_stmt(&mut self, stmt: &crate::ast::stmt::PrintStmt) -> R;
}

impl Expr {
    /// Double dispatch: hand this node to the visit method of its variant.
    pub fn accept<R, V: Visitor<R>>(&self, visitor: &mut V) -> R {
        match self {
            Expr::Binary(expr) => visitor.visit_binary_expr(expr),
            Expr::Grouping(expr) => visitor.visit_grouping_expr(expr),
            Expr::Literal(expr) => visitor.visit_literal_expr(expr),
            Expr::Unary(expr) => visitor.visit_unary_expr(expr),
        }
    }

    /// Every number literal in the tree is well-formed.
    pub open spec fn wf(self) -> bool
        decreases self,
    {
        match self {
            Expr::Binary(b) => b.left.wf() && b.right.wf(),
            Expr::Grouping(g) => g.expr.wf(),
            Expr::Literal(l) => *l matches LiteralExpr::Num(n) ==> n.wf(),
            Expr::Unary(u) => u.right.wf(),
        }
    }
}

} // verus!

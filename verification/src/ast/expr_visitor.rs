//! A visitor contract restricted to expression nodes.

use vstd::prelude::*;

use crate::ast::expr::{BinaryExpr, GroupingExpr, LiteralExpr, UnaryExpr};

verus! {

/// The expression-only visitor contract; users of the crate may implement
/// it for passes of their own.
pub trait ExprVisitor<R> {
    fn visit_binary_expr(&mut self, expr: &BinaryExpr) -> R;

    fn visit_grouping_expr(&mut self, expr: &GroupingExpr) -> R;

    fn visit_literal_expr(&mut self, expr: &LiteralExpr) -> R;

    fn visit_unary_expr(&mut self, expr: &UnaryExpr) -> R;
}

} // verus!

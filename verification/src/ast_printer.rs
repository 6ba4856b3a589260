//! A standalone expression printer with the same parenthesized prefix
//! output as the one under the syntax tree module.

use vstd::prelude::*;

use crate::ast::expr::{BinaryExpr, Expr, GroupingExpr, LiteralExpr, UnaryExpr};
use crate::ast::printer::{literal_text, print_expr};

verus! {

/// An expression printer; see [`print_expr`] for the text it produces.
pub struct AstPrinter;

impl AstPrinter {
    /// Render a whole expression tree.
    pub fn print(&mut self, expr: &Expr) -> (r: String)
        requires
            expr.wf(),
        ensures
            r@ == print_expr(*expr),
        decreases *expr,
    {
        match expr {
            Expr::Binary(b) => self.visit_binary_expr(b),
            Expr::Grouping(g) => self.visit_grouping_expr(g),
            Expr::Literal(l) => self.visit_literal_expr(l),
            Expr::Unary(u) => self.visit_unary_expr(u),
        }
    }

    /// Render `(lexeme left right)`.
    pub fn visit_binary_expr(&mut self, expr: &BinaryExpr) -> (r: String)
        requires
            expr.left.wf(),
            expr.right.wf(),
        ensures
            r@ == "("@ + expr.operator.lexeme@ + " "@ + print_expr(*expr.left) + " "@
                + print_expr(*expr.right) + ")"@,
        decreases *expr,
    {
        let mut out = String::from_str("(");
        out.append(expr.operator.lexeme.as_str());
        out.append(" ");
        let left = self.print(&expr.left);
        out.append(left.as_str());
        out.append(" ");
        let right = self.print(&expr.right);
        out.append(right.as_str());
        out.append(")");
        out
    }

    /// Render `(group inner)`.
    pub fn visit_grouping_expr(&mut self, expr: &GroupingExpr) -> (r: String)
        requires
            expr.expr.wf(),
        ensures
            r@ == "(group "@ + print_expr(*expr.expr) + ")"@,
        decreases *expr,
    {
        let mut out = String::from_str("(group ");
        let inner = self.print(&expr.expr);
        out.append(inner.as_str());
        out.append(")");
        out
    }

    /// Render a literal's own text.
    pub fn visit_literal_expr(&mut self, expr: &LiteralExpr) -> (r: String)
        requires
            *expr matches LiteralExpr::Num(n) ==> n.wf(),
        ensures
            r@ == literal_text(*expr),
    {
        match expr {
            LiteralExpr::Str(s) => s.clone(),
            LiteralExpr::Num(n) => n.display_string(),
            LiteralExpr::Bool(b) => {
                if *b {
                    String::from_str("true")
                } else {
                    String::from_str("false")
                }
            },
            LiteralExpr::Nil => String::from_str("nil"),
        }
    }

    /// Render `(lexeme operand)`.
    pub fn visit_unary_expr(&mut self, expr: &UnaryExpr) -> (r: String)
        requires
            expr.right.wf(),
        ensures
            r@ == "("@ + expr.operator.lexeme@ + " "@ + print_expr(*expr.right) + ")"@,
        decreases *expr,
    {
        let mut out = String::from_str("(");
        out.append(expr.operator.lexeme.as_str());
        out.append(" ");
        let right = self.print(&expr.right);
        out.append(right.as_str());
        out.append(")");
        out
    }
}

} // verus!

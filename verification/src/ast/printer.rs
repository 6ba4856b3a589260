//! A printer that renders an expression tree in fully parenthesized
//! prefix form, one pair of parentheses per operator node.

use vstd::prelude::*;

use crate::ast::expr::{BinaryExpr, Expr, GroupingExpr, LiteralExpr, UnaryExpr};
use crate::ast::number::render_spec;

verus! {

/// The parenthesized prefix text of an expression: each binary or unary
/// node is `(lexeme operands...)`, a grouping is `(group inner)`, and a
/// literal is its own text.
pub open spec fn print_expr(e: Expr) -> Seq<char>
    recommends
        e.wf(),
    decreases e,
{
    match e {
        Expr::Binary(b) => "("@ + b.operator.lexeme@ + " "@ + print_expr(*b.left) + " "@
            + print_expr(*b.right) + ")"@,
        Expr::Grouping(g) => "(group "@ + print_expr(*g.expr) + ")"@,
        Expr::Literal(l) => literal_text(*l),
        Expr::Unary(u) => "("@ + u.operator.lexeme@ + " "@ + print_expr(*u.right) + ")"@,
    }
}

/// The text of a literal: a string's raw contents, a number's decimal
/// text, `true`/`false`, or `nil`.
pub open spec fn literal_text(l: LiteralExpr) -> Seq<char>
    recommends
        l matches LiteralExpr::Num(n) ==> n.wf(),
{
    match l {
        LiteralExpr::Str(s) => s@,
        LiteralExpr::Num(n) => render_spec(n, false),
        LiteralExpr::Bool(b) => if b {
            "true"@
        } else {
            "false"@
        },
        LiteralExpr::Nil => "nil"@,
    }
}

/// The expression printer. It holds no state: each call renders the tree
/// it is handed.
pub struct Printer;

impl Printer {
    /// Render a whole expression tree.
    pub fn print(&mut self, expr: &Expr) -> (r: String)
        requires
            expr.wf(),
        ensures
            r@ == print_expr(*expr),
        decreases *expr,
    {
        match expr {
            Expr::Binary(b) => self.visit_binary_expr(b),
            Expr::Grouping(g) => self.visit_grouping_expr(g),
            Expr::Literal(l) => self.visit_literal_expr(l),
            Expr::Unary(u) => self.visit_unary_expr(u),
        }
    }

    /// Render `(lexeme left right)`.
    pub fn visit_binary_expr(&mut self, expr: &BinaryExpr) -> (r: String)
        requires
            expr.left.wf(),
            expr.right.wf(),
        ensures
            r@ == "("@ + expr.operator.lexeme@ + " "@ + print_expr(*expr.left) + " "@
                + print_expr(*expr.right) + ")"@,
        decreases *expr,
    {
        let mut out = String::from_str("(");
        out.append(expr.operator.lexeme.as_str());
        out.append(" ");
        let left = self.print(&expr.left);
        out.append(left.as_str());
        out.append(" ");
        let right = self.print(&expr.right);
        out.append(right.as_str());
        out.append(")");
        out
    }

    /// Render `(group inner)`.
    pub fn visit_grouping_expr(&mut self, expr: &GroupingExpr) -> (r: String)
        requires
            expr.expr.wf(),
        ensures
            r@ == "(group "@ + print_expr(*expr.expr) + ")"@,
        decreases *expr,
    {
        let mut out = String::from_str("(group ");
        let inner = self.print(&expr.expr);
        out.append(inner.as_str());
        out.append(")");
        out
    }

    /// Render a literal's own text.
    pub fn visit_literal_expr(&mut self, expr: &LiteralExpr) -> (r: String)
        requires
            *expr matches LiteralExpr::Num(n) ==> n.wf(),
        ensures
            r@ == literal_text(*expr),
    {
        match expr {
            LiteralExpr::Str(s) => s.clone(),
            LiteralExpr::Num(n) => n.display_string(),
            LiteralExpr::Bool(b) => {
                if *b {
                    String::from_str("true")
                } else {
                    String::from_str("false")
                }
            },
            LiteralExpr::Nil => String::from_str("nil"),
        }
    }

    /// Render `(lexeme operand)`.
    pub fn visit_unary_expr(&mut self, expr: &UnaryExpr) -> (r: String)
        requires
            expr.right.wf(),
        ensures
            r@ == "("@ + expr.operator.lexeme@ + " "@ + print_expr(*expr.right) + ")"@,
        decreases *expr,
    {
        let mut out = String::from_str("(");
        out.append(expr.operator.lexeme.as_str());
        out.append(" ");
        let right = self.print(&expr.right);
        out.append(right.as_str());
        out.append(")");
        out
    }
}

} // verus!

//! The recursive-descent parser. The grammar is a fixed precedence ladder,
//! lowest to highest: equality, comparison, term, factor, unary, primary,
//! and every binary level is left-associative.
//!
//! Each parsing function is proved against a functional mirror of the
//! grammar (`m_expression` and friends): the mirror says, for any token
//! sequence, cursor and error flag, exactly which tree (or which error
//! text) comes back, where the cursor lands, and whether the error flag is
//! set. Error recovery is panic mode: a failed declaration discards tokens
//! up to a statement boundary (`synchronize`) so one malformed statement
//! does not cascade.

use vstd::prelude::*;

use crate::ast::expr::{BinaryExpr, Expr, GroupingExpr, LiteralExpr, UnaryExpr};
use crate::ast::stmt::{ExpressionStmt, PrintStmt, Stmt, VarStmt};
use crate::ast::token::{Token, TokenType};

verus! {

/// An opaque marker for a failed parse; its printed form is its name.
#[derive(Debug)]
pub struct ParseError;

impl ParseError {
    /// The error's printed form.
    pub fn to_string(&self) -> (r: String)
        ensures
            r@ == "ParseError"@,
    {
        String::from_str("ParseError")
    }
}

/// The kind of the token at `p`, reading past the end as `Eof`.
pub open spec fn at(t: Seq<Token>, p: int) -> TokenType {
    if 0 <= p < t.len() {
        t[p].token_type
    } else {
        TokenType::Eof
    }
}

/// The token at `p`; meaningful only in range.
pub open spec fn tok_at(t: Seq<Token>, p: int) -> Token {
    if 0 <= p < t.len() {
        t[p]
    } else {
        vstd::pervasive::arbitrary()
    }
}

/// Clamp a cursor into `[lo, hi]`; on every reachable state the cursor is
/// already there, so this only keeps the mirror's recursion well-founded.
pub open spec fn clamped(p: int, lo: int, hi: int) -> int {
    if p < lo {
        lo
    } else if p > hi {
        hi
    } else {
        p
    }
}

/// The text `consume` reports: the offending token's lexeme and the
/// expected construct.
pub open spec fn error_text(tok: Token, msg: Seq<char>) -> Seq<char> {
    "Error at "@ + tok.lexeme@ + ": "@ + msg
}

/// The statement-boundary keywords `synchronize` stops in front of.
pub open spec fn sync_start(ty: TokenType) -> bool {
    ||| ty == TokenType::Class
    ||| ty == TokenType::Fun
    ||| ty == TokenType::Var
    ||| ty == TokenType::For
    ||| ty == TokenType::If
    ||| ty == TokenType::While
    ||| ty == TokenType::Print
    ||| ty == TokenType::Return
}

/// What one `match_tokens` call does: consume the current token when its
/// kind is listed and is not `Eof`.
pub open spec fn m_match(t: Seq<Token>, pos: int, tys: Seq<TokenType>) -> (bool, int) {
    if at(t, pos) != TokenType::Eof && tys.contains(at(t, pos)) {
        (true, pos + 1)
    } else {
        (false, pos)
    }
}

/// What one `consume` call does: advance over the expected kind, or report
/// the offending token and raise the error flag.
pub open spec fn m_consume(t: Seq<Token>, pos: int, err: bool, ty: TokenType, msg: Seq<char>) -> (
    Result<Token, Seq<char>>,
    int,
    bool,
) {
    if at(t, pos) != TokenType::Eof && at(t, pos) == ty {
        (Ok(tok_at(t, pos)), pos + 1, err)
    } else {
        (Err(error_text(tok_at(t, pos), msg)), pos, true)
    }
}

/// Where `synchronize` leaves the cursor once it has consumed its first
/// token: at the end, just past a semicolon, or in front of a
/// statement-boundary keyword.
pub open spec fn m_sync_from(t: Seq<Token>, pos: int) -> int
    decreases t.len() - pos,
    when 1 <= pos <= t.len()
{
    if at(t, pos) == TokenType::Eof {
        pos
    } else if t[pos - 1].token_type == TokenType::Semicolon {
        pos
    } else if sync_start(at(t, pos)) {
        pos
    } else {
        m_sync_from(t, pos + 1)
    }
}

/// A parsing step's outcome: the tree or the error text, the cursor after
/// the step, and the error flag after it.
pub open spec fn m_primary(t: Seq<Token>, pos: int, err: bool) -> (Result<Expr, Seq<char>>, int, bool)
    decreases t.len() - pos, 0int,
    when 0 <= pos <= t.len()
{
    let ty = at(t, pos);
    if ty == TokenType::False {
        (Ok(Expr::Literal(Box::new(LiteralExpr::Bool(false)))), pos + 1, err)
    } else if ty == TokenType::True {
        (Ok(Expr::Literal(Box::new(LiteralExpr::Bool(true)))), pos + 1, err)
    } else if ty == TokenType::Nil {
        (Ok(Expr::Literal(Box::new(LiteralExpr::Nil))), pos + 1, err)
    } else if ty == TokenType::Number || ty == TokenType::String {
        match tok_at(t, pos).literal {
            Some(LiteralExpr::Str(s)) => (
                Ok(Expr::Literal(Box::new(LiteralExpr::Str(s)))),
                pos + 1,
                err,
            ),
            Some(LiteralExpr::Num(n)) => (
                Ok(Expr::Literal(Box::new(LiteralExpr::Num(n)))),
                pos + 1,
                err,
            ),
            _ => (Err("Unexpected literal type"@), pos + 1, err),
        }
    } else if ty == TokenType::LeftParen {
        let (r1, p1, e1) = m_expression(t, pos + 1, err);
        match r1 {
            Ok(inner) => {
                let (rc, p2, e2) = m_consume(
                    t,
                    p1,
                    e1,
                    TokenType::RightParen,
                    "Expect ')' after expression."@,
                );
                match rc {
                    Ok(_) => (
                        (Ok(Expr::Grouping(Box::new(GroupingExpr { expr: Box::new(inner) })))),
                        p2,
                        e2,
                    ),
                    Err(m) => (Err(m), p2, e2),
                }
            },
            Err(m) => (Err(m), p1, e1),
        }
    } else {
        (Err("Expect expression."@), pos, err)
    }
}

/// Unary: a prefix `!` or `-` applied to a unary expression, else primary.
pub open spec fn m_unary(t: Seq<Token>, pos: int, err: bool) -> (Result<Expr, Seq<char>>, int, bool)
    decreases t.len() - pos, 1int,
    when 0 <= pos <= t.len()
{
    let ty = at(t, pos);
    if ty == TokenType::Bang || ty == TokenType::Minus {
        let (r1, p1, e1) = m_unary(t, pos + 1, err);
        match r1 {
            Ok(right) => (
                (Ok(Expr::Unary(Box::new(UnaryExpr { operator: tok_at(t, pos), right: Box::new(right) })))),
                p1,
                e1,
            ),
            Err(m) => (Err(m), p1, e1),
        }
    } else {
        m_primary(t, pos, err)
    }
}

/// The left-associative fold at the factor level: `acc` gains a right
/// operand for every `/` or `*` in turn.
pub open spec fn m_factor_tail(t: Seq<Token>, acc: Expr, pos: int, err: bool) -> (
    Result<Expr, Seq<char>>,
    int,
    bool,
)
    decreases t.len() - pos, 2int,
    when 0 <= pos <= t.len()
{
    let ty = at(t, pos);
    if ty == TokenType::Slash || ty == TokenType::Star {
        let (r1, p1, e1) = m_unary(t, pos + 1, err);
        match r1 {
            Ok(right) => m_factor_tail(
                t,
                Expr::Binary(Box::new(BinaryExpr {
                    left: Box::new(acc),
                    operator: tok_at(t, pos),
                    right: Box::new(right),
                })),
                clamped(p1, pos + 1, t.len() as int),
                e1,
            ),
            Err(m) => (Err(m), p1, e1),
        }
    } else {
        (Ok(acc), pos, err)
    }
}

/// Factor: unary, folded left over `/` and `*`.
pub open spec fn m_factor(t: Seq<Token>, pos: int, err: bool) -> (Result<Expr, Seq<char>>, int, bool)
    decreases t.len() - pos, 3int,
    when 0 <= pos <= t.len()
{
    let (r1, p1, e1) = m_unary(t, pos, err);
    match r1 {
        Ok(e) => m_factor_tail(t, e, clamped(p1, pos, t.len() as int), e1),
        Err(m) => (Err(m), p1, e1),
    }
}

/// The left-associative fold at the term level, over `-` and `+`.
pub open spec fn m_term_tail(t: Seq<Token>, acc: Expr, pos: int, err: bool) -> (
    Result<Expr, Seq<char>>,
    int,
    bool,
)
    decreases t.len() - pos, 4int,
    when 0 <= pos <= t.len()
{
    let ty = at(t, pos);
    if ty == TokenType::Minus || ty == TokenType::Plus {
        let (r1, p1, e1) = m_factor(t, pos + 1, err);
        match r1 {
            Ok(right) => m_term_tail(
                t,
                Expr::Binary(Box::new(BinaryExpr {
                    left: Box::new(acc),
                    operator: tok_at(t, pos),
                    right: Box::new(right),
                })),
                clamped(p1, pos + 1, t.len() as int),
                e1,
            ),
            Err(m) => (Err(m), p1, e1),
        }
    } else {
        (Ok(acc), pos, err)
    }
}

/// Term: factor, folded left over `-` and `+`.
pub open spec fn m_term(t: Seq<Token>, pos: int, err: bool) -> (Result<Expr, Seq<char>>, int, bool)
    decreases t.len() - pos, 5int,
    when 0 <= pos <= t.len()
{
    let (r1, p1, e1) = m_factor(t, pos, err);
    match r1 {
        Ok(e) => m_term_tail(t, e, clamped(p1, pos, t.len() as int), e1),
        Err(m) => (Err(m), p1, e1),
    }
}

/// The left-associative fold at the comparison level, over `>`, `>=`, `<`,
/// `<=`.
pub open spec fn m_comparison_tail(t: Seq<Token>, acc: Expr, pos: int, err: bool) -> (
    Result<Expr, Seq<char>>,
    int,
    bool,
)
    decreases t.len() - pos, 6int,
    when 0 <= pos <= t.len()
{
    let ty = at(t, pos);
    if ty == TokenType::Greater || ty == TokenType::GreaterEqual || ty == TokenType::Less || ty
        == TokenType::LessEqual {
        let (r1, p1, e1) = m_term(t, pos + 1, err);
        match r1 {
            Ok(right) => m_comparison_tail(
                t,
                Expr::Binary(Box::new(BinaryExpr {
                    left: Box::new(acc),
                    operator: tok_at(t, pos),
                    right: Box::new(right),
                })),
                clamped(p1, pos + 1, t.len() as int),
                e1,
            ),
            Err(m) => (Err(m), p1, e1),
        }
    } else {
        (Ok(acc), pos, err)
    }
}

/// Comparison: term, folded left over the four ordering operators.
pub open spec fn m_comparison(t: Seq<Token>, pos: int, err: bool) -> (
    Result<Expr, Seq<char>>,
    int,
    bool,
)
    decreases t.len() - pos, 7int,
    when 0 <= pos <= t.len()
{
    let (r1, p1, e1) = m_term(t, pos, err);
    match r1 {
        Ok(e) => m_comparison_tail(t, e, clamped(p1, pos, t.len() as int), e1),
        Err(m) => (Err(m), p1, e1),
    }
}

/// The left-associative fold at the equality level, over `!=` and `==`.
pub open spec fn m_equality_tail(t: Seq<Token>, acc: Expr, pos: int, err: bool) -> (
    Result<Expr, Seq<char>>,
    int,
    bool,
)
    decreases t.len() - pos, 8int,
    when 0 <= pos <= t.len()
{
    let ty = at(t, pos);
    if ty == TokenType::BangEqual || ty == TokenType::EqualEqual {
        let (r1, p1, e1) = m_comparison(t, pos + 1, err);
        match r1 {
            Ok(right) => m_equality_tail(
                t,
                Expr::Binary(Box::new(BinaryExpr {
                    left: Box::new(acc),
                    operator: tok_at(t, pos),
                    right: Box::new(right),
                })),
                clamped(p1, pos + 1, t.len() as int),
                e1,
            ),
            Err(m) => (Err(m), p1, e1),
        }
    } else {
        (Ok(acc), pos, err)
    }
}

/// Equality: comparison, folded left over `!=` and `==`.
pub open spec fn m_equality(t: Seq<Token>, pos: int, err: bool) -> (Result<Expr, Seq<char>>, int, bool)
    decreases t.len() - pos, 9int,
    when 0 <= pos <= t.len()
{
    let (r1, p1, e1) = m_comparison(t, pos, err);
    match r1 {
        Ok(e) => m_equality_tail(t, e, clamped(p1, pos, t.len() as int), e1),
        Err(m) => (Err(m), p1, e1),
    }
}

/// Expression: the lowest level of the ladder.
pub open spec fn m_expression(t: Seq<Token>, pos: int, err: bool) -> (
    Result<Expr, Seq<char>>,
    int,
    bool,
)
    decreases t.len() - pos, 10int,
    when 0 <= pos <= t.len()
{
    m_equality(t, pos, err)
}


/// What `synchronize` does to a cursor, first token included.
pub open spec fn m_sync(t: Seq<Token>, pos: int) -> int {
    let start = if at(t, pos) == TokenType::Eof {
        pos
    } else {
        pos + 1
    };
    if at(t, start) == TokenType::Eof {
        start
    } else {
        m_sync_from(t, start)
    }
}

/// An expression statement: an expression, then the expected `;`; the
/// statement is produced even when the semicolon is only reported missing.
pub open spec fn m_expression_statement(t: Seq<Token>, pos: int, err: bool) -> (
    Result<Stmt, Seq<char>>,
    int,
    bool,
)
    decreases t.len() - pos, 11int,
    when 0 <= pos <= t.len()
{
    let (r1, p1, e1) = m_expression(t, pos, err);
    match r1 {
        Ok(x) => {
            let (rc, p2, e2) = m_consume(t, p1, e1, TokenType::Semicolon, "Expect ';' after expression."@);
            (Ok(Stmt::Expression(ExpressionStmt { expression: x })), p2, e2)
        },
        Err(m) => (Err(m), p1, e1),
    }
}

/// A print statement body, entered after the `print` keyword.
pub open spec fn m_print_statement(t: Seq<Token>, pos: int, err: bool) -> (
    Result<Stmt, Seq<char>>,
    int,
    bool,
)
    decreases t.len() - pos, 11int,
    when 0 <= pos <= t.len()
{
    let (r1, p1, e1) = m_expression(t, pos, err);
    match r1 {
        Ok(x) => {
            let (rc, p2, e2) = m_consume(t, p1, e1, TokenType::Semicolon, "Expect ';' after value."@);
            (Ok(Stmt::Print(PrintStmt { expression: x })), p2, e2)
        },
        Err(m) => (Err(m), p1, e1),
    }
}

/// A statement: `print` introduces a print statement, anything else is an
/// expression statement.
pub open spec fn m_statement(t: Seq<Token>, pos: int, err: bool) -> (
    Result<Stmt, Seq<char>>,
    int,
    bool,
)
    decreases t.len() - pos, 12int,
    when 0 <= pos <= t.len()
{
    if at(t, pos) == TokenType::Print {
        m_print_statement(t, pos + 1, err)
    } else {
        m_expression_statement(t, pos, err)
    }
}

/// A variable declaration body, entered after the `var` keyword: the name,
/// an optional `= initializer` (absent, the initializer is the nil
/// literal), and the expected `;`.
pub open spec fn m_var_declaration(t: Seq<Token>, pos: int, err: bool) -> (
    Result<Stmt, Seq<char>>,
    int,
    bool,
)
    decreases t.len() - pos, 11int,
    when 0 <= pos <= t.len()
{
    let (rc, p1, e1) = m_consume(t, pos, err, TokenType::Identifier, "Expect variable name."@);
    match rc {
        Ok(name) => {
            if at(t, p1) == TokenType::Equal {
                let (r2, p2, e2) = m_expression(t, p1 + 1, e1);
                match r2 {
                    Ok(init) => {
                        let (rs, p3, e3) = m_consume(
                            t,
                            p2,
                            e2,
                            TokenType::Semicolon,
                            "Expect ';' after variable declaration."@,
                        );
                        (Ok(Stmt::Var(VarStmt { name, initializer: init })), p3, e3)
                    },
                    Err(m) => (Err(m), p2, e2),
                }
            } else {
                let (rs, p3, e3) = m_consume(
                    t,
                    p1,
                    e1,
                    TokenType::Semicolon,
                    "Expect ';' after variable declaration."@,
                );
                (
                    Ok(
                        Stmt::Var(
                            VarStmt {
                                name,
                                initializer: Expr::Literal(Box::new(LiteralExpr::Nil)),
                            },
                        ),
                    ),
                    p3,
                    e3,
                )
            }
        },
        Err(m) => (Err(m), p1, e1),
    }
}

/// A declaration with panic-mode recovery: a failed statement discards
/// tokens to the next boundary and yields nothing.
pub open spec fn m_declaration(t: Seq<Token>, pos: int, err: bool) -> (Option<Stmt>, int, bool)
    decreases t.len() - pos, 13int,
    when 0 <= pos <= t.len()
{
    let (r1, p1, e1) = if at(t, pos) == TokenType::Var {
        m_var_declaration(t, pos + 1, err)
    } else {
        m_statement(t, pos, err)
    };
    match r1 {
        Ok(stmt) => (Some(stmt), p1, e1),
        Err(m) => (None, m_sync(t, p1), e1),
    }
}

/// A whole program: declarations until the terminal marker, the failed
/// ones skipped.
pub open spec fn m_program(t: Seq<Token>, pos: int, err: bool) -> (Seq<Stmt>, int, bool)
    decreases t.len() - pos, 14int,
    when 0 <= pos <= t.len()
{
    if at(t, pos) == TokenType::Eof {
        (Seq::empty(), pos, err)
    } else {
        let (o, p1, e1) = m_declaration(t, pos, err);
        let (rest, p2, e2) = m_program(t, clamped(p1, pos + 1, t.len() as int), e1);
        match o {
            Some(stmt) => (seq![stmt] + rest, p2, e2),
            None => (rest, p2, e2),
        }
    }
}

/// An executable expression outcome agrees with a mirror outcome.
pub open spec fn res_matches(r: Result<Expr, String>, m: Result<Expr, Seq<char>>) -> bool {
    match (r, m) {
        (Ok(a), Ok(b)) => a == b,
        (Err(s), Err(q)) => s@ == q,
        _ => false,
    }
}

/// An executable statement outcome agrees with a mirror outcome.
pub open spec fn stmt_res_matches(r: Result<Stmt, String>, m: Result<Stmt, Seq<char>>) -> bool {
    match (r, m) {
        (Ok(a), Ok(b)) => a == b,
        (Err(s), Err(q)) => s@ == q,
        _ => false,
    }
}

/// The recursive-descent parser: the token stream, a cursor into it, and
/// the sticky error flag that `consume` raises.
pub struct Parser {
    pub tokens: Vec<Token>,
    pub current: usize,
    pub error: bool,
}

impl Parser {
    /// The stream ends in the terminal marker and the cursor is on a token.
    pub open spec fn wf(self) -> bool {
        &&& self.tokens@.len() >= 1
        &&& self.tokens@.last().token_type == TokenType::Eof
        &&& self.current < self.tokens@.len()
    }

    /// The parts of the state a parsing step never changes, and the parts
    /// it may only move forward: the stream is fixed, the cursor does not
    /// retreat, and the error flag is never cleared.
    pub open spec fn steps_from(self, new: Parser) -> bool {
        &&& new.tokens == self.tokens
        &&& self.current <= new.current
        &&& (self.error ==> new.error)
    }

    pub fn new(tokens: Vec<Token>) -> (r: Parser)
        ensures
            r.tokens == tokens,
            r.current == 0,
            r.error == false,
    {
        Parser { tokens, current: 0, error: false }
    }

    /// The token under the cursor.
    pub fn peek(&self) -> (r: &Token)
        requires
            self.current < self.tokens@.len(),
        ensures
            *r == self.tokens@[self.current as int],
    {
        &self.tokens[self.current]
    }

    /// The token just behind the cursor.
    pub fn previous(&self) -> (r: &Token)
        requires
            1 <= self.current <= self.tokens@.len(),
        ensures
            *r == self.tokens@[self.current - 1],
    {
        &self.tokens[self.current - 1]
    }

    /// At the terminal marker?
    pub fn is_at_end(&self) -> (r: bool)
        requires
            self.current < self.tokens@.len(),
        ensures
            r == (at(self.tokens@, self.current as int) == TokenType::Eof),
    {
        self.peek().token_type == TokenType::Eof
    }

    /// Does the current token have this kind? Never true at the end.
    pub fn check(&self, token_type: TokenType) -> (r: bool)
        requires
            self.current < self.tokens@.len(),
        ensures
            r == (at(self.tokens@, self.current as int) != TokenType::Eof && at(
                self.tokens@,
                self.current as int,
            ) == token_type),
    {
        if self.is_at_end() {
            return false;
        }
        self.peek().token_type == token_type
    }

    /// Move the cursor forward, unless it is at the terminal marker, and
    /// hand back the token it moved over.
    pub fn advance(&mut self) -> (r: &Token)
        requires
            old(self).wf(),
            1 <= old(self).current || at(old(self).tokens@, old(self).current as int)
                != TokenType::Eof,
        ensures
            final(self).tokens == old(self).tokens,
            final(self).error == old(self).error,
            final(self).current == if at(old(self).tokens@, old(self).current as int)
                == TokenType::Eof {
                old(self).current as int
            } else {
                old(self).current + 1
            },
            final(self).wf(),
            *r == final(self).tokens@[final(self).current - 1],
    {
        if !self.is_at_end() {
            let n = self.tokens.len();
            proof {
                assert(self.current + 1 < n);
            }
            self.current = self.current + 1;
        }
        self.previous()
    }

    /// Consume the current token when its kind is among `types`.
    pub fn match_tokens(&mut self, types: &[TokenType]) -> (r: bool)
        requires
            old(self).wf(),
        ensures
            final(self).tokens == old(self).tokens,
            final(self).error == old(self).error,
            (r, final(self).current as int) == m_match(
                old(self).tokens@,
                old(self).current as int,
                types@,
            ),
            final(self).wf(),
    {
        let n = types.len();
        let mut i: usize = 0;
        while i < n
            invariant
                self == old(self),
                self.wf(),
                n == types@.len(),
                0 <= i <= n,
                forall|j: int|
                    0 <= j < i ==> !(at(self.tokens@, self.current as int) != TokenType::Eof && at(
                        self.tokens@,
                        self.current as int,
                    ) == types@[j]),
            decreases n - i,
        {
            if self.check(types[i]) {
                self.advance();
                return true;
            }
            i = i + 1;
        }
        false
    }

    /// Record a parse failure: raise the error flag and name the offending
    /// token and the expected construct.
    pub fn error(&mut self, token: &Token, message: &str) -> (r: String)
        ensures
            final(self).tokens == old(self).tokens,
            final(self).current == old(self).current,
            final(self).error == true,
            r@ == error_text(*token, message@),
    {
        self.error = true;
        let mut text = String::from_str("Error at ");
        text.append(token.lexeme.as_str());
        text.append(": ");
        text.append(message);
        text
    }

    /// Advance over the expected kind, or record a failure naming the
    /// current token.
    pub fn consume(&mut self, token_type: TokenType, message: &str) -> (r: Result<&Token, String>)
        requires
            old(self).wf(),
        ensures
            final(self).tokens == old(self).tokens,
            final(self).wf(),
            ({
                let (mr, mp, me) = m_consume(
                    old(self).tokens@,
                    old(self).current as int,
                    old(self).error,
                    token_type,
                    message@,
                );
                &&& final(self).current == mp
                &&& final(self).error == me
                &&& (match (r, mr) {
                    (Ok(a), Ok(b)) => *a == b,
                    (Err(s), Err(q)) => s@ == q,
                    _ => false,
                })
            }),
    {
        if self.check(token_type) {
            Ok(self.advance())
        } else {
            let offending = self.peek().clone();
            Err(self.error(&offending, message))
        }
    }

    /// Panic-mode recovery: discard tokens until just past a semicolon, in
    /// front of a statement-boundary keyword, or at the end.
    pub fn synchronize(&mut self)
        requires
            old(self).wf(),
            1 <= old(self).current || at(old(self).tokens@, old(self).current as int)
                != TokenType::Eof,
        ensures
            final(self).tokens == old(self).tokens,
            final(self).error == old(self).error,
            final(self).wf(),
            old(self).current <= final(self).current,
            at(old(self).tokens@, old(self).current as int) != TokenType::Eof ==> old(
                self,
            ).current < final(self).current,
            final(self).current == ({
                let start = if at(old(self).tokens@, old(self).current as int) == TokenType::Eof {
                    old(self).current as int
                } else {
                    old(self).current + 1
                };
                if at(old(self).tokens@, start) == TokenType::Eof {
                    start
                } else {
                    m_sync_from(old(self).tokens@, start)
                }
            }),
    {
        self.advance();

        while !self.is_at_end()
            invariant
                self.tokens == old(self).tokens,
                self.error == old(self).error,
                self.wf(),
                1 <= self.current,
                old(self).current <= self.current,
                at(old(self).tokens@, old(self).current as int) != TokenType::Eof ==> old(
                    self,
                ).current < self.current,
                (if at(self.tokens@, self.current as int) == TokenType::Eof {
                    self.current as int
                } else {
                    m_sync_from(self.tokens@, self.current as int)
                }) == ({
                    let start = if at(old(self).tokens@, old(self).current as int)
                        == TokenType::Eof {
                        old(self).current as int
                    } else {
                        old(self).current + 1
                    };
                    if at(old(self).tokens@, start) == TokenType::Eof {
                        start
                    } else {
                        m_sync_from(old(self).tokens@, start)
                    }
                }),
            decreases self.tokens@.len() - self.current,
        {
            if self.previous().token_type == TokenType::Semicolon {
                return ;
            }
            match self.peek().token_type {
                TokenType::Class => {
                    return ;
                },
                TokenType::Fun => {
                    return ;
                },
                TokenType::Var => {
                    return ;
                },
                TokenType::For => {
                    return ;
                },
                TokenType::If => {
                    return ;
                },
                TokenType::While => {
                    return ;
                },
                TokenType::Print => {
                    return ;
                },
                TokenType::Return => {
                    return ;
                },
                _ => {},
            }
            proof {
                assert(m_sync_from(self.tokens@, self.current as int) == m_sync_from(
                    self.tokens@,
                    self.current + 1,
                ));
            }
            self.advance();
        }
    }

    /// Primary: one literal, `true`/`false`/`nil`, or a parenthesized
    /// group, which demands its matching `)`.
    #[verifier::rlimit(100)]
    pub fn primary(&mut self) -> (r: Result<Expr, String>)
        requires
            old(self).wf(),
        ensures
            final(self).wf(),
            old(self).steps_from(*final(self)),
            ({
                let (mr, mp, me) = m_primary(
                    old(self).tokens@,
                    old(self).current as int,
                    old(self).error,
                );
                res_matches(r, mr) && final(self).current == mp && final(self).error == me
            }),
            r is Ok ==> old(self).current < final(self).current,
        decreases old(self).tokens@.len() - old(self).current, 0int,
    {
        if self.match_tokens(&[TokenType::False]) {
            return Ok(Expr::Literal(Box::new(LiteralExpr::Bool(false))));
        }
        if self.match_tokens(&[TokenType::True]) {
            return Ok(Expr::Literal(Box::new(LiteralExpr::Bool(true))));
        }
        if self.match_tokens(&[TokenType::Nil]) {
            return Ok(Expr::Literal(Box::new(LiteralExpr::Nil)));
        }
        if self.match_tokens(&[TokenType::Number, TokenType::String]) {
            let literal = self.previous().literal.clone();
            return match literal {
                Some(LiteralExpr::Str(s)) => Ok(Expr::Literal(Box::new(LiteralExpr::Str(s)))),
                Some(LiteralExpr::Num(n)) => Ok(Expr::Literal(Box::new(LiteralExpr::Num(n)))),
                _ => Err(String::from_str("Unexpected literal type")),
            };
        }
        if self.match_tokens(&[TokenType::LeftParen]) {
            let inner = match self.expression() {
                Ok(e) => e,
                Err(m) => {
                    return Err(m);
                },
            };
            match self.consume(TokenType::RightParen, "Expect ')' after expression.") {
                Ok(_) => (),
                Err(m) => {
                    return Err(m);
                },
            }
            return Ok(Expr::Grouping(Box::new(GroupingExpr { expr: Box::new(inner) })));
        }
        Err(String::from_str("Expect expression."))
    }

    /// Unary: a prefix `!` or `-` applied to a unary expression, else
    /// primary.
    pub fn unary(&mut self) -> (r: Result<Expr, String>)
        requires
            old(self).wf(),
        ensures
            final(self).wf(),
            old(self).steps_from(*final(self)),
            ({
                let (mr, mp, me) = m_unary(
                    old(self).tokens@,
                    old(self).current as int,
                    old(self).error,
                );
                res_matches(r, mr) && final(self).current == mp && final(self).error == me
            }),
            r is Ok ==> old(self).current < final(self).current,
        decreases old(self).tokens@.len() - old(self).current, 1int,
    {
        if self.match_tokens(&[TokenType::Bang, TokenType::Minus]) {
            let operator = self.previous().clone();
            let right = match self.unary() {
                Ok(e) => e,
                Err(m) => {
                    return Err(m);
                },
            };
            return Ok(Expr::Unary(Box::new(UnaryExpr { operator, right: Box::new(right) })));
        }
        self.primary()
    }

    /// Factor: unary, folded left over `/` and `*`.
    pub fn factor(&mut self) -> (r: Result<Expr, String>)
        requires
            old(self).wf(),
        ensures
            final(self).wf(),
            old(self).steps_from(*final(self)),
            ({
                let (mr, mp, me) = m_factor(
                    old(self).tokens@,
                    old(self).current as int,
                    old(self).error,
                );
                res_matches(r, mr) && final(self).current == mp && final(self).error == me
            }),
            r is Ok ==> old(self).current < final(self).current,
        decreases old(self).tokens@.len() - old(self).current, 3int,
    {
        let first = match self.unary() {
            Ok(e) => e,
            Err(m) => {
                return Err(m);
            },
        };
        self.factor_tail(first)
    }

    /// The factor-level fold: `acc` gains a right operand for every `/` or
    /// `*` in turn.
    fn factor_tail(&mut self, acc: Expr) -> (r: Result<Expr, String>)
        requires
            old(self).wf(),
        ensures
            final(self).wf(),
            old(self).steps_from(*final(self)),
            ({
                let (mr, mp, me) = m_factor_tail(
                    old(self).tokens@,
                    acc,
                    old(self).current as int,
                    old(self).error,
                );
                res_matches(r, mr) && final(self).current == mp && final(self).error == me
            }),
        decreases old(self).tokens@.len() - old(self).current, 2int,
    {
        if self.match_tokens(&[TokenType::Slash, TokenType::Star]) {
            let operator = self.previous().clone();
            let right = match self.unary() {
                Ok(e) => e,
                Err(m) => {
                    return Err(m);
                },
            };
            let joined = Expr::Binary(
                Box::new(BinaryExpr { left: Box::new(acc), operator, right: Box::new(right) }),
            );
            self.factor_tail(joined)
        } else {
            Ok(acc)
        }
    }

    /// Term: factor, folded left over `-` and `+`.
    pub fn term(&mut self) -> (r: Result<Expr, String>)
        requires
            old(self).wf(),
        ensures
            final(self).wf(),
            old(self).steps_from(*final(self)),
            ({
                let (mr, mp, me) = m_term(
                    old(self).tokens@,
                    old(self).current as int,
                    old(self).error,
                );
                res_matches(r, mr) && final(self).current == mp && final(self).error == me
            }),
            r is Ok ==> old(self).current < final(self).current,
        decreases old(self).tokens@.len() - old(self).current, 5int,
    {
        let first = match self.factor() {
            Ok(e) => e,
            Err(m) => {
                return Err(m);
            },
        };
        self.term_tail(first)
    }

    /// The term-level fold, over `-` and `+`.
    fn term_tail(&mut self, acc: Expr) -> (r: Result<Expr, String>)
        requires
            old(self).wf(),
        ensures
            final(self).wf(),
            old(self).steps_from(*final(self)),
            ({
                let (mr, mp, me) = m_term_tail(
                    old(self).tokens@,
                    acc,
                    old(self).current as int,
                    old(self).error,
                );
                res_matches(r, mr) && final(self).current == mp && final(self).error == me
            }),
        decreases old(self).tokens@.len() - old(self).current, 4int,
    {
        if self.match_tokens(&[TokenType::Minus, TokenType::Plus]) {
            let operator = self.previous().clone();
            let right = match self.factor() {
                Ok(e) => e,
                Err(m) => {
                    return Err(m);
                },
            };
            let joined = Expr::Binary(
                Box::new(BinaryExpr { left: Box::new(acc), operator, right: Box::new(right) }),
            );
            self.term_tail(joined)
        } else {
            Ok(acc)
        }
    }

    /// Comparison: term, folded left over `>`, `>=`, `<`, `<=`.
    pub fn comparison(&mut self) -> (r: Result<Expr, String>)
        requires
            old(self).wf(),
        ensures
            final(self).wf(),
            old(self).steps_from(*final(self)),
            ({
                let (mr, mp, me) = m_comparison(
                    old(self).tokens@,
                    old(self).current as int,
                    old(self).error,
                );
                res_matches(r, mr) && final(self).current == mp && final(self).error == me
            }),
            r is Ok ==> old(self).current < final(self).current,
        decreases old(self).tokens@.len() - old(self).current, 7int,
    {
        let first = match self.term() {
            Ok(e) => e,
            Err(m) => {
                return Err(m);
            },
        };
        self.comparison_tail(first)
    }

    /// The comparison-level fold, over the four ordering operators.
    fn comparison_tail(&mut self, acc: Expr) -> (r: Result<Expr, String>)
        requires
            old(self).wf(),
        ensures
            final(self).wf(),
            old(self).steps_from(*final(self)),
            ({
                let (mr, mp, me) = m_comparison_tail(
                    old(self).tokens@,
                    acc,
                    old(self).current as int,
                    old(self).error,
                );
                res_matches(r, mr) && final(self).current == mp && final(self).error == me
            }),
        decreases old(self).tokens@.len() - old(self).current, 6int,
    {
        if self.match_tokens(
            &[TokenType::Greater, TokenType::GreaterEqual, TokenType::Less, TokenType::LessEqual],
        ) {
            let operator = self.previous().clone();
            let right = match self.term() {
                Ok(e) => e,
                Err(m) => {
                    return Err(m);
                },
            };
            let joined = Expr::Binary(
                Box::new(BinaryExpr { left: Box::new(acc), operator, right: Box::new(right) }),
            );
            self.comparison_tail(joined)
        } else {
            Ok(acc)
        }
    }

    /// Equality: comparison, folded left over `!=` and `==`.
    pub fn equality(&mut self) -> (r: Result<Expr, String>)
        requires
            old(self).wf(),
        ensures
            final(self).wf(),
            old(self).steps_from(*final(self)),
            ({
                let (mr, mp, me) = m_equality(
                    old(self).tokens@,
                    old(self).current as int,
                    old(self).error,
                );
                res_matches(r, mr) && final(self).current == mp && final(self).error == me
            }),
            r is Ok ==> old(self).current < final(self).current,
        decreases old(self).tokens@.len() - old(self).current, 9int,
    {
        let first = match self.comparison() {
            Ok(e) => e,
            Err(m) => {
                return Err(m);
            },
        };
        self.equality_tail(first)
    }

    /// The equality-level fold, over `!=` and `==`.
    fn equality_tail(&mut self, acc: Expr) -> (r: Result<Expr, String>)
        requires
            old(self).wf(),
        ensures
            final(self).wf(),
            old(self).steps_from(*final(self)),
            ({
                let (mr, mp, me) = m_equality_tail(
                    old(self).tokens@,
                    acc,
                    old(self).current as int,
                    old(self).error,
                );
                res_matches(r, mr) && final(self).current == mp && final(self).error == me
            }),
        decreases old(self).tokens@.len() - old(self).current, 8int,
    {
        if self.match_tokens(&[TokenType::BangEqual, TokenType::EqualEqual]) {
            let operator = self.previous().clone();
            let right = match self.comparison() {
                Ok(e) => e,
                Err(m) => {
                    return Err(m);
                },
            };
            let joined = Expr::Binary(
                Box::new(BinaryExpr { left: Box::new(acc), operator, right: Box::new(right) }),
            );
            self.equality_tail(joined)
        } else {
            Ok(acc)
        }
    }

    /// Expression: the lowest level of the precedence ladder.
    pub fn expression(&mut self) -> (r: Result<Expr, String>)
        requires
            old(self).wf(),
        ensures
            final(self).wf(),
            old(self).steps_from(*final(self)),
            ({
                let (mr, mp, me) = m_expression(
                    old(self).tokens@,
                    old(self).current as int,
                    old(self).error,
                );
                res_matches(r, mr) && final(self).current == mp && final(self).error == me
            }),
            r is Ok ==> old(self).current < final(self).current,
        decreases old(self).tokens@.len() - old(self).current, 10int,
    {
        self.equality()
    }

    /// Parse one expression and judge the whole attempt: the tree comes
    /// back only when parsing succeeded and the error flag stayed clear.
    pub fn parse(&mut self) -> (r: Option<Expr>)
        requires
            old(self).wf(),
        ensures
            final(self).wf(),
            old(self).steps_from(*final(self)),
            ({
                let (mr, mp, me) = m_expression(
                    old(self).tokens@,
                    old(self).current as int,
                    old(self).error,
                );
                &&& final(self).current == mp
                &&& final(self).error == me
                &&& (match mr {
                    Ok(e) => r == (if me {
                        Option::<Expr>::None
                    } else {
                        Some(e)
                    }),
                    Err(_) => r is None,
                })
            }),
    {
        match self.expression() {
            Ok(e) => {
                if self.error {
                    None
                } else {
                    Some(e)
                }
            },
            Err(_) => None,
        }
    }

    /// A variable declaration body, entered after the `var` keyword. The
    /// name is demanded; without an `=` the initializer defaults to the
    /// nil literal; the closing `;` is demanded but its absence only
    /// raises the error flag.
    pub fn var_declaration(&mut self) -> (r: Result<Stmt, String>)
        requires
            old(self).wf(),
        ensures
            final(self).wf(),
            old(self).steps_from(*final(self)),
            ({
                let (mr, mp, me) = m_var_declaration(
                    old(self).tokens@,
                    old(self).current as int,
                    old(self).error,
                );
                stmt_res_matches(r, mr) && final(self).current == mp && final(self).error == me
            }),
            r is Ok ==> old(self).current < final(self).current,
        decreases old(self).tokens@.len() - old(self).current, 11int,
    {
        let name = match self.consume(TokenType::Identifier, "Expect variable name.") {
            Ok(tok) => tok.clone(),
            Err(m) => {
                return Err(m);
            },
        };
        let initializer = if self.match_tokens(&[TokenType::Equal]) {
            match self.expression() {
                Ok(e) => e,
                Err(m) => {
                    return Err(m);
                },
            }
        } else {
            Expr::Literal(Box::new(LiteralExpr::Nil))
        };
        let _ = self.consume(TokenType::Semicolon, "Expect ';' after variable declaration.");
        Ok(Stmt::Var(VarStmt { name, initializer }))
    }

    /// A print statement body, entered after the `print` keyword.
    pub fn print_statement(&mut self) -> (r: Result<Stmt, String>)
        requires
            old(self).wf(),
        ensures
            final(self).wf(),
            old(self).steps_from(*final(self)),
            ({
                let (mr, mp, me) = m_print_statement(
                    old(self).tokens@,
                    old(self).current as int,
                    old(self).error,
                );
                stmt_res_matches(r, mr) && final(self).current == mp && final(self).error == me
            }),
            r is Ok ==> old(self).current < final(self).current,
        decreases old(self).tokens@.len() - old(self).current, 11int,
    {
        let expression = match self.expression() {
            Ok(e) => e,
            Err(m) => {
                return Err(m);
            },
        };
        let _ = self.consume(TokenType::Semicolon, "Expect ';' after value.");
        Ok(Stmt::Print(PrintStmt { expression }))
    }

    /// An expression statement: an expression, then the expected `;`.
    pub fn expression_statement(&mut self) -> (r: Result<Stmt, String>)
        requires
            old(self).wf(),
        ensures
            final(self).wf(),
            old(self).steps_from(*final(self)),
            ({
                let (mr, mp, me) = m_expression_statement(
                    old(self).tokens@,
                    old(self).current as int,
                    old(self).error,
                );
                stmt_res_matches(r, mr) && final(self).current == mp && final(self).error == me
            }),
            r is Ok ==> old(self).current < final(self).current,
        decreases old(self).tokens@.len() - old(self).current, 11int,
    {
        let expression = match self.expression() {
            Ok(e) => e,
            Err(m) => {
                return Err(m);
            },
        };
        let _ = self.consume(TokenType::Semicolon, "Expect ';' after expression.");
        Ok(Stmt::Expression(ExpressionStmt { expression }))
    }

    /// A statement: `print` introduces a print statement, anything else is
    /// an expression statement.
    pub fn statement(&mut self) -> (r: Result<Stmt, String>)
        requires
            old(self).wf(),
        ensures
            final(self).wf(),
            old(self).steps_from(*final(self)),
            ({
                let (mr, mp, me) = m_statement(
                    old(self).tokens@,
                    old(self).current as int,
                    old(self).error,
                );
                stmt_res_matches(r, mr) && final(self).current == mp && final(self).error == me
            }),
            r is Ok ==> old(self).current < final(self).current,
        decreases old(self).tokens@.len() - old(self).current, 12int,
    {
        if self.match_tokens(&[TokenType::Print]) {
            return self.print_statement();
        }
        self.expression_statement()
    }

    /// One declaration, with panic-mode recovery: on a parse failure the
    /// parser discards tokens to the next statement boundary and reports
    /// no statement, so one malformed statement does not cascade.
    pub fn declaration(&mut self) -> (r: Option<Stmt>)
        requires
            old(self).wf(),
            1 <= old(self).current || at(old(self).tokens@, old(self).current as int)
                != TokenType::Eof,
        ensures
            final(self).wf(),
            old(self).steps_from(*final(self)),
            ({
                let (mr, mp, me) = m_declaration(
                    old(self).tokens@,
                    old(self).current as int,
                    old(self).error,
                );
                r == mr && final(self).current == mp && final(self).error == me
            }),
            at(old(self).tokens@, old(self).current as int) != TokenType::Eof ==> old(
                self,
            ).current < final(self).current,
        decreases old(self).tokens@.len() - old(self).current, 13int,
    {
        let result = if self.match_tokens(&[TokenType::Var]) {
            self.var_declaration()
        } else {
            self.statement()
        };
        match result {
            Ok(stmt) => Some(stmt),
            Err(_) => {
                self.synchronize();
                None
            },
        }
    }

    /// A whole program: declarations until the terminal marker, the failed
    /// ones skipped. When the error flag is up afterwards the statements
    /// must not be run.
    pub fn parse_statements(&mut self) -> (r: Vec<Stmt>)
        requires
            old(self).wf(),
        ensures
            final(self).wf(),
            old(self).steps_from(*final(self)),
            ({
                let (ms, mp, me) = m_program(
                    old(self).tokens@,
                    old(self).current as int,
                    old(self).error,
                );
                r@ == ms && final(self).current == mp && final(self).error == me
            }),
    {
        let ghost t = old(self).tokens@;
        let ghost target = m_program(t, old(self).current as int, old(self).error);
        let mut statements: Vec<Stmt> = Vec::new();

        while !self.is_at_end()
            invariant
                self.tokens == old(self).tokens,
                self.tokens@ == t,
                self.wf(),
                old(self).current <= self.current,
                old(self).error ==> self.error,
                target == ({
                    let (rest, mp, me) = m_program(t, self.current as int, self.error);
                    (statements@ + rest, mp, me)
                }),
            decreases self.tokens@.len() - self.current,
        {
            proof {
                assert(1 <= self.current || at(t, self.current as int) != TokenType::Eof);
            }
            let decl = self.declaration();
            match decl {
                Some(stmt) => {
                    statements.push(stmt);
                },
                None => {},
            }
        }
        proof {
            assert(statements@ + Seq::<Stmt>::empty() =~= statements@);
        }
        statements
    }
}

} // verus!

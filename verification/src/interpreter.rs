//! The tree-walking evaluator. Each node kind has exactly one evaluation
//! rule, written out as `spec_eval`, and the executable evaluator is proved
//! to return precisely what that rule says: the same value on success and
//! the same error token and message on failure.
//!
//! Evaluation failures are fatal to the evaluation in progress: the first
//! one aborts the fold and is returned as a [`RuntimeError`] naming the
//! operator token and the offending operands. They are never recorded and
//! skipped the way scan and parse errors are.
//!
//! Truthiness here is the wide rule: the absent value is falsy, a boolean
//! is itself, and the number zero and the empty string are falsy too;
//! everything else is truthy.

use vstd::prelude::*;

use vstd::std_specs::cmp::PartialEqSpec;

use crate::ast::expr::{BinaryExpr, Expr, GroupingExpr, LiteralExpr, UnaryExpr};
use crate::ast::number::Number;
use crate::ast::object::Object;
use crate::ast::stmt::Stmt;
use crate::ast::token::{token_type_name, Token, TokenType};

verus! {

/// A fatal evaluation failure: the token it arose at and a message naming
/// the operator and the offending values.
#[derive(Debug)]
pub struct RuntimeError {
    pub token: Token,
    pub message: String,
}

impl RuntimeError {
    pub fn new(token: Token, message: String) -> (r: RuntimeError)
        ensures
            r.token == token,
            r.message == message,
    {
        RuntimeError { token, message }
    }
}

/// The mathematical shape of a runtime value: an exact rational for a
/// number, a character sequence for a string, a boolean, or nothing.
pub enum Val {
    VNum { n: int, d: int },
    VStr { s: Seq<char> },
    VBool { b: bool },
    VNil,
}

/// The mathematical shape of an evaluation failure.
pub enum EvalErr {
    NotNumbers { op: Token },
    PlusMismatch { op: Token, left: Option<Seq<char>>, right: Option<Seq<char>> },
    UnknownBinary { op: Token },
    UnaryNotNumber { op: Token, operand: Val },
    UnknownUnary { op: Token },
    DivByZero { op: Token },
    TooLarge { op: Token },
}

/// The mathematical value a runtime object denotes.
pub open spec fn obj_val(o: Object) -> Val {
    match o {
        Object::Num(x) => Val::VNum { n: x.v_num(), d: x.v_den() },
        Object::Str(s) => Val::VStr { s: s@ },
        Object::Bool(b) => Val::VBool { b },
        Object::Nil => Val::VNil,
    }
}

/// Truthiness: nil is falsy, a boolean is itself, the empty string and the
/// number zero are falsy, everything else is truthy.
pub open spec fn truthy(v: Val) -> bool {
    match v {
        Val::VNil => false,
        Val::VBool { b } => b,
        Val::VStr { s } => s.len() > 0,
        Val::VNum { n, d } => n != 0,
    }
}

/// The narrow equality rule: values of the same kind compare by value
/// (numbers as rationals), values of differing kinds are never equal, and
/// nothing — not even nil — equals nil.
pub open spec fn val_equal(a: Val, b: Val) -> bool {
    match (a, b) {
        (Val::VNum { n: an, d: ad }, Val::VNum { n: bn, d: bd }) => an * bd == bn * ad,
        (Val::VStr { s: x }, Val::VStr { s: y }) => x == y,
        (Val::VBool { b: x }, Val::VBool { b: y }) => x == y,
        _ => false,
    }
}

/// A numerator within the representable magnitude.
pub open spec fn fits_num(n: int) -> bool {
    -(u64::MAX as int) <= n <= u64::MAX as int
}

/// A denominator within the representable magnitude.
pub open spec fn fits_den(d: int) -> bool {
    d <= u64::MAX as int
}

/// The string payload of a value, when it has one; this mirrors what the
/// mismatch message for `+` shows of each operand.
pub open spec fn val_str_part(v: Val) -> Option<Seq<char>> {
    match v {
        Val::VStr { s } => Some(s),
        _ => None,
    }
}

/// One arithmetic step over exact rationals, in the plain cross-multiplied
/// form, with the representation bound applied.
pub open spec fn arith_step(op: TokenType, ln: int, ld: int, rn: int, rd: int, tok: Token) -> Result<
    Val,
    EvalErr,
> {
    let (n, d): (int, int) = if op == TokenType::Plus {
        (ln * rd + rn * ld, ld * rd)
    } else if op == TokenType::Minus {
        (ln * rd - rn * ld, ld * rd)
    } else if op == TokenType::Star {
        (ln * rn, ld * rd)
    } else {
        // Slash, with rn known to be non-zero.
        (if rn < 0 {
            -(ln * rd)
        } else {
            ln * rd
        }, ld * (if rn < 0 {
            -rn
        } else {
            rn
        }))
    };
    if fits_num(n) && fits_den(d) {
        Ok(Val::VNum { n, d })
    } else {
        Err(EvalErr::TooLarge { op: tok })
    }
}

/// The evaluation rule for a binary node, given the two operand values.
pub open spec fn spec_eval_binary(op: Token, l: Val, r: Val) -> Result<Val, EvalErr> {
    let t = op.token_type;
    if t == TokenType::EqualEqual {
        Ok(Val::VBool { b: val_equal(l, r) })
    } else if t == TokenType::BangEqual {
        Ok(Val::VBool { b: !val_equal(l, r) })
    } else if t == TokenType::Greater || t == TokenType::GreaterEqual || t == TokenType::Less || t
        == TokenType::LessEqual {
        match (l, r) {
            (Val::VNum { n: ln, d: ld }, Val::VNum { n: rn, d: rd }) => Ok(
                Val::VBool {
                    b: if t == TokenType::Greater {
                        ln * rd > rn * ld
                    } else if t == TokenType::GreaterEqual {
                        ln * rd >= rn * ld
                    } else if t == TokenType::Less {
                        ln * rd < rn * ld
                    } else {
                        ln * rd <= rn * ld
                    },
                },
            ),
            _ => Err(EvalErr::NotNumbers { op }),
        }
    } else if t == TokenType::Plus {
        match (l, r) {
            (Val::VNum { n: ln, d: ld }, Val::VNum { n: rn, d: rd }) => arith_step(
                TokenType::Plus,
                ln,
                ld,
                rn,
                rd,
                op,
            ),
            (Val::VStr { s: x }, Val::VStr { s: y }) => Ok(Val::VStr { s: x + y }),
            _ => Err(
                EvalErr::PlusMismatch { op, left: val_str_part(l), right: val_str_part(r) },
            ),
        }
    } else if t == TokenType::Minus || t == TokenType::Star {
        match (l, r) {
            (Val::VNum { n: ln, d: ld }, Val::VNum { n: rn, d: rd }) => arith_step(
                t,
                ln,
                ld,
                rn,
                rd,
                op,
            ),
            _ => Err(EvalErr::NotNumbers { op }),
        }
    } else if t == TokenType::Slash {
        match (l, r) {
            (Val::VNum { n: ln, d: ld }, Val::VNum { n: rn, d: rd }) => if rn == 0 {
                Err(EvalErr::DivByZero { op })
            } else {
                arith_step(TokenType::Slash, ln, ld, rn, rd, op)
            },
            _ => Err(EvalErr::NotNumbers { op }),
        }
    } else {
        Err(EvalErr::UnknownBinary { op })
    }
}

/// The evaluation rule for a unary node, given the operand value.
pub open spec fn spec_eval_unary(op: Token, v: Val) -> Result<Val, EvalErr> {
    let t = op.token_type;
    if t == TokenType::Minus {
        match v {
            Val::VNum { n, d } => Ok(Val::VNum { n: -n, d }),
            _ => Err(EvalErr::UnaryNotNumber { op, operand: v }),
        }
    } else if t == TokenType::Bang {
        Ok(Val::VBool { b: !truthy(v) })
    } else {
        Err(EvalErr::UnknownUnary { op })
    }
}

/// The value a literal node denotes.
pub open spec fn literal_val(l: LiteralExpr) -> Val {
    match l {
        LiteralExpr::Str(s) => Val::VStr { s: s@ },
        LiteralExpr::Num(x) => Val::VNum { n: x.v_num(), d: x.v_den() },
        LiteralExpr::Bool(b) => Val::VBool { b },
        LiteralExpr::Nil => Val::VNil,
    }
}

/// The evaluation rule for a whole unary node.
pub open spec fn unary_result(u: UnaryExpr) -> Result<Val, EvalErr>
    decreases u, 1int,
{
    match spec_eval(*u.right) {
        Ok(v) => spec_eval_unary(u.operator, v),
        Err(err) => Err(err),
    }
}

/// The evaluation rule for a whole binary node: the left operand first,
/// so the leftmost failure is the one reported.
pub open spec fn binary_result(b: BinaryExpr) -> Result<Val, EvalErr>
    decreases b, 1int,
{
    match spec_eval(*b.left) {
        Ok(l) => match spec_eval(*b.right) {
            Ok(r) => spec_eval_binary(b.operator, l, r),
            Err(err) => Err(err),
        },
        Err(err) => Err(err),
    }
}

/// The full evaluation rule: one clause per node kind. A literal denotes
/// its own value and a grouping denotes exactly its inner expression's
/// value.
pub open spec fn spec_eval(e: Expr) -> Result<Val, EvalErr>
    decreases e, 0int,
{
    match e {
        Expr::Literal(l) => Ok(literal_val(*l)),
        Expr::Grouping(g) => spec_eval(*g.expr),
        Expr::Unary(u) => unary_result(*u),
        Expr::Binary(b) => binary_result(*b),
    }
}

/// The token an evaluation failure is charged to.
pub open spec fn err_token(e: EvalErr) -> Token {
    match e {
        EvalErr::NotNumbers { op } => op,
        EvalErr::PlusMismatch { op, .. } => op,
        EvalErr::UnknownBinary { op } => op,
        EvalErr::UnaryNotNumber { op, .. } => op,
        EvalErr::UnknownUnary { op } => op,
        EvalErr::DivByZero { op } => op,
        EvalErr::TooLarge { op } => op,
    }
}

/// The debug form of a value's string payload, as the mismatch message
/// for `+` shows it.
pub open spec fn opt_str_debug(o: Option<Seq<char>>) -> Seq<char> {
    match o {
        None => "None"@,
        Some(s) => "Some(\""@ + s + "\")"@,
    }
}

/// The debug form of a value, as the unary operand message shows it.
pub open spec fn val_debug(v: Val) -> Seq<char> {
    match v {
        Val::VNum { .. } => "a number"@,
        Val::VStr { s } => "Str(\""@ + s + "\")"@,
        Val::VBool { b } => if b {
            "Bool(true)"@
        } else {
            "Bool(false)"@
        },
        Val::VNil => "Nil"@,
    }
}

/// The message text of each evaluation failure.
pub open spec fn err_message(e: EvalErr) -> Seq<char> {
    match e {
        EvalErr::NotNumbers { op } => "Operands must be numbers for the "@ + token_type_name(
            op.token_type,
        ) + " operation"@,
        EvalErr::PlusMismatch { op, left, right } => "Operands "@ + opt_str_debug(left) + ", "@
            + opt_str_debug(right) + " must be matching types for the "@ + token_type_name(
            op.token_type,
        ) + " operation"@,
        EvalErr::UnknownBinary { op } => "Unknown binary expression operator "@ + token_type_name(
            op.token_type,
        ),
        EvalErr::UnaryNotNumber { op, operand } => "Unary operand "@ + val_debug(operand)
            + " must be a number"@,
        EvalErr::UnknownUnary { op } => "Unknown unary token type "@ + token_type_name(
            op.token_type,
        ),
        EvalErr::DivByZero { op } => "Division by zero for the "@ + token_type_name(op.token_type)
            + " operation"@,
        EvalErr::TooLarge { op } => "Number out of range for the "@ + token_type_name(
            op.token_type,
        ) + " operation"@,
    }
}

/// The executable result agrees with the given outcome of the evaluation
/// rule: the same value on success, the same token and message on failure.
pub open spec fn result_post(s: Result<Val, EvalErr>, r: Result<Object, RuntimeError>) -> bool {
    match s {
        Ok(v) => r matches Ok(o) && o.wf() && obj_val(o) == v,
        Err(err) => r matches Err(re) && re.token == err_token(err) && re.message@ == err_message(
            err,
        ),
    }
}

/// The executable result agrees with the evaluation rule for `e`.
pub open spec fn eval_post(e: Expr, r: Result<Object, RuntimeError>) -> bool {
    result_post(spec_eval(e), r)
}


/// The textual form of a value, as a print statement shows it.
pub open spec fn val_text(v: Val) -> Seq<char> {
    match v {
        Val::VNum { n, d } => crate::ast::number::render_spec(
            (Number {
                neg: n < 0,
                num: (if n < 0 {
                    -n
                } else {
                    n
                }) as u64,
                den: d as u64,
            }),
            false,
        ),
        Val::VStr { s } => s,
        Val::VBool { b } => if b {
            "true"@
        } else {
            "false"@
        },
        Val::VNil => "nil"@,
    }
}

/// What executing one statement produces: the printed line of a print
/// statement, nothing for the others; expression statements and variable
/// declarations evaluate their expression and discard the value, and the
/// first evaluation failure aborts the run.
pub open spec fn spec_exec_stmt(s: Stmt) -> Result<Option<Seq<char>>, EvalErr> {
    match s {
        Stmt::Expression(es) => match spec_eval(es.expression) {
            Ok(_) => Ok(None),
            Err(e) => Err(e),
        },
        Stmt::Print(ps) => match spec_eval(ps.expression) {
            Ok(v) => Ok(Some(val_text(v))),
            Err(e) => Err(e),
        },
        Stmt::Var(vs) => match spec_eval(vs.initializer) {
            Ok(_) => Ok(None),
            Err(e) => Err(e),
        },
    }
}

/// What executing a statement list produces: the printed lines in order,
/// or the first failure.
pub open spec fn spec_run(stmts: Seq<Stmt>) -> Result<Seq<Seq<char>>, EvalErr>
    decreases stmts.len(),
{
    if stmts.len() == 0 {
        Ok(Seq::empty())
    } else {
        match spec_exec_stmt(stmts[0]) {
            Err(e) => Err(e),
            Ok(line) => match spec_run(stmts.drop_first()) {
                Err(e) => Err(e),
                Ok(rest) => Ok(
                    (match line {
                        Some(text) => seq![text] + rest,
                        None => rest,
                    }),
                ),
            },
        }
    }
}

/// A statement's expressions carry only well-formed numbers.
pub open spec fn stmt_wf(s: Stmt) -> bool {
    match s {
        Stmt::Expression(es) => es.expression.wf(),
        Stmt::Print(ps) => ps.expression.wf(),
        Stmt::Var(vs) => vs.initializer.wf(),
    }
}

/// LAW: grouping is the identity of evaluation — wrapping any expression
/// in a grouping node changes nothing about its value or its failure.
pub proof fn lemma_grouping_identity(e: Expr)
    ensures
        spec_eval(Expr::Grouping(Box::new((GroupingExpr { expr: Box::new(e) })))) == spec_eval(e),
{
}


/// A well-formed object's text is the text of its value.
proof fn lemma_object_text_is_val_text(o: Object)
    requires
        o.wf(),
    ensures
        crate::ast::object::object_text(o) == val_text(obj_val(o)),
{
    match o {
        Object::Num(x) => {
            let v = obj_val(o);
            match v {
                Val::VNum { n, d } => {
                    let y = Number {
                        neg: n < 0,
                        num: (if n < 0 {
                            -n
                        } else {
                            n
                        }) as u64,
                        den: d as u64,
                    };
                    assert(y == x);
                },
                _ => {},
            }
        },
        _ => {},
    }
}

/// The tree-walking evaluator. It holds no state of its own: each call
/// owns nothing but the expression it is handed.
pub struct Interpreter;

impl Interpreter {
    /// Evaluate an expression handed in by reference.
    pub fn interpret(&mut self, expression: &Expr) -> (r: Result<Object, RuntimeError>)
        requires
            expression.wf(),
        ensures
            eval_post(*expression, r),
    {
        self.evaluate(expression.clone())
    }

    /// Evaluate an expression: fold it into a single runtime value, or
    /// stop at the first failure.
    pub fn evaluate(&mut self, expr: Expr) -> (r: Result<Object, RuntimeError>)
        requires
            expr.wf(),
        ensures
            eval_post(expr, r),
        decreases expr, 2int,
    {
        match expr {
            Expr::Literal(l) => Ok(self.visit_literal_expr(&l)),
            Expr::Grouping(g) => self.visit_grouping_expr(&g),
            Expr::Unary(u) => self.visit_unary_expr(&u),
            Expr::Binary(b) => self.visit_binary_expr(&b),
        }
    }

    /// A literal's value is boxed directly, the absent literal included.
    pub fn visit_literal_expr(&mut self, expr: &LiteralExpr) -> (r: Object)
        requires
            *expr matches LiteralExpr::Num(n) ==> n.wf(),
        ensures
            r.wf(),
            obj_val(r) == literal_val(*expr),
    {
        match expr {
            LiteralExpr::Str(value) => Object::Str(value.clone()),
            LiteralExpr::Num(value) => Object::Num(*value),
            LiteralExpr::Bool(value) => Object::Bool(*value),
            LiteralExpr::Nil => Object::Nil,
        }
    }

    /// A grouping returns its inner expression's value unchanged.
    pub fn visit_grouping_expr(&mut self, expr: &GroupingExpr) -> (r: Result<Object, RuntimeError>)
        requires
            expr.expr.wf(),
        ensures
            eval_post(*expr.expr, r),
        decreases *expr,
    {
        self.evaluate((*expr.expr).clone())
    }

    /// Unary minus negates a number and fails on anything else; unary bang
    /// negates truthiness.
    pub fn visit_unary_expr(&mut self, expr: &UnaryExpr) -> (r: Result<Object, RuntimeError>)
        requires
            expr.right.wf(),
        ensures
            result_post(unary_result(*expr), r),
        decreases *expr,
    {
        let value = match self.evaluate((*expr.right).clone()) {
            Ok(v) => v,
            Err(e) => {
                return Err(e);
            },
        };
        match expr.operator.token_type {
            TokenType::Minus => match &value {
                Object::Num(n) => Ok(Object::Num(n.negated())),
                _ => {
                    let mut message = String::from_str("Unary operand ");
                    append_val_debug(&mut message, &value);
                    message.append(" must be a number");
                    Err(RuntimeError { token: expr.operator.clone(), message })
                },
            },
            TokenType::Bang => {
                let t = self.is_truthy(&value);
                Ok(Object::Bool(!t))
            },
            _ => {
                let mut message = String::from_str("Unknown unary token type ");
                let name = expr.operator.token_type.to_string();
                message.append(name.as_str());
                Err(RuntimeError { token: expr.operator.clone(), message })
            },
        }
    }

    /// The binary rules: equality over the narrow rule, comparisons and
    /// arithmetic over numbers, `+` also concatenating two strings.
    pub fn visit_binary_expr(&mut self, expr: &BinaryExpr) -> (r: Result<Object, RuntimeError>)
        requires
            expr.left.wf(),
            expr.right.wf(),
        ensures
            result_post(binary_result(*expr), r),
        decreases *expr,
    {
        let left = match self.evaluate((*expr.left).clone()) {
            Ok(v) => v,
            Err(e) => {
                return Err(e);
            },
        };
        let right = match self.evaluate((*expr.right).clone()) {
            Ok(v) => v,
            Err(e) => {
                return Err(e);
            },
        };
        match expr.operator.token_type {
            TokenType::EqualEqual => {
                let value = self.is_equal(&left, &right);
                Ok(Object::Bool(value))
            },
            TokenType::BangEqual => {
                let value = self.is_equal(&left, &right);
                Ok(Object::Bool(!value))
            },
            TokenType::Greater => match (&left, &right) {
                (Object::Num(a), Object::Num(b)) => Ok(Object::Bool(b.lt(a))),
                _ => Err(self.numbers_error(&expr.operator)),
            },
            TokenType::GreaterEqual => match (&left, &right) {
                (Object::Num(a), Object::Num(b)) => Ok(Object::Bool(b.le(a))),
                _ => Err(self.numbers_error(&expr.operator)),
            },
            TokenType::Less => match (&left, &right) {
                (Object::Num(a), Object::Num(b)) => Ok(Object::Bool(a.lt(b))),
                _ => Err(self.numbers_error(&expr.operator)),
            },
            TokenType::LessEqual => match (&left, &right) {
                (Object::Num(a), Object::Num(b)) => Ok(Object::Bool(a.le(b))),
                _ => Err(self.numbers_error(&expr.operator)),
            },
            TokenType::Plus => match (&left, &right) {
                (Object::Num(a), Object::Num(b)) => match a.checked_add(b) {
                    Some(x) => Ok(Object::Num(x)),
                    None => Err(self.range_error(&expr.operator)),
                },
                (Object::Str(a), Object::Str(b)) => {
                    let mut joined = a.clone();
                    joined.append(b.as_str());
                    Ok(Object::Str(joined))
                },
                _ => {
                    let mut message = String::from_str("Operands ");
                    append_opt_str_debug(&mut message, &left);
                    message.append(", ");
                    append_opt_str_debug(&mut message, &right);
                    message.append(" must be matching types for the ");
                    let name = expr.operator.token_type.to_string();
                    message.append(name.as_str());
                    message.append(" operation");
                    Err(RuntimeError { token: expr.operator.clone(), message })
                },
            },
            TokenType::Minus => match (&left, &right) {
                (Object::Num(a), Object::Num(b)) => match a.checked_sub(b) {
                    Some(x) => Ok(Object::Num(x)),
                    None => Err(self.range_error(&expr.operator)),
                },
                _ => Err(self.numbers_error(&expr.operator)),
            },
            TokenType::Slash => match (&left, &right) {
                (Object::Num(a), Object::Num(b)) => {
                    if b.is_zero() {
                        let mut message = String::from_str("Division by zero for the ");
                        let name = expr.operator.token_type.to_string();
                        message.append(name.as_str());
                        message.append(" operation");
                        Err(RuntimeError { token: expr.operator.clone(), message })
                    } else {
                        match a.checked_div(b) {
                            Some(x) => Ok(Object::Num(x)),
                            None => Err(self.range_error(&expr.operator)),
                        }
                    }
                },
                _ => Err(self.numbers_error(&expr.operator)),
            },
            TokenType::Star => match (&left, &right) {
                (Object::Num(a), Object::Num(b)) => match a.checked_mul(b) {
                    Some(x) => Ok(Object::Num(x)),
                    None => Err(self.range_error(&expr.operator)),
                },
                _ => Err(self.numbers_error(&expr.operator)),
            },
            _ => {
                let mut message = String::from_str("Unknown binary expression operator ");
                let name = expr.operator.token_type.to_string();
                message.append(name.as_str());
                Err(RuntimeError { token: expr.operator.clone(), message })
            },
        }
    }

    /// The "operands must be numbers" failure for the given operator.
    fn numbers_error(&self, op: &Token) -> (r: RuntimeError)
        ensures
            r.token == *op,
            r.message@ == err_message((EvalErr::NotNumbers { op: *op })),
    {
        let mut message = String::from_str("Operands must be numbers for the ");
        let name = op.token_type.to_string();
        message.append(name.as_str());
        message.append(" operation");
        RuntimeError { token: op.clone(), message }
    }

    /// The "out of range" failure for the given operator.
    fn range_error(&self, op: &Token) -> (r: RuntimeError)
        ensures
            r.token == *op,
            r.message@ == err_message((EvalErr::TooLarge { op: *op })),
    {
        let mut message = String::from_str("Number out of range for the ");
        let name = op.token_type.to_string();
        message.append(name.as_str());
        message.append(" operation");
        RuntimeError { token: op.clone(), message }
    }

    /// Truthiness of a value, by the rule documented on [`truthy`].
    pub fn is_truthy(&self, object: &Object) -> (r: bool)
        ensures
            r == truthy(obj_val(*object)),
    {
        match object {
            Object::Nil => false,
            Object::Bool(b) => *b,
            Object::Str(s) => !s.as_str().is_empty(),
            Object::Num(n) => !n.is_zero(),
        }
    }

    /// The narrow equality rule, by the rule documented on [`val_equal`].
    pub fn is_equal(&self, a: &Object, b: &Object) -> (r: bool)
        requires
            a.wf(),
            b.wf(),
        ensures
            r == val_equal(obj_val(*a), obj_val(*b)),
    {
        match (a, b) {
            (Object::Num(x), Object::Num(y)) => {
                proof {
                    crate::ast::number::lemma_eq_is_same_value(*x, *y);
                }
                *x == *y
            },
            (Object::Str(x), Object::Str(y)) => *x == *y,
            (Object::Bool(x), Object::Bool(y)) => *x == *y,
            _ => false,
        }
    }

    /// Execute one statement: a print statement yields the printed text,
    /// the others evaluate for their effect and yield nothing.
    pub fn execute(&mut self, stmt: &Stmt) -> (r: Result<Option<String>, RuntimeError>)
        requires
            stmt_wf(*stmt),
        ensures
            ({
                match spec_exec_stmt(*stmt) {
                    Ok(line) => r matches Ok(o) && (match (o, line) {
                        (Some(text), Some(spec_text)) => text@ == spec_text,
                        (None, None) => true,
                        _ => false,
                    }),
                    Err(err) => r matches Err(re) && re.token == err_token(err) && re.message@
                        == err_message(err),
                }
            }),
    {
        match stmt {
            Stmt::Expression(es) => match self.evaluate(es.expression.clone()) {
                Ok(_) => Ok(None),
                Err(e) => Err(e),
            },
            Stmt::Print(ps) => match self.evaluate(ps.expression.clone()) {
                Ok(v) => {
                    proof {
                        lemma_object_text_is_val_text(v);
                    }
                    Ok(Some(v.to_string()))
                },
                Err(e) => Err(e),
            },
            Stmt::Var(vs) => match self.evaluate(vs.initializer.clone()) {
                Ok(_) => Ok(None),
                Err(e) => Err(e),
            },
        }
    }

    /// Execute a statement list: the printed lines in order, or the
    /// first failure, which aborts the rest of the run.
    pub fn interpret_statements(&mut self, statements: &Vec<Stmt>) -> (r: Result<
        Vec<String>,
        RuntimeError,
    >)
        requires
            forall|i: int| 0 <= i < statements@.len() ==> stmt_wf(#[trigger] statements@[i]),
        ensures
            ({
                match spec_run(statements@) {
                    Ok(lines) => r matches Ok(out) && out@.len() == lines.len() && (forall|i: int|
                        0 <= i < lines.len() ==> #[trigger] out@[i]@ == lines[i]),
                    Err(err) => r matches Err(re) && re.token == err_token(err) && re.message@
                        == err_message(err),
                }
            }),
    {
        let ghost target = spec_run(statements@);
        let mut outputs: Vec<String> = Vec::new();
        let n = statements.len();
        let mut i: usize = 0;
        proof {
            assert(statements@.skip(0) =~= statements@);
            assert(outputs@.map_values(|t: String| t@) =~= Seq::<Seq<char>>::empty());
            match spec_run(statements@) {
                Ok(lines) => {
                    assert(Seq::<Seq<char>>::empty() + lines =~= lines);
                },
                Err(_) => {},
            }
        }
        while i < n
            invariant
                n == statements@.len(),
                0 <= i <= n,
                forall|j: int| 0 <= j < n ==> stmt_wf(#[trigger] statements@[j]),
                target == spec_run(statements@),
                ({
                    match spec_run(statements@.skip(i as int)) {
                        Ok(rest) => target matches Ok(lines) && lines =~= outputs@.map_values(
                            |t: String| t@,
                        ) + rest,
                        Err(e) => target == Result::<Seq<Seq<char>>, EvalErr>::Err(e),
                    }
                }),
            decreases n - i,
        {
            proof {
                assert(statements@.skip(i as int)[0] == statements@[i as int]);
                assert(statements@.skip(i as int).drop_first() =~= statements@.skip(i + 1));
            }
            match self.execute(&statements[i]) {
                Ok(Some(text)) => {
                    let ghost before = outputs@;
                    outputs.push(text);
                    proof {
                        assert(outputs@.map_values(|t: String| t@) =~= before.map_values(
                            |t: String| t@,
                        ) + seq![text@]);
                    }
                },
                Ok(None) => {},
                Err(e) => {
                    return Err(e);
                },
            }
            i = i + 1;
        }
        proof {
            assert(statements@.skip(n as int) =~= Seq::<Stmt>::empty());
            match target {
                Ok(lines) => {
                    assert(lines =~= outputs@.map_values(|t: String| t@));
                },
                Err(_) => {},
            }
        }
        Ok(outputs)
    }
}

/// Append the debug form of a value's string payload, as [`opt_str_debug`]
/// describes it.
fn append_opt_str_debug(out: &mut String, o: &Object)
    ensures
        final(out)@ == old(out)@ + opt_str_debug(val_str_part(obj_val(*o))),
{
    match o {
        Object::Str(s) => {
            out.append("Some(\"");
            out.append(s.as_str());
            out.append("\")");
            proof {
                assert(final(out)@ =~= old(out)@ + opt_str_debug(val_str_part(obj_val(*o))));
            }
        },
        _ => {
            out.append("None");
        },
    }
}

/// Append the debug form of a value, as [`val_debug`] describes it.
fn append_val_debug(out: &mut String, o: &Object)
    ensures
        final(out)@ == old(out)@ + val_debug(obj_val(*o)),
{
    match o {
        Object::Num(_) => {
            out.append("a number");
        },
        Object::Str(s) => {
            out.append("Str(\"");
            out.append(s.as_str());
            out.append("\")");
            proof {
                assert(final(out)@ =~= old(out)@ + val_debug(obj_val(*o)));
            }
        },
        Object::Bool(b) => {
            if *b {
                out.append("Bool(true)");
            } else {
                out.append("Bool(false)");
            }
        },
        Object::Nil => {
            out.append("Nil");
        },
    }
}

} // verus!

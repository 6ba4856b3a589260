use lox_rs::ast::expr::{BinaryExpr, Expr, GroupingExpr, LiteralExpr, UnaryExpr};
use lox_rs::ast::number::Number;
use lox_rs::ast::object::Object;
use lox_rs::ast::token::{Token, TokenType};
use lox_rs::interpreter::{Interpreter, RuntimeError};

fn num_lit(i: u64) -> Expr {
    Expr::Literal(Box::new(LiteralExpr::Num(Number::from_integer(i))))
}

fn str_lit(s: &str) -> Expr {
    Expr::Literal(Box::new(LiteralExpr::Str(s.to_string())))
}

fn binary(left: Expr, ty: TokenType, lexeme: &str, right: Expr) -> Expr {
    Expr::Binary(Box::new(BinaryExpr {
        left: Box::new(left),
        operator: Token::new(ty, lexeme.to_string(), None, 1),
        right: Box::new(right),
    }))
}

#[test]
fn test_runtime_error_creation() {
    let token = Token::new(TokenType::Identifier, "test".to_string(), None, 1);

    let message = "An error occurred.".to_string();
    let error = RuntimeError::new(token.clone(), message.clone());

    assert_eq!(error.token, token);
    assert_eq!(error.message, message);
}

#[test]
fn test_runtime_error_message_content() {
    let token = Token::new(
        TokenType::Number,
        "42".to_string(),
        Some(LiteralExpr::Num(Number::from_integer(42))),
        2,
    );

    let message = "Invalid number format.".to_string();
    let error = RuntimeError::new(token.clone(), message.clone());

    assert_eq!(error.message, message);
    assert!(error.message.contains("Invalid"));
}

#[test]
fn test_interpreter_literal_number() {
    let expr = num_lit(42);
    let mut interpreter = Interpreter;
    let result = interpreter.interpret(&expr).unwrap();
    assert_eq!(result, Object::Num(Number::from_integer(42)));
}

#[test]
fn test_interpreter_literal_string() {
    let expr = str_lit("hello");
    let mut interpreter = Interpreter;
    let result = interpreter.interpret(&expr).unwrap();
    assert_eq!(result, Object::Str("hello".to_string()));
}

#[test]
fn test_interpreter_literal_bool() {
    let expr = Expr::Literal(Box::new(LiteralExpr::Bool(true)));
    let mut interpreter = Interpreter;
    let result = interpreter.interpret(&expr).unwrap();
    assert_eq!(result, Object::Bool(true));
}

#[test]
fn test_interpreter_binary_addition_numbers() {
    let expr = binary(num_lit(1), TokenType::Plus, "+", num_lit(2));
    let mut interpreter = Interpreter;
    let result = interpreter.interpret(&expr).unwrap();
    assert_eq!(result, Object::Num(Number::from_integer(3)));
}

#[test]
fn test_interpreter_binary_addition_strings() {
    let expr = binary(str_lit("hello"), TokenType::Plus, "+", str_lit(" world"));
    let mut interpreter = Interpreter;
    let result = interpreter.interpret(&expr).unwrap();
    assert_eq!(result, Object::Str("hello world".to_string()));
}

#[test]
fn test_interpreter_binary_addition_mismatch() {
    let expr = binary(str_lit("hello"), TokenType::Plus, "+", num_lit(2));
    let mut interpreter = Interpreter;
    let err = interpreter.interpret(&expr).unwrap_err();
    assert_eq!(
        err.message,
        "Operands Some(\"hello\"), None must be matching types for the Plus operation"
    );
}

#[test]
fn test_interpreter_binary_subtraction_numbers() {
    let expr = binary(num_lit(2), TokenType::Minus, "-", num_lit(1));
    let mut interpreter = Interpreter;
    let result = interpreter.interpret(&expr).unwrap();
    assert_eq!(result, Object::Num(Number::from_integer(1)));
}

#[test]
fn test_interpreter_binary_subtraction_mismatch() {
    let expr = binary(str_lit("hello"), TokenType::Minus, "-", num_lit(1));
    let mut interpreter = Interpreter;
    let err = interpreter.interpret(&expr).unwrap_err();
    assert_eq!(err.message, "Operands must be numbers for the Minus operation");
}

#[test]
fn test_interpreter_binary_division_numbers() {
    let expr = binary(num_lit(4), TokenType::Slash, "/", num_lit(2));
    let mut interpreter = Interpreter;
    let result = interpreter.interpret(&expr).unwrap();
    assert_eq!(result, Object::Num(Number::from_integer(2)));
}

#[test]
fn test_interpreter_binary_division_mismatch() {
    let expr = binary(str_lit("hello"), TokenType::Slash, "/", num_lit(1));
    let mut interpreter = Interpreter;
    let err = interpreter.interpret(&expr).unwrap_err();
    assert_eq!(err.message, "Operands must be numbers for the Slash operation");
}

#[test]
fn test_interpreter_binary_multiplication_numbers() {
    let expr = binary(num_lit(2), TokenType::Star, "*", num_lit(3));
    let mut interpreter = Interpreter;
    let result = interpreter.interpret(&expr).unwrap();
    assert_eq!(result, Object::Num(Number::from_integer(6)));
}

#[test]
fn test_interpreter_binary_multiplication_mismatch() {
    let expr = binary(str_lit("hello"), TokenType::Star, "*", num_lit(1));
    let mut interpreter = Interpreter;
    let err = interpreter.interpret(&expr).unwrap_err();
    assert_eq!(err.message, "Operands must be numbers for the Star operation");
}

#[test]
fn test_interpreter_binary_unknown_token_type() {
    let expr = binary(str_lit("hello"), TokenType::LeftParen, "(", num_lit(1));
    let mut interpreter = Interpreter;
    let err = interpreter.interpret(&expr).unwrap_err();
    assert_eq!(err.message, "Unknown binary expression operator LeftParen");
}

#[test]
fn test_interpreter_binary_equal_equal_false() {
    let expr = binary(num_lit(1), TokenType::EqualEqual, "==", num_lit(2));
    let mut interpreter = Interpreter;
    let result = interpreter.interpret(&expr).unwrap();
    assert_eq!(result, Object::Bool(false));
}

#[test]
fn test_interpreter_binary_equal_equal_true() {
    let expr = binary(num_lit(2), TokenType::EqualEqual, "==", num_lit(2));
    let mut interpreter = Interpreter;
    let result = interpreter.interpret(&expr).unwrap();
    assert_eq!(result, Object::Bool(true));
}

#[test]
fn test_interpreter_binary_bang_equal_true() {
    let expr = binary(num_lit(1), TokenType::BangEqual, "!=", num_lit(2));
    let mut interpreter = Interpreter;
    let result = interpreter.interpret(&expr).unwrap();
    assert_eq!(result, Object::Bool(true));
}

#[test]
fn test_interpreter_binary_bang_equal_false() {
    let expr = binary(num_lit(2), TokenType::BangEqual, "!=", num_lit(2));
    let mut interpreter = Interpreter;
    let result = interpreter.interpret(&expr).unwrap();
    assert_eq!(result, Object::Bool(false));
}

#[test]
fn test_interpreter_binary_greater_than_true() {
    let expr = binary(num_lit(3), TokenType::Greater, ">", num_lit(2));
    let mut interpreter = Interpreter;
    let result = interpreter.interpret(&expr).unwrap();
    assert_eq!(result, Object::Bool(true));
}

#[test]
fn test_interpreter_binary_greater_than_false() {
    let expr = binary(num_lit(2), TokenType::Greater, ">", num_lit(2));
    let mut interpreter = Interpreter;
    let result = interpreter.interpret(&expr).unwrap();
    assert_eq!(result, Object::Bool(false));
}

#[test]
fn test_interpreter_binary_greater_than_equal_true_different() {
    let expr = binary(num_lit(3), TokenType::GreaterEqual, ">=", num_lit(2));
    let mut interpreter = Interpreter;
    let result = interpreter.interpret(&expr).unwrap();
    assert_eq!(result, Object::Bool(true));
}

#[test]
fn test_interpreter_binary_greater_than_equal_true() {
    let expr = binary(num_lit(2), TokenType::GreaterEqual, ">=", num_lit(2));
    let mut interpreter = Interpreter;
    let result = interpreter.interpret(&expr).unwrap();
    assert_eq!(result, Object::Bool(true));
}

#[test]
fn test_interpreter_binary_greater_than_equal_false() {
    let expr = binary(num_lit(1), TokenType::GreaterEqual, ">=", num_lit(2));
    let mut interpreter = Interpreter;
    let result = interpreter.interpret(&expr).unwrap();
    assert_eq!(result, Object::Bool(false));
}

#[test]
fn test_interpreter_binary_less_than_true() {
    let expr = binary(num_lit(1), TokenType::Less, "<", num_lit(2));
    let mut interpreter = Interpreter;
    let result = interpreter.interpret(&expr).unwrap();
    assert_eq!(result, Object::Bool(true));
}

#[test]
fn test_interpreter_binary_less_than_false() {
    let expr = binary(num_lit(2), TokenType::Less, "<", num_lit(2));
    let mut interpreter = Interpreter;
    let result = interpreter.interpret(&expr).unwrap();
    assert_eq!(result, Object::Bool(false));
}

#[test]
fn test_interpreter_binary_less_than_equal_true_different() {
    let expr = binary(num_lit(1), TokenType::LessEqual, "<=", num_lit(2));
    let mut interpreter = Interpreter;
    let result = interpreter.interpret(&expr).unwrap();
    assert_eq!(result, Object::Bool(true));
}

#[test]
fn test_interpreter_binary_less_than_equal_true() {
    let expr = binary(num_lit(2), TokenType::LessEqual, "<=", num_lit(2));
    let mut interpreter = Interpreter;
    let result = interpreter.interpret(&expr).unwrap();
    assert_eq!(result, Object::Bool(true));
}

#[test]
fn test_interpreter_binary_less_than_equal_false() {
    let expr = binary(num_lit(3), TokenType::LessEqual, "<=", num_lit(2));
    let mut interpreter = Interpreter;
    let result = interpreter.interpret(&expr).unwrap();
    assert_eq!(result, Object::Bool(false));
}

#[test]
fn test_interpreter_binary_greater_than_panic_not_numbers() {
    let expr = binary(str_lit("hello"), TokenType::Greater, ">", num_lit(2));
    let mut interpreter = Interpreter;
    let err = interpreter.interpret(&expr).unwrap_err();
    assert_eq!(err.message, "Operands must be numbers for the Greater operation");
}

#[test]
fn test_interpreter_binary_greater_than_equal_panic_not_numbers() {
    let expr = binary(str_lit("hello"), TokenType::GreaterEqual, ">=", num_lit(2));
    let mut interpreter = Interpreter;
    let err = interpreter.interpret(&expr).unwrap_err();
    assert_eq!(err.message, "Operands must be numbers for the GreaterEqual operation");
}

#[test]
fn test_interpreter_binary_less_than_panic_not_numbers() {
    let expr = binary(str_lit("hello"), TokenType::Less, "<", num_lit(2));
    let mut interpreter = Interpreter;
    let err = interpreter.interpret(&expr).unwrap_err();
    assert_eq!(err.message, "Operands must be numbers for the Less operation");
}

#[test]
fn test_interpreter_binary_less_than_equal_panic_not_numbers() {
    let expr = binary(str_lit("hello"), TokenType::LessEqual, "<=", num_lit(2));
    let mut interpreter = Interpreter;
    let err = interpreter.interpret(&expr).unwrap_err();
    assert_eq!(err.message, "Operands must be numbers for the LessEqual operation");
}

#[test]
fn test_is_truthy_none() {
    let obj = Object::Nil;
    let interpreter = Interpreter;
    assert_eq!(interpreter.is_truthy(&obj), false);
}

#[test]
fn test_is_truthy_true_bool() {
    let obj = Object::Bool(true);
    let interpreter = Interpreter;
    assert_eq!(interpreter.is_truthy(&obj), true);
}

#[test]
fn test_is_truthy_false_bool() {
    let obj = Object::Bool(false);
    let interpreter = Interpreter;
    assert_eq!(interpreter.is_truthy(&obj), false);
}

#[test]
fn test_is_truthy_string() {
    let obj = Object::Str("hello".to_string());
    let interpreter = Interpreter;
    assert_eq!(interpreter.is_truthy(&obj), true);
}

#[test]
fn test_is_truthy_empty_string() {
    let obj = Object::Str("".to_string());
    let interpreter = Interpreter;
    assert_eq!(interpreter.is_truthy(&obj), false);
}

#[test]
fn test_is_truthy_number() {
    let obj = Object::Num(Number::from_integer(42));
    let interpreter = Interpreter;
    assert_eq!(interpreter.is_truthy(&obj), true);
}

#[test]
fn test_is_truthy_number_zero() {
    let obj = Object::Num(Number::zero());
    let interpreter = Interpreter;
    assert_eq!(interpreter.is_truthy(&obj), false);
}

#[test]
fn test_is_equal_f64_equal() {
    let obj1 = Object::Num(Number::from_integer(42));
    let obj2 = Object::Num(Number::from_integer(42));
    let interpreter = Interpreter;
    assert!(interpreter.is_equal(&obj1, &obj2));
}

#[test]
fn test_is_equal_f64_not_equal() {
    let obj1 = Object::Num(Number::from_integer(42));
    let obj2 = Object::Num(Number::from_integer(43));
    let interpreter = Interpreter;
    assert!(!interpreter.is_equal(&obj1, &obj2));
}

#[test]
fn test_is_equal_string_equal() {
    let obj1 = Object::Str("hello".to_string());
    let obj2 = Object::Str("hello".to_string());
    let interpreter = Interpreter;
    assert!(interpreter.is_equal(&obj1, &obj2));
}

#[test]
fn test_is_equal_string_not_equal() {
    let obj1 = Object::Str("hello".to_string());
    let obj2 = Object::Str("world".to_string());
    let interpreter = Interpreter;
    assert!(!interpreter.is_equal(&obj1, &obj2));
}

#[test]
fn test_is_equal_bool_equal() {
    let obj1 = Object::Bool(true);
    let obj2 = Object::Bool(true);
    let interpreter = Interpreter;
    assert!(interpreter.is_equal(&obj1, &obj2));
}

#[test]
fn test_is_equal_bool_not_equal() {
    let obj1 = Object::Bool(true);
    let obj2 = Object::Bool(false);
    let interpreter = Interpreter;
    assert!(!interpreter.is_equal(&obj1, &obj2));
}

#[test]
fn test_is_equal_different_types() {
    let obj1 = Object::Num(Number::from_integer(42));
    let obj2 = Object::Str("42".to_string());
    let interpreter = Interpreter;
    assert!(!interpreter.is_equal(&obj1, &obj2));
}

#[test]
fn test_interpret_string_literal() {
    let literal_expr = str_lit("hello");
    let mut interpreter = Interpreter;
    let result = interpreter.interpret(&literal_expr).unwrap();
    assert_eq!(result.as_str().unwrap(), "hello");
}

#[test]
fn test_interpret_number_literal() {
    let literal_expr = num_lit(42);
    let mut interpreter = Interpreter;
    let result = interpreter.interpret(&literal_expr).unwrap();
    assert_eq!(result.as_num().unwrap(), Number::from_integer(42));
}

#[test]
fn test_interpret_boolean_true_literal() {
    let literal_expr = Expr::Literal(Box::new(LiteralExpr::Bool(true)));
    let mut interpreter = Interpreter;
    let result = interpreter.interpret(&literal_expr).unwrap();
    assert_eq!(result.as_bool().unwrap(), true);
}

#[test]
fn test_interpret_boolean_false_literal() {
    let literal_expr = Expr::Literal(Box::new(LiteralExpr::Bool(false)));
    let mut interpreter = Interpreter;
    let result = interpreter.interpret(&literal_expr).unwrap();
    assert_eq!(result.as_bool().unwrap(), false);
}

#[test]
fn test_interpret_nil_literal_is_nil_value() {
    let literal_expr = Expr::Literal(Box::new(LiteralExpr::Nil));
    let mut interpreter = Interpreter;
    let result = interpreter.interpret(&literal_expr).unwrap();
    assert!(result.is_nil());
}

#[test]
fn test_visit_grouping_expr_literal() {
    let grouping_expr = GroupingExpr { expr: Box::new(num_lit(42)) };
    let expr = Expr::Grouping(Box::new(grouping_expr));
    let mut interpreter = Interpreter;
    let result = interpreter.interpret(&expr).unwrap();
    assert_eq!(result.as_num().unwrap(), Number::from_integer(42));
}

#[test]
fn test_visit_grouping_expr_nested() {
    let grouping_expr = GroupingExpr { expr: Box::new(num_lit(42)) };
    let outer_grouping_expr = GroupingExpr {
        expr: Box::new(Expr::Grouping(Box::new(grouping_expr))),
    };
    let expr = Expr::Grouping(Box::new(outer_grouping_expr));
    let mut interpreter = Interpreter;
    let result = interpreter.interpret(&expr).unwrap();
    assert_eq!(result.as_num().unwrap(), Number::from_integer(42));
}

#[test]
fn test_interpret_unary_minus_operator_with_number() {
    let operator = Token::new(TokenType::Minus, "-".to_string(), None, 1);
    let expr = Expr::Unary(Box::new(UnaryExpr {
        operator: operator.clone(),
        right: Box::new(num_lit(42)),
    }));

    let mut interpreter = Interpreter;
    let result = interpreter.interpret(&expr).unwrap();
    assert_eq!(result.as_num().unwrap(), Number::from_integer(42).negated());
}

#[test]
fn test_interpret_unary_minus_operator_without_a_number() {
    let operator = Token::new(TokenType::Minus, "-".to_string(), None, 1);
    let expr = Expr::Unary(Box::new(UnaryExpr {
        operator: operator.clone(),
        right: Box::new(str_lit("not a number")),
    }));

    let mut interpreter = Interpreter;
    let err = interpreter.interpret(&expr).unwrap_err();
    assert_eq!(err.message, "Unary operand Str(\"not a number\") must be a number");
}

#[test]
fn test_interpret_unary_bang_operator_with_a_bool() {
    let operator = Token::new(TokenType::Bang, "!".to_string(), None, 1);
    let expr = Expr::Unary(Box::new(UnaryExpr {
        operator: operator.clone(),
        right: Box::new(Expr::Literal(Box::new(LiteralExpr::Bool(true)))),
    }));

    let mut interpreter = Interpreter;
    let result = interpreter.interpret(&expr).unwrap();
    assert_eq!(result.as_bool().unwrap(), false);
}

#[test]
fn test_interpret_unary_unknown_operator() {
    let operator = Token::new(TokenType::LeftParen, "(".to_string(), None, 1);
    let expr = Expr::Unary(Box::new(UnaryExpr {
        operator: operator.clone(),
        right: Box::new(num_lit(42)),
    }));

    let mut interpreter = Interpreter;
    let err = interpreter.interpret(&expr).unwrap_err();
    assert_eq!(err.message, "Unknown unary token type LeftParen");
}

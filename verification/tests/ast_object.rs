use lox_rs::ast::number::Number;
use lox_rs::ast::object::Object;

#[test]
fn test_create_object_with_f64() {
    let obj = Object::Num(Number::from_integer(17));
    assert!(obj.is_num());
}

#[test]
fn test_create_object_with_string() {
    let obj = Object::Str(String::from("Hello, world!"));
    assert!(obj.is_str());
}

#[test]
fn test_get_value_f64() {
    let obj = Object::Num(Number::from_integer(17));
    let value = obj.as_num().unwrap();
    assert_eq!(value, Number::from_integer(17));
}

#[test]
fn test_get_value_string() {
    let obj = Object::Str(String::from("Hello, world!"));
    let value = obj.as_str().unwrap();
    assert_eq!(value, "Hello, world!");
}

#[test]
fn test_get_value_on_wrong_type() {
    let obj = Object::Num(Number::from_integer(17));
    assert!(obj.as_str().is_none());
    assert!(obj.as_bool().is_none());
}

#[test]
fn test_new_with_f64() {
    let obj = Object::Num(Number::from_integer(17));
    assert_eq!(obj.as_num().unwrap(), Number::from_integer(17));
}

#[test]
fn test_new_with_string() {
    let obj = Object::Str(String::from("Hello, world!"));
    assert_eq!(obj.as_str().unwrap(), "Hello, world!");
}

#[test]
fn test_new_with_incorrect_type() {
    let obj = Object::Num(Number::from_integer(17));
    assert!(obj.as_bool().is_none());
}

#[test]
fn test_is_with_correct_type_f64() {
    let obj = Object::Num(Number::from_integer(17));
    assert!(obj.is_num());
}

#[test]
fn test_is_with_incorrect_type_f64() {
    let obj = Object::Num(Number::from_integer(17));
    assert!(!obj.is_bool());
}

#[test]
fn test_is_with_correct_type_string() {
    let obj = Object::Str(String::from("Hello"));
    assert!(obj.is_str());
}

#[test]
fn test_is_with_incorrect_type_string() {
    let obj = Object::Str(String::from("Hello"));
    assert!(!obj.is_num());
}

#[test]
fn test_is_with_correct_type_bool() {
    let obj = Object::Bool(true);
    assert!(obj.is_bool());
}

#[test]
fn test_is_with_incorrect_type_bool() {
    let obj = Object::Bool(true);
    assert!(!obj.is_nil());
}

#[test]
fn test_to_string_with_f64() {
    let obj = Object::Num(Number::from_integer(17));
    assert_eq!(obj.to_string(), "17");
}

#[test]
fn test_to_string_with_string() {
    let obj = Object::Str(String::from("Hello, world!"));
    assert_eq!(obj.to_string(), "Hello, world!");
}

#[test]
fn test_to_string_with_bool_true() {
    let obj = Object::Bool(true);
    assert_eq!(obj.to_string(), "true");
}

#[test]
fn test_to_string_with_bool_false() {
    let obj = Object::Bool(false);
    assert_eq!(obj.to_string(), "false");
}

#[test]
fn test_to_string_with_nil() {
    let obj = Object::Nil;
    assert_eq!(obj.to_string(), "nil");
}

#[test]
fn test_to_string_with_fraction() {
    let obj = Object::Num(Number::from_decimal(45, 67, 2).unwrap());
    assert_eq!(obj.to_string(), "45.67");
}

use lib::interpreter::error::InterpreterError;
use lib::interpreter::machine::main_result;
use lib::interpreter::parse_as::{parse_i32, IntErrorKind};
use lib::interpreter::value::{Computed, FloatWork, Value};
use lib::parser::ast::binary_expression::BinaryOp;
use lib::parser::token::literal::{Literal, NumericLiteral};
use lib::text::{push_decimal, push_signed_decimal, text_of};

fn as_i32(r: Result<Computed, InterpreterError>) -> i32 {
    match r {
        Ok(Computed::Value(Value::Int32(v))) => v,
        _ => panic!("expected an i32"),
    }
}

fn error(r: Result<Computed, InterpreterError>) -> String {
    match r {
        Err(e) => e.to_display_string(),
        Ok(_) => panic!("expected an error"),
    }
}

#[test]
fn integer_arithmetic_formulas() {
    let a = Value::Int32(17);
    let b = Value::Int32(5);
    assert_eq!(as_i32(a.add(&b)), 22);
    assert_eq!(as_i32(a.subtract(&b)), 12);
    assert_eq!(as_i32(a.multiply(&b)), 85);
    assert_eq!(as_i32(a.divide(&b)), 3);
    assert_eq!(as_i32(a.modulo(&b)), 2);
}

#[test]
fn division_truncates_toward_zero() {
    let a = Value::Int32(-7);
    let b = Value::Int32(2);
    assert_eq!(as_i32(a.divide(&b)), -3);
    assert_eq!(as_i32(a.modulo(&b)), -1);
}

#[test]
fn division_by_zero_is_an_error() {
    let r = Value::Int32(1).divide(&Value::Int32(0));
    assert_eq!(
        error(r),
        "Interpreter error for value: division by zero: Int32(1) / Int32(0)"
    );
    let r = Value::Int32(-4).modulo(&Value::Int32(0));
    assert_eq!(
        error(r),
        "Interpreter error for value: modulo by zero: Int32(-4) / Int32(0)"
    );
}

#[test]
fn min_divided_by_minus_one_is_an_error() {
    let r = Value::Int32(i32::MIN).divide(&Value::Int32(-1));
    assert!(error(r).contains("division by zero"));
}

#[test]
fn type_mismatch_is_an_error() {
    let r = Value::Int32(1).add(&Value::Unit);
    assert_eq!(
        error(r),
        "Interpreter error for value: add: type mismatch: \"i32\" != \"unit\""
    );
    let r = Value::Unit.subtract(&Value::Int32(1));
    assert_eq!(
        error(r),
        "Interpreter error for value: subtract: unit value, expected numeric"
    );
}

#[test]
fn float_arithmetic_is_handed_out() {
    let a = Value::Float32(1.5f32.to_bits());
    let b = Value::Float32(2.0f32.to_bits());
    match a.multiply(&b) {
        Ok(Computed::Float(FloatWork::Binary(BinaryOp::Mul, x, y))) => {
            assert_eq!(f32::from_bits(x), 1.5);
            assert_eq!(f32::from_bits(y), 2.0);
        },
        _ => panic!("expected float work"),
    }
}

#[test]
fn literal_values() {
    let lit = Literal::Numeric(NumericLiteral::from_str("42".to_string()));
    assert!(matches!(Value::from_literal(&lit), Ok(Computed::Value(Value::Int32(42)))));
    let lit = Literal::Numeric(NumericLiteral::from_str("2.5".to_string()));
    match Value::from_literal(&lit) {
        Ok(Computed::Float(FloatWork::Parse(t))) => assert_eq!(t, "2.5"),
        _ => panic!("expected float work"),
    }
    let lit = Literal::Numeric(NumericLiteral::from_str("99999999999".to_string()));
    match Value::from_literal(&lit) {
        Err(e) => assert_eq!(
            e.to_display_string(),
            "Interpreter error: ParseIntError { kind: PosOverflow }"
        ),
        _ => panic!("expected an overflow error"),
    }
}

#[test]
fn parse_i32_matches_std() {
    for text in ["0", "-0", "+7", "2147483647", "-2147483648", "2147483648", "-2147483649", "", "-", "+", "1a", " 1", "007"] {
        let expected = text.parse::<i32>();
        let got = parse_i32(text);
        match (expected, got) {
            (Ok(a), Ok(b)) => assert_eq!(a, b, "{}", text),
            (Err(_), Err(_)) => {},
            (a, b) => panic!("{}: {:?} vs {:?}", text, a, b),
        }
    }
    assert_eq!(parse_i32(""), Err(IntErrorKind::Empty));
    assert_eq!(parse_i32("12x"), Err(IntErrorKind::InvalidDigit));
    assert_eq!(parse_i32("2147483648"), Err(IntErrorKind::PosOverflow));
    assert_eq!(parse_i32("-2147483649"), Err(IntErrorKind::NegOverflow));
}

#[test]
fn truthiness() {
    assert_eq!(Value::Int32(0).is_truthy().ok(), Some(false));
    assert_eq!(Value::Int32(-3).is_truthy().ok(), Some(true));
    match Value::Unit.is_truthy() {
        Err(e) => assert_eq!(
            e.to_display_string(),
            "Interpreter error for value: unexpected value in truthy check: Unit"
        ),
        Ok(_) => panic!("unit has no truth"),
    }
}

#[test]
fn main_results() {
    assert_eq!(main_result(Value::Int32(7)).ok(), Some(7));
    match main_result(Value::Unit) {
        Err(e) => assert!(e.to_display_string().contains("main must return a value")),
        Ok(_) => panic!("unit is no result"),
    }
    match main_result(Value::Float32(0)) {
        Err(e) => assert!(e
            .to_display_string()
            .contains("invalid return value from main: Float32(bits 0)")),
        Ok(_) => panic!("a float is no result"),
    }
}

#[test]
fn decimal_spelling() {
    let mut s = String::new();
    push_decimal(&mut s, 0);
    push_decimal(&mut s, 1234567890);
    push_signed_decimal(&mut s, i32::MIN);
    assert_eq!(s, "01234567890-2147483648");
}

#[test]
fn text_of_copies_every_character() {
    assert_eq!(text_of("héllo, wörld"), "héllo, wörld");
    assert_eq!(text_of(""), "");
}

#[test]
fn error_prefix_and_kinds() {
    let e = InterpreterError::value_err("bad".to_string()).prefix("add: ".to_string());
    assert_eq!(e.to_display_string(), "Interpreter error for value: add: bad");
    let e = InterpreterError::internal_err("x".to_string());
    assert_eq!(e.to_display_string(), "Interpreter error: unimplemented: x");
    let e = InterpreterError::jit_err("y".to_string());
    assert_eq!(e.to_display_string(), "Interpreter error in jit compiler: y");
    let e = InterpreterError::unimplemented("z".to_string());
    assert_eq!(e.to_display_string(), "Interpreter error: unimplemented: z");
    let e = InterpreterError::generic_err("w".to_string());
    assert_eq!(e.to_display_string(), "Interpreter error: w");
}

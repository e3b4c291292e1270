//! Tokenizer tests: the fixed operator table, the variable-arity declare
//! runs, numeric literals, identifiers and the escapes.

use lamm_core::tokenizer::{get_dot_count, Num, Op, Token, TokenizeError};

fn one(src: &str) -> Token {
    let ts = Token::tokenize(src).unwrap();
    assert_eq!(ts.len(), 1);
    ts.into_iter().next().unwrap()
}

#[test]
fn operator_table() {
    let ops = [
        ("+", Op::Add),
        ("-", Op::Sub),
        ("*", Op::Mul),
        ("/", Op::Div),
        ("**", Op::Exp),
        ("%", Op::Mod),
        ("=", Op::Equ),
        (".", Op::LazyEqu),
        ("=>", Op::GlobalEqu),
        (".>", Op::LazyGlobalEqu),
        ("~", Op::Compose),
        (",", Op::Id),
        ("?", Op::If),
        ("??", Op::IfElse),
        ("==", Op::EqualTo),
        (">", Op::GreaterThan),
        (">=", Op::GreaterThanOrEqualTo),
        ("<", Op::LessThan),
        ("<=", Op::LessThanOrEqualTo),
        ("!", Op::Not),
    ];
    for (src, op) in ops {
        assert_eq!(one(src), Token::Operator(op), "token {src:?}");
    }
}

#[test]
fn dot_count_arity_encoding() {
    // `:` counts two, `.` counts one, over the characters after the head.
    assert_eq!(get_dot_count(&vec![]), 0);
    assert_eq!(get_dot_count(&vec!['.']), 1);
    assert_eq!(get_dot_count(&vec![':']), 2);
    assert_eq!(get_dot_count(&vec![':', '.']), 3);
    assert_eq!(get_dot_count(&vec![':', ':', '.']), 5);
    assert_eq!(get_dot_count(&vec!['x']), 0);
}

#[test]
fn declare_runs() {
    assert_eq!(one(":"), Token::Operator(Op::FunctionDeclare(1)));
    assert_eq!(one(":."), Token::Operator(Op::FunctionDeclare(2)));
    assert_eq!(one("::"), Token::Operator(Op::FunctionDeclare(3)));
    assert_eq!(one(":.."), Token::Operator(Op::FunctionDeclare(3)));
    assert!(matches!(
        Token::tokenize(":x"),
        Err(TokenizeError::InvalidDynamicOperator(_))
    ));
}

#[test]
fn numeric_literals() {
    assert_eq!(one("45"), Token::Scalar(Num::Int(45)));
    assert_eq!(one("0"), Token::Scalar(Num::Int(0)));
    assert_eq!(one("9223372036854775807"), Token::Scalar(Num::Int(i64::MAX)));
    assert_eq!(one("1.5"), Token::Scalar(Num::Float(1.5f64.to_bits())));
    assert_eq!(one("2e3"), Token::Scalar(Num::Float(2000.0f64.to_bits())));
    assert_eq!(one("1."), Token::Scalar(Num::Float(1.0f64.to_bits())));
    // Too big for an integer: falls over to a float.
    assert_eq!(
        one("99999999999999999999"),
        Token::Scalar(Num::Float(99999999999999999999f64.to_bits()))
    );
    assert!(matches!(
        Token::tokenize("1x"),
        Err(TokenizeError::InvalidNumericConstant(_))
    ));
    assert!(matches!(
        Token::tokenize("0x10"),
        Err(TokenizeError::InvalidNumericConstant(_))
    ));
}

#[test]
fn identifiers() {
    assert_eq!(one("abc"), Token::Identifier("abc".to_string()));
    assert_eq!(one("sum'range"), Token::Identifier("sum'range".to_string()));
    assert_eq!(one("x1_b"), Token::Identifier("x1_b".to_string()));
    assert!(matches!(
        Token::tokenize("ab@"),
        Err(TokenizeError::InvalidIdentifier(_))
    ));
    assert!(matches!(
        Token::tokenize("@"),
        Err(TokenizeError::UnableToMatchToken(_))
    ));
}

#[test]
fn backslash_escapes_operators() {
    // An escaped word skips the operator steps and reads as an
    // identifier or a number.
    assert_eq!(one("\\foo"), Token::Identifier("foo".to_string()));
    assert_eq!(one("\\12"), Token::Scalar(Num::Int(12)));
    assert!(matches!(
        Token::tokenize("\\+"),
        Err(TokenizeError::UnableToMatchToken(_))
    ));
}

#[test]
fn splitting_is_on_whitespace() {
    let ts = Token::tokenize("+ 1\n\t2").unwrap();
    assert_eq!(
        ts,
        vec![
            Token::Operator(Op::Add),
            Token::Scalar(Num::Int(1)),
            Token::Scalar(Num::Int(2)),
        ]
    );
    assert_eq!(Token::tokenize("").unwrap(), vec![]);
    assert_eq!(Token::tokenize("   ").unwrap(), vec![]);
}

#[test]
fn constructors() {
    assert_eq!(
        Token::identifier("x".to_string()),
        Token::Identifier("x".to_string())
    );
    assert_eq!(Token::scalar(Num::Int(3)), Token::Scalar(Num::Int(3)));
    assert_eq!(Token::operator(Op::Add), Token::Operator(Op::Add));
}

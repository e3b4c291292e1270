//! Value-level tests: the operator tables, truthiness, and rendering.

use lamm_core::value::{truthy, Value};

#[test]
fn add_table() {
    assert_eq!(
        Value::Int(2).add(Value::Int(3)),
        Some(Value::Int(5))
    );
    assert_eq!(
        Value::Int(1).add(Value::Float(2.5f64.to_bits())),
        Some(Value::Float(3.5f64.to_bits()))
    );
    assert_eq!(
        Value::Str("ab".to_string()).add(Value::Str("cd".to_string())),
        Some(Value::Str("abcd".to_string()))
    );
    assert_eq!(Value::Str("ab".to_string()).add(Value::Bool(true)), None);
    assert_eq!(Value::Nil.add(Value::Int(1)), None);
    // Integer addition wraps.
    assert_eq!(
        Value::Int(i64::MAX).add(Value::Int(1)),
        Some(Value::Int(i64::MIN))
    );
}

#[test]
fn sub_table() {
    assert_eq!(Value::Int(2).sub(Value::Int(3)), Some(Value::Int(-1)));
    assert_eq!(
        Value::Float(1.5f64.to_bits()).sub(Value::Int(1)),
        Some(Value::Float(0.5f64.to_bits()))
    );
    assert_eq!(
        Value::Str("a".to_string()).sub(Value::Str("a".to_string())),
        None
    );
}

#[test]
fn mul_table_and_string_repetition() {
    assert_eq!(Value::Int(6).mul(Value::Int(7)), Some(Value::Int(42)));
    // String times integer repeats; integer times string has no rule.
    assert_eq!(
        Value::Str("ab".to_string()).mul(Value::Int(3)),
        Some(Value::Str("ababab".to_string()))
    );
    assert_eq!(
        Value::Str("ab".to_string()).mul(Value::Int(0)),
        Some(Value::Str(String::new()))
    );
    assert_eq!(Value::Int(3).mul(Value::Str("ab".to_string())), None);
    assert_eq!(Value::Str("ab".to_string()).mul(Value::Int(-1)), None);
}

#[test]
fn div_table() {
    assert_eq!(Value::Int(7).div(Value::Int(2)), Some(Value::Int(3)));
    assert_eq!(Value::Int(-7).div(Value::Int(2)), Some(Value::Int(-3)));
    assert_eq!(Value::Int(1).div(Value::Int(0)), None);
    assert_eq!(
        Value::Int(i64::MIN).div(Value::Int(-1)),
        Some(Value::Int(i64::MIN))
    );
}

#[test]
fn exp_and_modulo() {
    assert_eq!(Value::Int(2).exp(Value::Int(10)), Some(Value::Int(1024)));
    assert_eq!(Value::Int(2).exp(Value::Float(2.0f64.to_bits())), None);
    assert_eq!(Value::Int(7).modulo(Value::Int(2)), Some(Value::Int(1)));
    assert_eq!(Value::Int(7).modulo(Value::Int(0)), None);
}

#[test]
fn comparisons_at_value_level() {
    assert_eq!(Value::Int(1).eq_value(&Value::Int(1)), Some(true));
    assert_eq!(
        Value::Int(1).eq_value(&Value::Float(1.0f64.to_bits())),
        Some(true)
    );
    assert_eq!(Value::Bool(true).eq_value(&Value::Bool(false)), Some(false));
    assert_eq!(
        Value::Str("a".to_string()).eq_value(&Value::Str("a".to_string())),
        Some(true)
    );
    assert_eq!(Value::Int(1).eq_value(&Value::Bool(true)), None);
    assert_eq!(Value::Int(1).lt_value(&Value::Int(2)), Some(true));
    assert_eq!(
        Value::Float(1.5f64.to_bits()).le_value(&Value::Int(2)),
        Some(true)
    );
}

#[test]
fn truthiness_of_each_kind() {
    assert!(!truthy(&Value::Int(0)));
    assert!(!truthy(&Value::Float(0.0f64.to_bits())));
    assert!(!truthy(&Value::Float((-0.0f64).to_bits())));
    assert!(!truthy(&Value::Str(String::new())));
    assert!(!truthy(&Value::Nil));
    assert!(!truthy(&Value::Bool(false)));
    assert!(truthy(&Value::Int(-3)));
    assert!(truthy(&Value::Float(0.5f64.to_bits())));
    assert!(truthy(&Value::Str("x".to_string())));
    assert!(truthy(&Value::Bool(true)));
}

#[test]
fn rendering() {
    assert_eq!(Value::Int(45).render(), "45");
    assert_eq!(Value::Int(-45).render(), "-45");
    assert_eq!(Value::Int(0).render(), "0");
    assert_eq!(Value::Int(i64::MIN).render(), "-9223372036854775808");
    assert_eq!(Value::Bool(true).render(), "true");
    assert_eq!(Value::Bool(false).render(), "false");
    assert_eq!(Value::Str("raw".to_string()).render(), "raw");
    assert_eq!(Value::Nil.render(), "nil");
    // Floats render through the software-float printer.
    assert_eq!(Value::Float(1.5f64.to_bits()).render(), "1.5");
    assert_eq!(Value::Float(0.0f64.to_bits()).render(), "0");
}

#[test]
fn string_operations_compose() {
    // Strings have no literal in the token vocabulary; the value tables
    // above are their runtime behaviour, and `render` prints them raw.
    assert_eq!(
        Value::Str("ab".to_string())
            .mul(Value::Int(2))
            .unwrap()
            .add(Value::Str("!".to_string())),
        Some(Value::Str("abab!".to_string()))
    );
}

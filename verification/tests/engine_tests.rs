//! Whole-engine tests: programs in, values or errors out.

use lamm_core::evaluate;
use lamm_core::executor::{Executor, RuntimeError};
use lamm_core::parser::{ParseError, Parser};
use lamm_core::tokenizer::Token;
use lamm_core::value::Value;
use lamm_core::EvalError;

fn run(src: &str) -> Result<Vec<Value>, EvalError> {
    evaluate(src, 100000)
}

fn run_one(src: &str) -> Value {
    let vs = run(src).expect("program failed");
    assert_eq!(vs.len(), 1);
    vs.into_iter().next().unwrap()
}

#[test]
fn recursion() {
    // If n < m, recurse with n + 1 and add; else the last value itself:
    // the inclusive sum 1 + 2 + ... + 10.
    let program = r#":. sum'range n m
                        ?? < n m
                            + n sum'range + n 1 m
                            n
                    sum'range 1 10"#;
    let tok = Token::tokenize(program).unwrap();
    let parse = Parser::new(tok);
    let mut run = Executor::new(parse);
    assert_eq!(run.next().unwrap().unwrap(), Value::Int(55));
}

#[test]
fn recursion_below_the_bound() {
    // The same shape with nothing added at the bound: 1 + 2 + ... + 9.
    let program = r#":. sum'below n m
                        ?? < n m
                            + n sum'below + n 1 m
                            0
                    sum'below 1 10"#;
    let tok = Token::tokenize(program).unwrap();
    let parse = Parser::new(tok);
    let mut run = Executor::new(parse);
    assert_eq!(run.next().unwrap().unwrap(), Value::Int(45));
}

#[test]
fn integer_arithmetic() {
    assert_eq!(run_one("+ 1 2"), Value::Int(3));
    assert_eq!(run_one("- 1 2"), Value::Int(-1));
    assert_eq!(run_one("* 6 7"), Value::Int(42));
    assert_eq!(run_one("/ 7 2"), Value::Int(3));
    assert_eq!(run_one("% 7 2"), Value::Int(1));
    assert_eq!(run_one("** 2 10"), Value::Int(1024));
}

#[test]
fn float_arithmetic_matches_hardware() {
    assert_eq!(run_one("+ 1.5 2.25"), Value::Float((1.5f64 + 2.25f64).to_bits()));
    assert_eq!(run_one("* 1.5 3"), Value::Float((1.5f64 * 3.0f64).to_bits()));
    assert_eq!(run_one("/ 1 3.0"), Value::Float((1.0f64 / 3.0f64).to_bits()));
    assert_eq!(run_one("% 7.5 2"), Value::Float((7.5f64 % 2.0f64).to_bits()));
    assert_eq!(run_one("- 1 0.5"), Value::Float(0.5f64.to_bits()));
}

#[test]
fn promotion_is_commutative_for_add_and_mul() {
    assert_eq!(run_one("+ 1 2.5"), run_one("+ 2.5 1"));
    assert_eq!(run_one("* 2 2.5"), run_one("* 2.5 2"));
    assert_eq!(run_one("+ 1 2.5"), Value::Float(3.5f64.to_bits()));
    assert_ne!(run_one("- 1 2.5"), run_one("- 2.5 1"));
    assert_ne!(run_one("/ 1 2.0"), run_one("/ 2.0 1"));
}

#[test]
fn comparisons() {
    assert_eq!(run_one("> 2 1"), Value::Bool(true));
    assert_eq!(run_one("< 2 1"), Value::Bool(false));
    assert_eq!(run_one(">= 2 2"), Value::Bool(true));
    assert_eq!(run_one("<= 2 1.5"), Value::Bool(false));
    assert_eq!(run_one("== 1 1.0"), Value::Bool(true));
    assert_eq!(run_one("== 1 2"), Value::Bool(false));
    assert_eq!(run_one("! == 1 2"), Value::Bool(true));
}

#[test]
fn division_by_zero_is_an_error() {
    assert!(matches!(
        run("/ 1 0"),
        Err(EvalError::Runtime(RuntimeError::DivisionByZero(_)))
    ));
    assert!(matches!(
        run("% 1 0"),
        Err(EvalError::Runtime(RuntimeError::DivisionByZero(_)))
    ));
    // A float divisor is fine: the result is the IEEE infinity.
    assert_eq!(run_one("/ 1 0.0"), Value::Float((1.0f64 / 0.0f64).to_bits()));
}

#[test]
fn no_overload_error_carries_the_operands() {
    match run("+ 1 == 1 1") {
        Err(EvalError::Runtime(RuntimeError::NoOverloadForTypes(op, vs))) => {
            assert_eq!(op, "+");
            assert_eq!(vs, vec![Value::Int(1), Value::Bool(true)]);
        },
        other => panic!("unexpected outcome: {other:?}"),
    }
}

#[test]
fn bindings_and_scopes() {
    assert_eq!(run_one("= x 2 + x 1"), Value::Int(3));
    assert_eq!(run_one(". x 2 + x 1"), Value::Int(3));
    assert_eq!(run_one(", 5"), Value::Int(5));
    assert_eq!(run_one("~ 1 2"), Value::Int(2));
}

#[test]
fn rebinding_fails_whatever_the_binding_was() {
    // Eager over eager.
    assert!(matches!(
        run("= x 1 = x 2 x"),
        Err(EvalError::Runtime(RuntimeError::ImmutableError(_)))
    ));
    // Lazy over eager.
    assert!(matches!(
        run("= x 1 . x 2 x"),
        Err(EvalError::Runtime(RuntimeError::ImmutableError(_)))
    ));
    // Function over eager.
    assert!(matches!(
        run("= f 1 : f a 2 9"),
        Err(EvalError::Runtime(RuntimeError::ImmutableError(_)))
    ));
    // Eager over function.
    assert!(matches!(
        run(": f a 2 = f 1 9"),
        Err(EvalError::Runtime(RuntimeError::ImmutableError(_)))
    ));
}

#[test]
fn lazy_binding_is_not_evaluated_until_read() {
    // The initializer reads an undefined name, but the binding is never
    // read, so the program succeeds.
    assert_eq!(run_one(". x oops 5"), Value::Int(5));
    // An eager binding with the same initializer fails at once.
    assert!(matches!(
        run("= x oops 5"),
        Err(EvalError::Runtime(RuntimeError::VariableUndefined(_)))
    ));
}

#[test]
fn lazy_binding_reads_its_own_scope() {
    // `x` is bound lazily to `y`; reading it inside a call whose
    // parameter shadows `y` still sees the `y` its binding saw, read it
    // once, or cached after an earlier read.
    let program = "= y 1 . x y ~ x : f y + x 0 f 2";
    assert_eq!(run_one(program), Value::Int(1));
}

#[test]
fn call_by_need_arguments() {
    // The argument reads an undefined name but is never used by the body.
    assert_eq!(run_one(": f a 7 f oops"), Value::Int(7));
}

#[test]
fn conditionals_short_circuit() {
    // The untaken branch calls an undefined name and must not run.
    assert_eq!(run_one("?? 1 42 oops"), Value::Int(42));
    assert_eq!(run_one("?? 0 oops 42"), Value::Int(42));
    assert_eq!(run_one("? 1 42"), Value::Int(42));
    assert_eq!(run_one("? 0 oops"), Value::Nil);
}

#[test]
fn truthiness_of_zero_values() {
    assert_eq!(run_one("? 0 5"), Value::Nil);
    assert_eq!(run_one("? 0.0 5"), Value::Nil);
    assert_eq!(run_one("? 1 5"), Value::Int(5));
    assert_eq!(run_one("? 0.5 5"), Value::Int(5));
    assert_eq!(run_one("?? == 1 1 7 8"), Value::Int(7));
    assert_eq!(run_one("?? == 1 2 7 8"), Value::Int(8));
}

#[test]
fn incomplete_programs_fail_with_unexpected_end() {
    for src in ["+", "+ 1", "= x", ". x 1", "?? 1 2", ":. f"] {
        match run(src) {
            Err(EvalError::Runtime(RuntimeError::ParseError(
                ParseError::UnexpectedEndInput,
            ))) => {},
            other => panic!("{src:?} gave {other:?}"),
        }
    }
}

#[test]
fn bind_forms_demand_an_identifier() {
    assert!(matches!(
        run("= 1 2 3"),
        Err(EvalError::Runtime(RuntimeError::ParseError(ParseError::InvalidIdentifier)))
    ));
}

#[test]
fn global_binds_are_unsupported() {
    assert!(matches!(
        run("=> x 1"),
        Err(EvalError::Runtime(RuntimeError::UnsupportedConstruct(_)))
    ));
    assert!(matches!(
        run(".> x 1"),
        Err(EvalError::Runtime(RuntimeError::UnsupportedConstruct(_)))
    ));
}

#[test]
fn calling_through_a_shadowing_parameter_fails() {
    // `h`'s parameter shadows the outer function `f`, so the call inside
    // `h`'s body finds a variable where a function is needed.
    assert!(matches!(
        run(": f x 7 : h f f 2 h 3"),
        Err(EvalError::Runtime(RuntimeError::FunctionUndeclared(_)))
    ));
}

#[test]
fn undefined_variable() {
    assert!(matches!(
        run("oops"),
        Err(EvalError::Runtime(RuntimeError::VariableUndefined(_)))
    ));
}

#[test]
fn lex_errors_stop_the_program() {
    assert!(matches!(run("@"), Err(EvalError::Lex(_))));
    assert!(matches!(run("+ 1 2 $"), Err(EvalError::Lex(_))));
}

#[test]
fn recursion_allowance_is_enforced() {
    // A definition that calls itself forever fails instead of diverging.
    assert!(matches!(
        evaluate(": f x f x f 1", 1000),
        Err(EvalError::Runtime(RuntimeError::RecursionLimit))
    ));
    // A tiny allowance fails even a small expression; enough succeeds.
    assert!(matches!(
        evaluate("+ 1 2", 1),
        Err(EvalError::Runtime(RuntimeError::RecursionLimit))
    ));
    assert_eq!(evaluate("+ 1 2", 2).unwrap(), vec![Value::Int(3)]);
}

#[test]
fn several_top_level_expressions() {
    let vs = run("+ 1 2 * 2 3").unwrap();
    assert_eq!(vs, vec![Value::Int(3), Value::Int(6)]);
    assert_eq!(run("").unwrap(), vec![]);
}

#[test]
fn function_scope_ends_with_its_continuation() {
    // Two top-level expressions: the second cannot see the function bound
    // inside the first, so the bare name is an undefined variable.
    assert!(matches!(
        run("~ : f x 1 9 f"),
        Err(EvalError::Runtime(RuntimeError::VariableUndefined(_)))
    ));
}

#[test]
fn strip_fences_cases() {
    assert_eq!(lamm_core::strip_fences("```\n+ 1 2```"), "+ 1 2");
    assert_eq!(lamm_core::strip_fences("```+ 1 2```"), "+ 1 2");
    assert_eq!(lamm_core::strip_fences("`+ 1 2`"), "+ 1 2");
    assert_eq!(lamm_core::strip_fences("+ 1 2"), "+ 1 2");
    assert_eq!(lamm_core::strip_fences("```+ 1 2"), "```+ 1 2");
    assert_eq!(lamm_core::strip_fences("```"), "```");
}

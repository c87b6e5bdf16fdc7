use minton::ast::{Expr, MintonType};
use minton::typechecker::TypeChecker;

fn num(v: i64) -> Expr {
    Expr::Integer(v)
}

fn lit(s: &str) -> Expr {
    Expr::Literal(s.to_string())
}

fn ident(s: &str) -> Expr {
    Expr::Identifier(s.to_string())
}

fn bin(l: Expr, op: &str, r: Expr) -> Expr {
    Expr::BinaryOP {
        left: Box::new(l),
        op: op.to_string(),
        right: Box::new(r),
    }
}

fn pipe(l: Expr, r: Expr) -> Expr {
    Expr::Pipeline {
        left: Box::new(l),
        right: Box::new(r),
    }
}

#[test]
fn integer_checks_to_int() {
    let checker = TypeChecker::new();
    assert_eq!(checker.check_expr(&num(7)), Ok(MintonType::Int));
}

#[test]
fn string_literal_checks_to_str() {
    let checker = TypeChecker::new();
    assert_eq!(checker.check_expr(&lit("hi")), Ok(MintonType::Str));
}

#[test]
fn arithmetic_over_ints_checks_to_int() {
    let checker = TypeChecker::new();
    for op in ["+", "-", "*", "/"] {
        assert_eq!(
            checker.check_expr(&bin(num(1), op, num(2))),
            Ok(MintonType::Int)
        );
    }
}

#[test]
fn grouped_example_checks_to_int() {
    let checker = TypeChecker::new();
    let e = bin(bin(num(2), "+", num(3)), "*", num(4));
    assert_eq!(checker.check_expr(&e), Ok(MintonType::Int));
}

#[test]
fn mixed_operands_fail_with_named_types() {
    let checker = TypeChecker::new();
    assert_eq!(
        checker.check_expr(&bin(num(1), "+", lit("a"))),
        Err("Type Error: Cannot perform '+' on Int and Str".to_string())
    );
    assert_eq!(
        checker.check_expr(&bin(lit("a"), "*", lit("b"))),
        Err("Type Error: Cannot perform '*' on Str and Str".to_string())
    );
}

#[test]
fn unknown_operator_is_reported() {
    let checker = TypeChecker::new();
    assert_eq!(
        checker.check_expr(&bin(num(1), "%", num(2))),
        Err("Unknown operator: %".to_string())
    );
}

#[test]
fn pipeline_into_print_checks_to_void() {
    let checker = TypeChecker::new();
    let e = pipe(bin(bin(num(2), "+", num(3)), "*", num(4)), ident("print"));
    assert_eq!(checker.check_expr(&e), Ok(MintonType::Void));
}

#[test]
fn pipeline_into_other_identifier_names_the_constraint() {
    let checker = TypeChecker::new();
    assert_eq!(
        checker.check_expr(&pipe(num(5), ident("foo"))),
        Err("Type Error: Right side of the pipeline must be a callable function".to_string())
    );
}

#[test]
fn pipeline_into_non_identifier_names_the_constraint() {
    let checker = TypeChecker::new();
    assert_eq!(
        checker.check_expr(&pipe(num(5), num(6))),
        Err("Type Error: Right side of the pipeline must be a callable function".to_string())
    );
}

#[test]
fn bare_print_checks_to_void() {
    let checker = TypeChecker::new();
    assert_eq!(checker.check_expr(&ident("print")), Ok(MintonType::Void));
}

#[test]
fn bare_other_identifier_is_undefined() {
    let checker = TypeChecker::new();
    assert_eq!(
        checker.check_expr(&ident("bar")),
        Err("Undefined identifier: bar".to_string())
    );
}

#[test]
fn first_failure_wins_inside_a_pipeline() {
    let checker = TypeChecker::new();
    let e = pipe(ident("mystery"), ident("print"));
    assert_eq!(
        checker.check_expr(&e),
        Err("Undefined identifier: mystery".to_string())
    );
}

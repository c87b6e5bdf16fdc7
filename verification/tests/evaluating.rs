use minton::ast::{Expr, Stmt};
use minton::evaluator::{eval_fits, Evaluator, Value};
use minton::text::{int_to_string, str_eq};

fn num(v: i64) -> Expr {
    Expr::Integer(v)
}

fn bin(l: Expr, op: &str, r: Expr) -> Expr {
    Expr::BinaryOP {
        left: Box::new(l),
        op: op.to_string(),
        right: Box::new(r),
    }
}

fn pipe(l: Expr, r: Expr) -> Expr {
    Expr::Pipeline {
        left: Box::new(l),
        right: Box::new(r),
    }
}

#[test]
fn arithmetic_evaluates_exactly() {
    let mut ev = Evaluator::new();
    assert!(matches!(
        ev.eval_expression(&bin(num(2), "+", num(3))),
        Value::Int(5)
    ));
    assert!(matches!(
        ev.eval_expression(&bin(num(2), "-", num(5))),
        Value::Int(-3)
    ));
    assert!(matches!(
        ev.eval_expression(&bin(num(6), "*", num(7))),
        Value::Int(42)
    ));
    assert!(matches!(
        ev.eval_expression(&bin(num(7), "/", num(2))),
        Value::Int(3)
    ));
    assert!(ev.output.is_empty());
}

#[test]
fn division_truncates_toward_zero() {
    let mut ev = Evaluator::new();
    let e = bin(bin(num(0), "-", num(7)), "/", num(2));
    assert!(matches!(ev.eval_expression(&e), Value::Int(-3)));
}

#[test]
fn grouping_example_evaluates_to_twenty() {
    let mut ev = Evaluator::new();
    let e = bin(bin(num(2), "+", num(3)), "*", num(4));
    assert!(matches!(ev.eval_expression(&e), Value::Int(20)));
}

#[test]
fn precedence_example_evaluates_to_fourteen() {
    let mut ev = Evaluator::new();
    let e = bin(num(2), "+", bin(num(3), "*", num(4)));
    assert!(matches!(ev.eval_expression(&e), Value::Int(14)));
}

#[test]
fn print_writes_the_decimal_string() {
    let mut ev = Evaluator::new();
    let e = pipe(bin(num(10), "-", num(3)), Expr::Identifier("print".to_string()));
    assert!(matches!(ev.eval_expression(&e), Value::Void));
    assert_eq!(ev.output, vec!["7".to_string()]);
}

#[test]
fn print_writes_string_content_verbatim() {
    let mut ev = Evaluator::new();
    let e = pipe(
        Expr::Literal("a\\nb".to_string()),
        Expr::Identifier("print".to_string()),
    );
    ev.eval_expression(&e);
    assert_eq!(ev.output, vec!["a\\nb".to_string()]);
}

#[test]
fn printing_a_void_value_writes_the_word_void() {
    let mut ev = Evaluator::new();
    let inner = pipe(num(5), Expr::Identifier("print".to_string()));
    let e = pipe(inner, Expr::Identifier("print".to_string()));
    ev.eval_expression(&e);
    assert_eq!(ev.output, vec!["5".to_string(), "void".to_string()]);
}

#[test]
fn unknown_operator_on_ints_yields_void_silently() {
    let mut ev = Evaluator::new();
    assert!(matches!(
        ev.eval_expression(&bin(num(1), "%", num(2))),
        Value::Void
    ));
    assert!(ev.output.is_empty());
}

#[test]
fn bare_identifier_falls_back_to_its_name() {
    let mut ev = Evaluator::new();
    match ev.eval_expression(&Expr::Identifier("print".to_string())) {
        Value::Str(s) => assert_eq!(s, "print"),
        other => panic!("expected the identifier's name, got {:?}", other),
    }
    assert!(ev.output.is_empty());
}

#[test]
fn eval_statement_runs_its_expression() {
    let mut ev = Evaluator::new();
    let stmt = Stmt::Expression(pipe(num(9), Expr::Identifier("print".to_string())));
    ev.eval_statement(stmt);
    assert_eq!(ev.output, vec!["9".to_string()]);
}

#[test]
fn eval_fits_rejects_division_by_zero() {
    assert!(!eval_fits(&bin(num(1), "/", num(0))));
    assert!(eval_fits(&bin(num(1), "/", num(2))));
}

#[test]
fn eval_fits_rejects_overflow() {
    assert!(!eval_fits(&bin(num(i64::MAX), "+", num(1))));
    assert!(!eval_fits(&bin(num(i64::MIN), "/", num(-1))));
    assert!(eval_fits(&bin(num(i64::MAX), "+", num(0))));
}

#[test]
fn renders_integers_in_decimal() {
    assert_eq!(int_to_string(0), "0");
    assert_eq!(int_to_string(20), "20");
    assert_eq!(int_to_string(-3), "-3");
    assert_eq!(int_to_string(i64::MAX), "9223372036854775807");
    assert_eq!(int_to_string(i64::MIN), "-9223372036854775808");
}

#[test]
fn string_equality_compares_characters() {
    assert!(str_eq("print", "print"));
    assert!(!str_eq("print", "prin"));
    assert!(!str_eq("print", "prynt"));
    assert!(str_eq("", ""));
}

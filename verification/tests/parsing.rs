use minton::ast::{Expr, Stmt};
use minton::lexer::Lexer;
use minton::parser::Parser;

fn parse(src: &str) -> Vec<Stmt> {
    let lexer = Lexer::new(src);
    let mut parser = Parser::new(lexer);
    parser.parse_program().statements
}

fn expr_of(stmt: &Stmt) -> &Expr {
    let Stmt::Expression(e) = stmt;
    e
}

#[test]
fn product_binds_tighter_than_sum() {
    let stmts = parse("2+3*4;");
    assert_eq!(stmts.len(), 1);
    match expr_of(&stmts[0]) {
        Expr::BinaryOP { left, op, right } => {
            assert_eq!(op, "+");
            assert!(matches!(**left, Expr::Integer(2)));
            match &**right {
                Expr::BinaryOP { left, op, right } => {
                    assert_eq!(op, "*");
                    assert!(matches!(**left, Expr::Integer(3)));
                    assert!(matches!(**right, Expr::Integer(4)));
                }
                other => panic!("expected a product on the right, got {:?}", other),
            }
        }
        other => panic!("expected a sum at the top, got {:?}", other),
    }
}

#[test]
fn parentheses_override_precedence() {
    let stmts = parse("(2+3)*4;");
    assert_eq!(stmts.len(), 1);
    match expr_of(&stmts[0]) {
        Expr::BinaryOP { left, op, right } => {
            assert_eq!(op, "*");
            assert!(matches!(**right, Expr::Integer(4)));
            match &**left {
                Expr::BinaryOP { left, op, right } => {
                    assert_eq!(op, "+");
                    assert!(matches!(**left, Expr::Integer(2)));
                    assert!(matches!(**right, Expr::Integer(3)));
                }
                other => panic!("expected a sum inside the group, got {:?}", other),
            }
        }
        other => panic!("expected a product at the top, got {:?}", other),
    }
}

#[test]
fn equal_precedence_associates_left() {
    let stmts = parse("1-2-3;");
    assert_eq!(stmts.len(), 1);
    match expr_of(&stmts[0]) {
        Expr::BinaryOP { left, op, right } => {
            assert_eq!(op, "-");
            assert!(matches!(**right, Expr::Integer(3)));
            match &**left {
                Expr::BinaryOP { left, op, right } => {
                    assert_eq!(op, "-");
                    assert!(matches!(**left, Expr::Integer(1)));
                    assert!(matches!(**right, Expr::Integer(2)));
                }
                other => panic!("expected the left sum first, got {:?}", other),
            }
        }
        other => panic!("expected a difference at the top, got {:?}", other),
    }
}

#[test]
fn pipeline_composes_left_to_right() {
    let stmts = parse("5 | print | print;");
    assert_eq!(stmts.len(), 1);
    match expr_of(&stmts[0]) {
        Expr::Pipeline { left, right } => {
            assert!(matches!(&**right, Expr::Identifier(n) if n == "print"));
            match &**left {
                Expr::Pipeline { left, right } => {
                    assert!(matches!(**left, Expr::Integer(5)));
                    assert!(matches!(&**right, Expr::Identifier(n) if n == "print"));
                }
                other => panic!("expected an inner pipeline, got {:?}", other),
            }
        }
        other => panic!("expected a pipeline at the top, got {:?}", other),
    }
}

#[test]
fn missing_close_paren_drops_the_statement() {
    let stmts = parse("(2+3;");
    assert_eq!(stmts.len(), 0);
}

#[test]
fn statements_are_parsed_in_order() {
    let stmts = parse("1; 2; 3;");
    assert_eq!(stmts.len(), 3);
    assert!(matches!(expr_of(&stmts[0]), Expr::Integer(1)));
    assert!(matches!(expr_of(&stmts[1]), Expr::Integer(2)));
    assert!(matches!(expr_of(&stmts[2]), Expr::Integer(3)));
}

#[test]
fn final_semicolon_is_optional() {
    let stmts = parse("7");
    assert_eq!(stmts.len(), 1);
    assert!(matches!(expr_of(&stmts[0]), Expr::Integer(7)));
}

#[test]
fn string_literal_parses_to_a_literal_node() {
    let stmts = parse("\"hi\";");
    assert_eq!(stmts.len(), 1);
    assert!(matches!(expr_of(&stmts[0]), Expr::Literal(s) if s == "hi"));
}

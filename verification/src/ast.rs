//! Abstract syntax for the expression language, together with its
//! mathematical model.
//!
//! The executable tree (`Expr`, `Stmt`, `Program`) carries `String` fields;
//! the spec-level tree `ExprS` carries their views (`Seq<char>`), so that
//! contracts over parsing, checking and evaluation can be stated purely
//! mathematically.  `expr_view` maps one onto the other.

use vstd::prelude::*;

verus! {

/// The static types of the language.  `Bool` is reserved for a boolean
/// extension of the grammar; no current expression form produces it.
#[derive(Debug, Clone, Copy, PartialEq, Eq, Structural)]
pub enum MintonType {
    Int,
    Str,
    Void,
    Bool,
}

/// An expression tree node.  Trees are finite and acyclic; each child is
/// exclusively owned by its parent.
#[derive(Debug)]
pub enum Expr {
    /// A string literal, stored verbatim.
    Literal(String),
    /// An integer literal.
    Integer(i64),
    /// A bare identifier.
    Identifier(String),
    /// An arithmetic application `left op right`; `op` holds the operator
    /// text, `"+"`, `"-"`, `"*"` or `"/"` when produced by the parser.
    BinaryOP { left: Box<Expr>, op: String, right: Box<Expr> },
    /// The pipeline `left | right`: `left` is evaluated and its value is fed
    /// to the action named by `right`.
    Pipeline { left: Box<Expr>, right: Box<Expr> },
}

/// A statement; currently a statement is exactly one expression.
pub enum Stmt {
    Expression(Expr),
}

/// An ordered sequence of statements; the order is execution order.
pub struct Program {
    pub statements: Vec<Stmt>,
}

/// The spec-level expression tree: `Expr` with every string replaced by its
/// view.
#[verifier::ext_equal]
pub enum ExprS {
    Lit(Seq<char>),
    Int(i64),
    Ident(Seq<char>),
    Bin { left: Box<ExprS>, op: Seq<char>, right: Box<ExprS> },
    Pipe { left: Box<ExprS>, right: Box<ExprS> },
}

/// The model of an executable expression tree.
pub open spec fn expr_view(e: Expr) -> ExprS
    decreases e,
{
    match e {
        Expr::Literal(s) => ExprS::Lit(s@),
        Expr::Integer(v) => ExprS::Int(v),
        Expr::Identifier(s) => ExprS::Ident(s@),
        Expr::BinaryOP { left, op, right } => ExprS::Bin {
            left: Box::new(expr_view(*left)),
            op: op@,
            right: Box::new(expr_view(*right)),
        },
        Expr::Pipeline { left, right } => ExprS::Pipe {
            left: Box::new(expr_view(*left)),
            right: Box::new(expr_view(*right)),
        },
    }
}

/// The model of a statement: the expression it consists of.
pub open spec fn stmt_view(s: Stmt) -> ExprS {
    match s {
        Stmt::Expression(e) => expr_view(e),
    }
}

/// The model of a program: its statements' expressions, in execution order.
pub open spec fn prog_view(p: Program) -> Seq<ExprS> {
    p.statements@.map_values(|s: Stmt| stmt_view(s))
}

} // verus!

//! Static type checking: a pure bottom-up walk assigning each expression a
//! `MintonType` or a descriptive error text.
//!
//! `check_spec` is the mathematical description, down to the exact error
//! messages; `TypeChecker::check_expr` is proved to follow it.

use vstd::prelude::*;
use vstd::string::StringExecFns;

use crate::ast::{expr_view, Expr, ExprS, MintonType};
use crate::text::str_eq;

verus! {

/// The printed text of a static type.
pub open spec fn minton_type_text(t: MintonType) -> Seq<char> {
    match t {
        MintonType::Int => "Int"@,
        MintonType::Str => "Str"@,
        MintonType::Void => "Void"@,
        MintonType::Bool => "Bool"@,
    }
}

/// Whether `op` is one of the four arithmetic operators.
pub open spec fn is_arith_op(op: Seq<char>) -> bool {
    op == "+"@ || op == "-"@ || op == "*"@ || op == "/"@
}

/// The error text for an arithmetic operator applied outside Int × Int.
pub open spec fn msg_mismatch(op: Seq<char>, lt: MintonType, rt: MintonType) -> Seq<char> {
    "Type Error: Cannot perform '"@ + op + "' on "@ + minton_type_text(lt) + " and "@ + minton_type_text(rt)
}

/// The error text for an operator the checker does not know.
pub open spec fn msg_unknown_op(op: Seq<char>) -> Seq<char> {
    "Unknown operator: "@ + op
}

/// The error text for a pipeline whose right side is not the callable
/// `print`.
pub open spec fn msg_pipeline() -> Seq<char> {
    "Type Error: Right side of the pipeline must be a callable function"@
}

/// The error text for an identifier the checker does not know.
pub open spec fn msg_undefined(name: Seq<char>) -> Seq<char> {
    "Undefined identifier: "@ + name
}

/// The static type of an expression, or the error text the checker
/// reports.  The first failure in left-to-right order wins.
pub open spec fn check_spec(e: ExprS) -> Result<MintonType, Seq<char>>
    decreases e,
{
    match e {
        ExprS::Int(_) => Ok(MintonType::Int),
        ExprS::Lit(_) => Ok(MintonType::Str),
        ExprS::Bin { left, op, right } => match check_spec(*left) {
            Err(m) => Err(m),
            Ok(lt) => match check_spec(*right) {
                Err(m) => Err(m),
                Ok(rt) => if is_arith_op(op) {
                    if lt == MintonType::Int && rt == MintonType::Int {
                        Ok(MintonType::Int)
                    } else {
                        Err(msg_mismatch(op, lt, rt))
                    }
                } else {
                    Err(msg_unknown_op(op))
                },
            },
        },
        ExprS::Pipe { left, right } => match check_spec(*left) {
            Err(m) => Err(m),
            Ok(_) => match *right {
                ExprS::Ident(name) => if name == "print"@ {
                    Ok(MintonType::Void)
                } else {
                    Err(msg_pipeline())
                },
                _ => Err(msg_pipeline()),
            },
        },
        ExprS::Ident(name) => if name == "print"@ {
            Ok(MintonType::Void)
        } else {
            Err(msg_undefined(name))
        },
    }
}

/// Piping into anything that is not the identifier `print` fails with the
/// fixed text naming the pipeline's right-hand-side constraint, whenever
/// the left side itself checks.
pub proof fn lemma_pipeline_rhs_constraint(l: ExprS, r: ExprS)
    requires
        match r {
            ExprS::Ident(n) => n != "print"@,
            _ => true,
        },
        check_spec(l) is Ok,
    ensures
        check_spec(ExprS::Pipe { left: Box::new(l), right: Box::new(r) }) == Err::<
            MintonType,
            Seq<char>,
        >(msg_pipeline()),
{
}

/// An identifier other than `print`, standing alone, fails as undefined,
/// under the text that names it.
pub proof fn lemma_undefined_identifier(name: Seq<char>)
    requires
        name != "print"@,
    ensures
        check_spec(ExprS::Ident(name)) == Err::<MintonType, Seq<char>>(msg_undefined(name)),
{
}

fn minton_type_text_str(t: MintonType) -> (s: &'static str)
    ensures
        s@ == minton_type_text(t),
{
    match t {
        MintonType::Int => "Int",
        MintonType::Str => "Str",
        MintonType::Void => "Void",
        MintonType::Bool => "Bool",
    }
}

fn mismatch_message(op: &String, lt: MintonType, rt: MintonType) -> (m: String)
    ensures
        m@ == msg_mismatch(op@, lt, rt),
{
    let s = "Type Error: Cannot perform '".to_owned();
    let s = s.concat(op.as_str());
    let s = s.concat("' on ");
    let s = s.concat(minton_type_text_str(lt));
    let s = s.concat(" and ");
    let s = s.concat(minton_type_text_str(rt));
    s
}

fn unknown_op_message(op: &String) -> (m: String)
    ensures
        m@ == msg_unknown_op(op@),
{
    let s = "Unknown operator: ".to_owned();
    s.concat(op.as_str())
}

fn undefined_message(name: &String) -> (m: String)
    ensures
        m@ == msg_undefined(name@),
{
    let s = "Undefined identifier: ".to_owned();
    s.concat(name.as_str())
}

/// The type checker.  It keeps no state: checking is a pure recursive
/// function of the expression.
pub struct TypeChecker;

impl TypeChecker {
    /// Builds a checker.
    pub fn new() -> (c: TypeChecker) {
        TypeChecker
    }

    /// Assigns `expr` its static type, or reports the first type error as
    /// a value, exactly as `check_spec` describes.
    pub fn check_expr(&self, expr: &Expr) -> (r: Result<MintonType, String>)
        ensures
            match (r, check_spec(expr_view(*expr))) {
                (Ok(t1), Ok(t2)) => t1 == t2,
                (Err(m1), Err(m2)) => m1@ == m2,
                _ => false,
            },
        decreases expr,
    {
        match expr {
            Expr::Integer(_) => Ok(MintonType::Int),
            Expr::Literal(_) => Ok(MintonType::Str),
            Expr::BinaryOP { left, op, right } => {
                let lt = match self.check_expr(&**left) {
                    Err(m) => {
                        return Err(m);
                    },
                    Ok(t) => t,
                };
                let rt = match self.check_expr(&**right) {
                    Err(m) => {
                        return Err(m);
                    },
                    Ok(t) => t,
                };
                let arith = str_eq(op.as_str(), "+") || str_eq(op.as_str(), "-") || str_eq(
                    op.as_str(),
                    "*",
                ) || str_eq(op.as_str(), "/");
                proof {
                    assert(check_spec(expr_view(*expr)) == (if is_arith_op(op@) {
                        if lt == MintonType::Int && rt == MintonType::Int {
                            Ok::<MintonType, Seq<char>>(MintonType::Int)
                        } else {
                            Err::<MintonType, Seq<char>>(msg_mismatch(op@, lt, rt))
                        }
                    } else {
                        Err::<MintonType, Seq<char>>(msg_unknown_op(op@))
                    }));
                }
                if arith {
                    if lt == MintonType::Int && rt == MintonType::Int {
                        Ok(MintonType::Int)
                    } else {
                        Err(mismatch_message(op, lt, rt))
                    }
                } else {
                    Err(unknown_op_message(op))
                }
            },
            Expr::Pipeline { left, right } => {
                match self.check_expr(&**left) {
                    Err(m) => {
                        return Err(m);
                    },
                    Ok(_) => {},
                }
                proof {
                    assert(check_spec(expr_view(*expr)) == (match expr_view(**right) {
                        ExprS::Ident(name) => if name == "print"@ {
                            Ok::<MintonType, Seq<char>>(MintonType::Void)
                        } else {
                            Err::<MintonType, Seq<char>>(msg_pipeline())
                        },
                        _ => Err::<MintonType, Seq<char>>(msg_pipeline()),
                    }));
                }
                match &**right {
                    Expr::Identifier(name) => if str_eq(name.as_str(), "print") {
                        Ok(MintonType::Void)
                    } else {
                        Err(pipeline_message())
                    },
                    _ => Err(pipeline_message()),
                }
            },
            Expr::Identifier(name) => if str_eq(name.as_str(), "print") {
                Ok(MintonType::Void)
            } else {
                Err(undefined_message(name))
            },
        }
    }
}

fn pipeline_message() -> (m: String)
    ensures
        m@ == msg_pipeline(),
{
    "Type Error: Right side of the pipeline must be a callable function".to_owned()
}

} // verus!

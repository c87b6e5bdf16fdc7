//! Evaluation: a top-down tree walk computing runtime values and collecting
//! the lines that `print` writes.
//!
//! `eval_spec` gives the value and the output of every expression over
//! unbounded integers; `eval_ok` says when that evaluation stays inside
//! `i64` and never divides by zero — any other expression ends a run in a
//! fatal arithmetic fault, so `eval_expression` asks for
//! `eval_ok` and `eval_fits` decides it.  Printing is modelled by the
//! growing `output` vector: each print action appends one line.

use vstd::prelude::*;
use vstd::string::StringExecFns;

use crate::ast::{expr_view, stmt_view, Expr, ExprS, MintonType, Stmt};
use crate::text::{dec_str, int_to_string, str_eq};
use crate::typechecker::{check_spec, is_arith_op};

verus! {

/// A runtime value.
#[derive(Debug, Clone)]
pub enum Value {
    Int(i64),
    Str(String),
    Void,
}

/// The spec-level value: integers unbounded, strings as views.
#[verifier::ext_equal]
pub enum ValS {
    Int(int),
    Str(Seq<char>),
    Void,
}

/// The model of a runtime value.
pub open spec fn val_view(v: Value) -> ValS {
    match v {
        Value::Int(i) => ValS::Int(i as int),
        Value::Str(s) => ValS::Str(s@),
        Value::Void => ValS::Void,
    }
}

/// Integer division truncating toward zero, as the `/` of `i64` divides.
pub open spec fn div_trunc(x: int, d: int) -> int
    recommends
        d != 0,
{
    if x == 0 {
        0
    } else if x > 0 && d > 0 {
        x / d
    } else if x < 0 && d < 0 {
        (x * -1) / (d * -1)
    } else if x < 0 {
        ((x * -1) / d) * -1
    } else {
        (x / (d * -1)) * -1
    }
}

/// The exact arithmetic result of applying one of the four operators to
/// two integers.
pub open spec fn arith_value(op: Seq<char>, a: int, b: int) -> int
    recommends
        is_arith_op(op),
{
    if op == "+"@ {
        a + b
    } else if op == "-"@ {
        a - b
    } else if op == "*"@ {
        a * b
    } else if op == "/"@ {
        div_trunc(a, b)
    } else {
        0
    }
}

/// Whether applying `op` to two integers is free of faults: no zero
/// divisor, and a result `i64` can hold.
pub open spec fn arith_defined(op: Seq<char>, a: int, b: int) -> bool {
    &&& (op == "/"@ ==> b != 0)
    &&& i64::MIN <= arith_value(op, a, b) <= i64::MAX
}

/// The line `print` writes for a value: integers in decimal, strings as
/// they are, and the literal text `void`.
pub open spec fn render(v: ValS) -> Seq<char> {
    match v {
        ValS::Int(i) => dec_str(i),
        ValS::Str(s) => s,
        ValS::Void => "void"@,
    }
}

/// The lines a pipeline action writes when handed `input`: one line when
/// the action is the identifier `print`, nothing otherwise.
pub open spec fn pipe_out(input: ValS, action: ExprS) -> Seq<Seq<char>> {
    match action {
        ExprS::Ident(name) => if name == "print"@ {
            seq![render(input)]
        } else {
            Seq::empty()
        },
        _ => Seq::empty(),
    }
}

/// The value of an expression and the lines its evaluation writes, in
/// order.  A binary application of anything but two integers, or of an
/// operator that is not one of the four, yields `Void` silently.  A
/// pipeline evaluates its left side, hands the value to the action on its
/// right, and yields `Void`; a bare identifier falls back to a string
/// holding its own name.
pub open spec fn eval_spec(e: ExprS) -> (ValS, Seq<Seq<char>>)
    decreases e,
{
    match e {
        ExprS::Int(v) => (ValS::Int(v as int), Seq::empty()),
        ExprS::Lit(s) => (ValS::Str(s), Seq::empty()),
        ExprS::Ident(n) => (ValS::Str(n), Seq::empty()),
        ExprS::Bin { left, op, right } => {
            let (lv, lo) = eval_spec(*left);
            let (rv, ro) = eval_spec(*right);
            match (lv, rv) {
                (ValS::Int(a), ValS::Int(b)) => if is_arith_op(op) {
                    (ValS::Int(arith_value(op, a, b)), lo + ro)
                } else {
                    (ValS::Void, lo + ro)
                },
                _ => (ValS::Void, lo + ro),
            }
        },
        ExprS::Pipe { left, right } => {
            let (lv, lo) = eval_spec(*left);
            (ValS::Void, lo + pipe_out(lv, *right))
        },
    }
}

/// Whether evaluating `e` stays free of arithmetic faults: every binary
/// application of integers is defined, all the way down.  An expression
/// without this ends a run fatally.
pub open spec fn eval_ok(e: ExprS) -> bool
    decreases e,
{
    match e {
        ExprS::Int(_) => true,
        ExprS::Lit(_) => true,
        ExprS::Ident(_) => true,
        ExprS::Bin { left, op, right } => {
            &&& eval_ok(*left)
            &&& eval_ok(*right)
            &&& match (eval_spec(*left).0, eval_spec(*right).0) {
                (ValS::Int(a), ValS::Int(b)) => arith_defined(op, a, b),
                _ => true,
            }
        },
        ExprS::Pipe { left, right } => eval_ok(*left),
    }
}

/// The evaluator: its only state is the output it has written, one line
/// per print action.
pub struct Evaluator {
    pub output: Vec<String>,
}

impl Evaluator {
    /// The lines written so far.
    pub open spec fn out(&self) -> Seq<Seq<char>> {
        self.output@.map_values(|s: String| s@)
    }

    /// Builds an evaluator that has written nothing.
    pub fn new() -> (e: Evaluator)
        ensures
            e.out() == Seq::<Seq<char>>::empty(),
    {
        let e = Evaluator { output: Vec::new() };
        proof {
            assert(e.out() =~= Seq::<Seq<char>>::empty());
        }
        e
    }

    /// Evaluates the statement's expression for its effect on the output.
    pub fn eval_statement(&mut self, stmt: Stmt)
        requires
            eval_ok(stmt_view(stmt)),
        ensures
            final(self).out() == old(self).out() + eval_spec(stmt_view(stmt)).1,
    {
        match stmt {
            Stmt::Expression(expr) => {
                self.eval_expression(&expr);
            },
        }
    }

    /// Evaluates `expr`, writing the lines its pipelines print and
    /// returning exactly the value `eval_spec` gives it.
    pub fn eval_expression(&mut self, expr: &Expr) -> (v: Value)
        requires
            eval_ok(expr_view(*expr)),
        ensures
            val_view(v) == eval_spec(expr_view(*expr)).0,
            final(self).out() == old(self).out() + eval_spec(expr_view(*expr)).1,
        decreases expr,
    {
        match expr {
            Expr::Integer(v) => {
                proof {
                    assert(old(self).out() + eval_spec(expr_view(*expr)).1 =~= old(self).out());
                }
                Value::Int(*v)
            },
            Expr::Literal(s) => {
                proof {
                    assert(old(self).out() + eval_spec(expr_view(*expr)).1 =~= old(self).out());
                }
                Value::Str(s.clone())
            },
            Expr::Identifier(n) => {
                proof {
                    assert(old(self).out() + eval_spec(expr_view(*expr)).1 =~= old(self).out());
                }
                Value::Str(n.clone())
            },
            Expr::BinaryOP { left, op, right } => {
                let ghost lspec = eval_spec(expr_view(**left));
                let ghost rspec = eval_spec(expr_view(**right));
                let left_val = self.eval_expression(&**left);
                let right_val = self.eval_expression(&**right);
                proof {
                    assert(old(self).out() + (lspec.1 + rspec.1) =~= (old(self).out() + lspec.1)
                        + rspec.1);
                }
                match (left_val, right_val) {
                    (Value::Int(l), Value::Int(r)) => {
                        if str_eq(op.as_str(), "+") {
                            Value::Int(l + r)
                        } else if str_eq(op.as_str(), "-") {
                            Value::Int(l - r)
                        } else if str_eq(op.as_str(), "*") {
                            Value::Int(l * r)
                        } else if str_eq(op.as_str(), "/") {
                            match l.checked_div(r) {
                                Some(q) => Value::Int(q),
                                None => {
                                    proof {
                                        assert(false);
                                    }
                                    Value::Int(0)
                                },
                            }
                        } else {
                            Value::Void
                        }
                    },
                    _ => Value::Void,
                }
            },
            Expr::Pipeline { left, right } => {
                let ghost lspec = eval_spec(expr_view(**left));
                let input = self.eval_expression(&**left);
                let v = self.execute_pipeline(input, &**right);
                proof {
                    assert(old(self).out() + (lspec.1 + pipe_out(lspec.0, expr_view(**right)))
                        =~= (old(self).out() + lspec.1) + pipe_out(lspec.0, expr_view(**right)));
                }
                v
            },
        }
    }

    /// Hands `input` to the action `action` names: the identifier `print`
    /// writes the value's text as one line; anything else discards the
    /// input.  A pipeline always yields `Void`.
    fn execute_pipeline(&mut self, input: Value, action: &Expr) -> (v: Value)
        ensures
            val_view(v) == ValS::Void,
            final(self).out() == old(self).out() + pipe_out(val_view(input), expr_view(*action)),
    {
        let ghost iview = val_view(input);
        if let Expr::Identifier(name) = action {
            if str_eq(name.as_str(), "print") {
                let line: String = match input {
                    Value::Int(v) => int_to_string(v),
                    Value::Str(v) => v,
                    Value::Void => "void".to_owned(),
                };
                let ghost before = self.out();
                self.output.push(line);
                proof {
                    assert(self.out() =~= before.push(render(iview)));
                    assert(before + pipe_out(iview, expr_view(*action)) =~= before.push(
                        render(iview),
                    ));
                }
                return Value::Void;
            }
        }
        proof {
            assert(old(self).out() + pipe_out(iview, expr_view(*action)) =~= old(self).out());
        }
        Value::Void
    }
}

/// Evaluates `expr` without effects, answering its value when evaluation
/// is free of arithmetic faults and nothing otherwise.
fn try_eval_value(expr: &Expr) -> (r: Option<Value>)
    ensures
        match r {
            Some(v) => eval_ok(expr_view(*expr)) && val_view(v) == eval_spec(expr_view(*expr)).0,
            None => !eval_ok(expr_view(*expr)),
        },
    decreases expr,
{
    match expr {
        Expr::Integer(v) => Some(Value::Int(*v)),
        Expr::Literal(s) => Some(Value::Str(s.clone())),
        Expr::Identifier(n) => Some(Value::Str(n.clone())),
        Expr::BinaryOP { left, op, right } => {
            let lv = match try_eval_value(&**left) {
                None => {
                    return None;
                },
                Some(v) => v,
            };
            let rv = match try_eval_value(&**right) {
                None => {
                    return None;
                },
                Some(v) => v,
            };
            proof {
                reveal_strlit("+");
                reveal_strlit("-");
                reveal_strlit("*");
                reveal_strlit("/");
                assert("+"@[0] == '+');
                assert("-"@[0] == '-');
                assert("*"@[0] == '*');
                assert("/"@[0] == '/');
                assert(eval_ok(expr_view(*expr)) == (eval_ok(expr_view(**left)) && eval_ok(
                    expr_view(**right),
                ) && (match (eval_spec(expr_view(**left)).0, eval_spec(expr_view(**right)).0) {
                    (ValS::Int(a), ValS::Int(b)) => arith_defined(op@, a, b),
                    _ => true,
                })));
                assert(eval_spec(expr_view(*expr)).0 == (match (
                    eval_spec(expr_view(**left)).0,
                    eval_spec(expr_view(**right)).0,
                ) {
                    (ValS::Int(a), ValS::Int(b)) => if is_arith_op(op@) {
                        ValS::Int(arith_value(op@, a, b))
                    } else {
                        ValS::Void
                    },
                    _ => ValS::Void,
                }));
            }
            match (lv, rv) {
                (Value::Int(a), Value::Int(b)) => {
                    if str_eq(op.as_str(), "+") {
                        match a.checked_add(b) {
                            Some(v) => Some(Value::Int(v)),
                            None => None,
                        }
                    } else if str_eq(op.as_str(), "-") {
                        match a.checked_sub(b) {
                            Some(v) => Some(Value::Int(v)),
                            None => None,
                        }
                    } else if str_eq(op.as_str(), "*") {
                        match a.checked_mul(b) {
                            Some(v) => Some(Value::Int(v)),
                            None => None,
                        }
                    } else if str_eq(op.as_str(), "/") {
                        match a.checked_div(b) {
                            Some(v) => Some(Value::Int(v)),
                            None => None,
                        }
                    } else {
                        Some(Value::Void)
                    }
                },
                _ => Some(Value::Void),
            }
        },
        Expr::Pipeline { left, right: _ } => {
            proof {
                assert(eval_ok(expr_view(*expr)) == eval_ok(expr_view(**left)));
                assert(eval_spec(expr_view(*expr)).0 == ValS::Void);
            }
            match try_eval_value(&**left) {
                None => None,
                Some(_) => Some(Value::Void),
            }
        },
    }
}

/// Decides whether evaluating `expr` stays free of arithmetic faults, so
/// that a caller may test before handing the expression to the evaluator.
pub fn eval_fits(expr: &Expr) -> (r: bool)
    ensures
        r == eval_ok(expr_view(*expr)),
{
    try_eval_value(expr).is_some()
}

/// Type soundness: a fault-free expression of static type Int or Str
/// evaluates to a value of that type, and writes nothing.
pub proof fn lemma_type_soundness(e: ExprS)
    requires
        check_spec(e) is Ok,
        eval_ok(e),
    ensures
        check_spec(e) == Ok::<MintonType, Seq<char>>(MintonType::Int) ==> eval_spec(e).0 is Int,
        check_spec(e) == Ok::<MintonType, Seq<char>>(MintonType::Str) ==> eval_spec(e).0 is Str,
        (check_spec(e) == Ok::<MintonType, Seq<char>>(MintonType::Int) || check_spec(e) == Ok::<
            MintonType,
            Seq<char>,
        >(MintonType::Str)) ==> eval_spec(e).1 == Seq::<Seq<char>>::empty(),
    decreases e,
{
    match e {
        ExprS::Bin { left, op, right } => {
            lemma_type_soundness(*left);
            lemma_type_soundness(*right);
            assert(eval_spec(*left).1 + eval_spec(*right).1 =~= Seq::<Seq<char>>::empty());
        },
        _ => {},
    }
}

/// Well-typed arithmetic evaluates to the exact mathematical result: sum,
/// difference, product, or the quotient truncated toward zero with a
/// nonzero divisor.
pub proof fn lemma_binary_arith(l: ExprS, op: Seq<char>, r: ExprS)
    requires
        check_spec(ExprS::Bin { left: Box::new(l), op: op, right: Box::new(r) }) == Ok::<
            MintonType,
            Seq<char>,
        >(MintonType::Int),
        eval_ok(ExprS::Bin { left: Box::new(l), op: op, right: Box::new(r) }),
    ensures
        eval_spec(l).0 is Int,
        eval_spec(r).0 is Int,
        match (eval_spec(l).0, eval_spec(r).0) {
            (ValS::Int(a), ValS::Int(b)) => {
                let bin = ExprS::Bin { left: Box::new(l), op: op, right: Box::new(r) };
                &&& eval_spec(bin).0 == ValS::Int(arith_value(op, a, b))
                &&& (op == "+"@ ==> eval_spec(bin).0 == ValS::Int(a + b))
                &&& (op == "-"@ ==> eval_spec(bin).0 == ValS::Int(a - b))
                &&& (op == "*"@ ==> eval_spec(bin).0 == ValS::Int(a * b))
                &&& (op == "/"@ ==> b != 0 && eval_spec(bin).0 == ValS::Int(div_trunc(a, b)))
            },
            _ => false,
        },
{
    reveal_strlit("+");
    reveal_strlit("-");
    reveal_strlit("*");
    reveal_strlit("/");
    assert("+"@[0] == '+');
    assert("-"@[0] == '-');
    assert("*"@[0] == '*');
    assert("/"@[0] == '/');
    assert("+"@ != "-"@);
    assert("+"@ != "*"@);
    assert("+"@ != "/"@);
    assert("-"@ != "*"@);
    assert("-"@ != "/"@);
    assert("*"@ != "/"@);
    let bin = ExprS::Bin { left: Box::new(l), op: op, right: Box::new(r) };
    assert(check_spec(l) is Ok && check_spec(r) is Ok) by {
        assert(check_spec(bin) is Ok);
        if check_spec(l) is Err || check_spec(r) is Err {
            assert(check_spec(bin) is Err);
        }
    }
    lemma_type_soundness(l);
    lemma_type_soundness(r);
    assert(is_arith_op(op));
    assert(eval_spec(bin).0 == (match (eval_spec(l).0, eval_spec(r).0) {
        (ValS::Int(a), ValS::Int(b)) => ValS::Int(arith_value(op, a, b)),
        _ => ValS::Void,
    }));
}

/// A well-typed division whose divisor evaluates to zero admits no
/// fault-free evaluation: it is the one fatal condition of a run.
pub proof fn lemma_div_by_zero_faults(l: ExprS, r: ExprS)
    requires
        eval_spec(l).0 is Int,
        eval_spec(r).0 == ValS::Int(0),
    ensures
        !eval_ok(ExprS::Bin { left: Box::new(l), op: "/"@, right: Box::new(r) }),
{
}

/// Piping a fault-free Int-typed expression into `print` writes exactly
/// the decimal string of its value, and nothing else, and yields `Void`.
pub proof fn lemma_print_int(e: ExprS)
    requires
        check_spec(e) == Ok::<MintonType, Seq<char>>(MintonType::Int),
        eval_ok(e),
    ensures
        ({
            let p = ExprS::Pipe { left: Box::new(e), right: Box::new(ExprS::Ident("print"@)) };
            &&& eval_ok(p)
            &&& eval_spec(p).0 is Void
            &&& match eval_spec(e).0 {
                ValS::Int(i) => eval_spec(p).1 == seq![dec_str(i)],
                _ => false,
            }
        }),
{
    lemma_type_soundness(e);
    let p = ExprS::Pipe { left: Box::new(e), right: Box::new(ExprS::Ident("print"@)) };
    assert(eval_spec(p) == (ValS::Void, eval_spec(e).1 + pipe_out(
        eval_spec(e).0,
        ExprS::Ident("print"@),
    )));
    assert(eval_ok(p) == eval_ok(e));
    match eval_spec(e).0 {
        ValS::Int(i) => {
            assert(pipe_out(eval_spec(e).0, ExprS::Ident("print"@)) == seq![dec_str(i)]);
            assert(eval_spec(p).1 =~= seq![dec_str(i)]);
        },
        _ => {},
    }
}

/// Piping a string literal into `print` writes exactly its text, with no
/// escape decoding, and the pipeline checks to `Void`.
pub proof fn lemma_print_text(t: Seq<char>)
    ensures
        ({
            let p = ExprS::Pipe {
                left: Box::new(ExprS::Lit(t)),
                right: Box::new(ExprS::Ident("print"@)),
            };
            &&& check_spec(p) == Ok::<MintonType, Seq<char>>(MintonType::Void)
            &&& eval_ok(p)
            &&& eval_spec(p).1 == seq![t]
        }),
{
    let p = ExprS::Pipe { left: Box::new(ExprS::Lit(t)), right: Box::new(ExprS::Ident("print"@)) };
    assert(eval_spec(ExprS::Lit(t)) == (ValS::Str(t), Seq::<Seq<char>>::empty()));
    assert(eval_spec(p) == (ValS::Void, Seq::<Seq<char>>::empty() + pipe_out(
        ValS::Str(t),
        ExprS::Ident("print"@),
    )));
    assert(pipe_out(ValS::Str(t), ExprS::Ident("print"@)) == seq![t]);
    assert(eval_spec(p).1 =~= seq![t]);
    assert(eval_ok(p) == eval_ok(ExprS::Lit(t)));
    assert(check_spec(p) == Ok::<MintonType, Seq<char>>(MintonType::Void)) by {
        assert(check_spec(ExprS::Lit(t)) == Ok::<MintonType, Seq<char>>(MintonType::Str));
    }
}

} // verus!


//! The whole pipeline in one call: lex, parse, check each statement, and
//! evaluate the ones that check, collecting every line a run writes.
//!
//! A statement that fails the type check contributes its error text as one
//! line in place of output.  A statement that checks but whose evaluation
//! would hit an arithmetic fault (a zero divisor, or a result outside
//! `i64`) ends the run at once with `fault` set — that fault is fatal —
//! and the lines written before it are kept.

use vstd::prelude::*;

use crate::ast::{prog_view, ExprS, Stmt};
use crate::evaluator::{eval_fits, eval_ok, eval_spec, Evaluator};
use crate::lexer::{tokens_from, Lexer};
use crate::parser::{sp_program, Parser};
use crate::typechecker::{check_spec, TypeChecker};

verus! {

/// What a run produces: the lines written, in order, and whether it ended
/// in the one fatal condition, an arithmetic fault.
pub struct RunOutcome {
    pub lines: Vec<String>,
    pub fault: bool,
}

/// The lines and the fault flag of running a sequence of statements: error
/// text for a statement that fails the check, the statement's output when
/// it checks and evaluates cleanly, and a stop with the fault flag on the
/// first statement that checks but cannot evaluate.
pub open spec fn run_stmts(stmts: Seq<ExprS>) -> (Seq<Seq<char>>, bool)
    decreases stmts.len(),
{
    if stmts.len() == 0 {
        (Seq::empty(), false)
    } else {
        let e = stmts[0];
        match check_spec(e) {
            Err(m) => {
                let (rest, f) = run_stmts(stmts.drop_first());
                (seq![m] + rest, f)
            },
            Ok(_) => if eval_ok(e) {
                let (rest, f) = run_stmts(stmts.drop_first());
                (eval_spec(e).1 + rest, f)
            } else {
                (Seq::empty(), true)
            },
        }
    }
}

/// What running a source text produces.
pub open spec fn run_spec(src: Seq<char>) -> (Seq<Seq<char>>, bool) {
    run_stmts(sp_program(tokens_from(src, 0), 0))
}

/// Runs `source` front to back and returns every line the run writes,
/// exactly as `run_spec` describes.
pub fn run_source(source: &str) -> (r: RunOutcome)
    ensures
        ({
            let (lines, fault) = run_spec(source@);
            r.lines@.map_values(|s: String| s@) == lines && r.fault == fault
        }),
{
    let lexer = Lexer::new(source);
    let mut parser = Parser::new(lexer);
    let program = parser.parse_program();
    let checker = TypeChecker::new();
    let mut evaluator = Evaluator::new();
    let ghost stmts = prog_view(program);
    let ghost goal = run_stmts(stmts);
    let mut fault = false;
    let mut idx: usize = 0;
    let n = program.statements.len();
    proof {
        assert(stmts.skip(0) =~= stmts);
        assert(Seq::<Seq<char>>::empty() + goal.0 =~= goal.0);
    }
    while idx < n && !fault
        invariant
            idx <= n,
            n == program.statements@.len(),
            stmts == prog_view(program),
            goal == run_stmts(stmts),
            !fault ==> goal.0 == evaluator.out() + run_stmts(stmts.skip(idx as int)).0,
            !fault ==> goal.1 == run_stmts(stmts.skip(idx as int)).1,
            fault ==> goal.0 == evaluator.out() && goal.1 == true,
        decreases n - idx,
    {
        let ghost rem = stmts.skip(idx as int);
        let ghost e = stmts[idx as int];
        proof {
            assert(rem[0] == e);
            assert(rem.drop_first() =~= stmts.skip(idx + 1));
        }
        let stmt = &program.statements[idx];
        match stmt {
            Stmt::Expression(expr) => {
                let ghost before = evaluator.out();
                match checker.check_expr(expr) {
                    Ok(_) => {
                        if eval_fits(expr) {
                            evaluator.eval_expression(expr);
                            proof {
                                assert(before + (eval_spec(e).1 + run_stmts(
                                    stmts.skip(idx + 1),
                                ).0) =~= (before + eval_spec(e).1) + run_stmts(
                                    stmts.skip(idx + 1),
                                ).0);
                            }
                        } else {
                            fault = true;
                        }
                    },
                    Err(msg) => {
                        evaluator.output.push(msg);
                        proof {
                            assert(evaluator.out() =~= before.push(check_spec(e)->Err_0)) by {
                                assert(evaluator.output@.map_values(|s: String| s@)
                                    =~= before.push(evaluator.output@.last()@));
                            }
                            assert(before + (seq![check_spec(e)->Err_0] + run_stmts(
                                stmts.skip(idx + 1),
                            ).0) =~= before.push(check_spec(e)->Err_0) + run_stmts(
                                stmts.skip(idx + 1),
                            ).0);
                        }
                    },
                }
            },
        }
        idx = idx + 1;
    }
    proof {
        if !fault {
            assert(stmts.skip(n as int) =~= Seq::<ExprS>::empty());
            assert(evaluator.out() + Seq::<Seq<char>>::empty() =~= evaluator.out());
        }
    }
    RunOutcome { lines: evaluator.output, fault }
}

/// An arithmetic fault is fatal and silent.  At the first statement that
/// checks but cannot evaluate — by `lemma_div_by_zero_faults`, a well-typed
/// division whose divisor evaluates to zero is such a statement — the run
/// stops with the fault flag set, keeps exactly the lines of the statements
/// before it, and writes nothing for the faulting statement.
pub proof fn lemma_fault_stops_run(stmts: Seq<ExprS>, i: int)
    requires
        0 <= i < stmts.len(),
        forall|k: int|
            0 <= k < i ==> !((#[trigger] check_spec(stmts[k])) is Ok && !eval_ok(stmts[k])),
        check_spec(stmts[i]) is Ok,
        !eval_ok(stmts[i]),
    ensures
        run_stmts(stmts).1 == true,
        run_stmts(stmts).0 == run_stmts(stmts.take(i)).0,
    decreases i,
{
    if i == 0 {
        assert(stmts.take(0) =~= Seq::<ExprS>::empty());
    } else {
        let tail = stmts.drop_first();
        assert(forall|k: int| 0 <= k < i - 1 ==> #[trigger] tail[k] == stmts[k + 1]);
        lemma_fault_stops_run(tail, i - 1);
        let front = stmts.take(i);
        assert(front.len() == i);
        assert(front[0] == stmts[0]);
        assert(front.drop_first() =~= tail.take(i - 1));
        assert(!(check_spec(stmts[0]) is Ok && !eval_ok(stmts[0])));
        assert(run_stmts(tail).0 == run_stmts(tail.take(i - 1)).0);
    }
}

} // verus!

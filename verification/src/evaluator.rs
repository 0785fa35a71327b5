//! The evaluator: reduces an [`Expr`] tree to a single `i32`.

use crate::expr::expr_model;
use crate::expr::exprs_model;
use crate::expr::lemma_exprs_model;
use crate::expr::Expr;
use crate::expr::ExprModel;
use vstd::prelude::*;

verus! {

broadcast use vstd::seq::group_seq_axioms, vstd::std_specs::vec::group_vec_axioms;

/// Why evaluation failed.
///
/// On the trees that [`crate::parse`] produces, the only possible failure is
/// `Overflow`: an addition or multiplication stepped outside the `i32`
/// range.  Making overflow an explicit error (rather than wrapping
/// silently) is a deliberate design choice, stated in every contract below.
#[derive(Debug, PartialEq, Eq, Clone, Copy)]
pub enum EvalError {
    Overflow,
}

/// The value of a tree: a leaf is its integer; a sum or product folds its
/// children left to right from the identity element (0 for `Add`, 1 for
/// `Mult`), failing on the first step that leaves the `i32` range.
pub open spec fn spec_eval(e: ExprModel) -> Result<int, EvalError>
    decreases e, 0int,
{
    match e {
        ExprModel::Int(v) => Ok(v),
        ExprModel::Add(args) => spec_eval_fold(args, 0, 0, true),
        ExprModel::Mult(args) => spec_eval_fold(args, 0, 1, false),
    }
}

/// The left-to-right fold of `spec_eval` over `args[i..]` starting from
/// `acc`, adding when `is_add` and multiplying otherwise.  The fold is
/// fail-fast: the first child error, or the first step outside the `i32`
/// range, is the result.
pub open spec fn spec_eval_fold(args: Seq<ExprModel>, i: int, acc: int, is_add: bool) -> Result<
    int,
    EvalError,
>
    decreases args, args.len() - i,
{
    if 0 <= i < args.len() {
        match spec_eval(args[i]) {
            Ok(v) => {
                let next = if is_add {
                    acc + v
                } else {
                    acc * v
                };
                if i32::MIN <= next <= i32::MAX {
                    spec_eval_fold(args, i + 1, next, is_add)
                } else {
                    Err(EvalError::Overflow)
                }
            },
            Err(err) => Err(err),
        }
    } else {
        Ok(acc)
    }
}

/// The executable result `r` agrees with the mathematical result `m`.
pub open spec fn eval_matches(r: Result<i32, EvalError>, m: Result<int, EvalError>) -> bool {
    match r {
        Ok(v) => m == Ok::<int, EvalError>(v as int),
        Err(err) => m == Err::<int, EvalError>(err),
    }
}

/// Evaluates a tree.  Never mutates its argument and never panics; the
/// result is exactly what [`spec_eval`] assigns to the tree's model, so an
/// `Err` can only be an overflow.
pub fn eval(expr: &Expr) -> (r: Result<i32, EvalError>)
    ensures
        eval_matches(r, spec_eval(expr_model(*expr))),
    decreases *expr,
{
    match expr {
        Expr::Int(value) => Ok(*value),
        Expr::Add(args) => eval_add(args),
        Expr::Mult(args) => eval_mult(args),
    }
}

/// Sums `args` left to right from 0, reporting the first step that
/// overflows `i32`.
#[verifier::loop_isolation(false)]
fn eval_add(args: &Vec<Expr>) -> (r: Result<i32, EvalError>)
    ensures
        eval_matches(r, spec_eval_fold(exprs_model(*args, 0), 0, 0, true)),
    decreases *args,
{
    let ghost m = exprs_model(*args, 0);
    proof {
        lemma_exprs_model(*args, 0);
    }
    let mut acc: i32 = 0;
    let mut i: usize = 0;
    while i < args.len()
        invariant
            0 <= i <= args.len(),
            spec_eval_fold(m, 0, 0, true) == spec_eval_fold(m, i as int, acc as int, true),
        decreases args.len() - i,
    {
        let v = match eval(&args[i]) {
            Ok(v) => v,
            Err(err) => {
                return Err(err);
            },
        };
        acc = match acc.checked_add(v) {
            Some(next) => next,
            None => {
                return Err(EvalError::Overflow);
            },
        };
        i = i + 1;
    }
    Ok(acc)
}

/// Multiplies `args` left to right from 1, reporting the first step that
/// overflows `i32`.
#[verifier::loop_isolation(false)]
fn eval_mult(args: &Vec<Expr>) -> (r: Result<i32, EvalError>)
    ensures
        eval_matches(r, spec_eval_fold(exprs_model(*args, 0), 0, 1, false)),
    decreases *args,
{
    let ghost m = exprs_model(*args, 0);
    proof {
        lemma_exprs_model(*args, 0);
    }
    let mut acc: i32 = 1;
    let mut i: usize = 0;
    while i < args.len()
        invariant
            0 <= i <= args.len(),
            spec_eval_fold(m, 0, 1, false) == spec_eval_fold(m, i as int, acc as int, false),
        decreases args.len() - i,
    {
        let v = match eval(&args[i]) {
            Ok(v) => v,
            Err(err) => {
                return Err(err);
            },
        };
        acc = match acc.checked_mul(v) {
            Some(next) => next,
            None => {
                return Err(EvalError::Overflow);
            },
        };
        i = i + 1;
    }
    Ok(acc)
}

} // verus!

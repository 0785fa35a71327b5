//! The abstract syntax tree shared by the parser and the evaluator.

use vstd::prelude::*;

verus! {

broadcast use vstd::seq::group_seq_axioms, vstd::std_specs::vec::group_vec_axioms;

/// A parsed expression: an integer leaf, a variadic sum, or a variadic
/// product.  Argument lists may be empty; the evaluator gives an empty sum
/// the value 0 and an empty product the value 1.
///
/// A tree is immutable once built and owns its children exclusively.  Two
/// trees are `==` exactly when their variant tags and, recursively, their
/// children agree (the derived structural equality; verified code reasons
/// about trees through [`expr_model`] instead).
#[derive(Debug, PartialEq, Eq)]
pub enum Expr {
    Int(i32),
    Add(Vec<Expr>),
    Mult(Vec<Expr>),
}

/// The mathematical shape of an [`Expr`]: the same tree with unbounded
/// integers at the leaves and `Seq` in place of `Vec`.  Contracts throughout
/// the crate speak of this model.
pub enum ExprModel {
    Int(int),
    Add(Seq<ExprModel>),
    Mult(Seq<ExprModel>),
}

/// The model of a tree: leaves widen to `int`, argument vectors become the
/// sequence of their children's models.
pub open spec fn expr_model(e: Expr) -> ExprModel
    decreases e, 0int,
{
    match e {
        Expr::Int(v) => ExprModel::Int(v as int),
        Expr::Add(args) => ExprModel::Add(exprs_model(args, 0)),
        Expr::Mult(args) => ExprModel::Mult(exprs_model(args, 0)),
    }
}

/// The models of `args[i..]`, in order.
pub open spec fn exprs_model(args: Vec<Expr>, i: int) -> Seq<ExprModel>
    decreases args, args.len() - i,
{
    if 0 <= i < args.len() {
        seq![expr_model(args[i])] + exprs_model(args, i + 1)
    } else {
        Seq::empty()
    }
}

/// `exprs_model(args, i)` lists exactly the models of the elements of
/// `args` from position `i` on.
pub proof fn lemma_exprs_model(args: Vec<Expr>, i: int)
    requires
        0 <= i <= args.len(),
    ensures
        exprs_model(args, i).len() == args.len() - i,
        forall|k: int|
            0 <= k < args.len() - i ==> exprs_model(args, i)[k] == expr_model(args[i + k]),
    decreases args.len() - i,
{
    if i < args.len() {
        lemma_exprs_model(args, i + 1);
        assert forall|k: int|
            0 <= k < args.len() - i implies exprs_model(args, i)[k] == expr_model(
            args[i + k],
        ) by {
            if k > 0 {
                assert(exprs_model(args, i + 1)[k - 1] == expr_model(args[i + 1 + (k - 1)]));
            }
        }
    }
}

/// Pushing an element onto a vector appends its model to the vector's
/// models.
pub proof fn lemma_exprs_model_push(a: Vec<Expr>, b: Vec<Expr>, e: Expr)
    requires
        b@ == a@.push(e),
    ensures
        exprs_model(b, 0) == exprs_model(a, 0) + seq![expr_model(e)],
{
    lemma_exprs_model(a, 0);
    lemma_exprs_model(b, 0);
    assert(exprs_model(b, 0) =~= exprs_model(a, 0) + seq![expr_model(e)]);
}

} // verus!

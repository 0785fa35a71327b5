//! Laws that tie the parser and the evaluator together, stated over the
//! mathematical models and proved once and for all.

use crate::evaluator::spec_eval;
use crate::evaluator::spec_eval_fold;
use crate::evaluator::EvalError;
use crate::expr::ExprModel;
use crate::parser::spec_parse;
use crate::parser::spec_parse_expr;
use crate::parser::spec_parse_number;
use crate::parser::ParseError;
use crate::scan::digit_val;
use crate::scan::digits_end;
use crate::scan::digits_val;
use crate::scan::is_digit;
use crate::scan::is_space;
use crate::scan::skip_ws;
use vstd::prelude::*;

verus! {

broadcast use vstd::seq::group_seq_axioms;

/// The decimal digit character for a value between 0 and 9.
pub open spec fn digit_char(d: int) -> char {
    if d == 0 {
        '0'
    } else if d == 1 {
        '1'
    } else if d == 2 {
        '2'
    } else if d == 3 {
        '3'
    } else if d == 4 {
        '4'
    } else if d == 5 {
        '5'
    } else if d == 6 {
        '6'
    } else if d == 7 {
        '7'
    } else if d == 8 {
        '8'
    } else {
        '9'
    }
}

/// The decimal rendering of a nonnegative integer, most significant digit
/// first and without sign or leading zeros.
pub open spec fn decimal_chars(n: int) -> Seq<char>
    decreases n,
{
    if n < 10 {
        seq![digit_char(n)]
    } else {
        decimal_chars(n / 10) + seq![digit_char(n % 10)]
    }
}

/// A digit's character carries the digit's value.
proof fn lemma_digit_char_val(d: int)
    requires
        0 <= d <= 9,
    ensures
        is_digit(digit_char(d)),
        digit_val(digit_char(d)) == d,
{
}

/// A rendered integer is a nonempty run of decimal digits.
proof fn lemma_decimal_chars_are_digits(n: int)
    requires
        0 <= n,
    ensures
        decimal_chars(n).len() >= 1,
        forall|k: int| 0 <= k < decimal_chars(n).len() ==> is_digit(decimal_chars(n)[k]),
    decreases n,
{
    if n < 10 {
        lemma_digit_char_val(n);
    } else {
        lemma_decimal_chars_are_digits(n / 10);
        lemma_digit_char_val(n % 10);
        let pre = decimal_chars(n / 10);
        assert forall|k: int| 0 <= k < decimal_chars(n).len() implies is_digit(
            decimal_chars(n)[k],
        ) by {
            if k < pre.len() {
                assert(decimal_chars(n)[k] == pre[k]);
            } else {
                assert(decimal_chars(n)[k] == digit_char(n % 10));
            }
        }
    }
}

/// A digit run's value depends only on the characters it covers.
proof fn lemma_digits_val_congruence(s: Seq<char>, t: Seq<char>, i: int, j: int)
    requires
        0 <= i,
        j <= s.len(),
        j <= t.len(),
        forall|k: int| i <= k < j ==> s[k] == t[k],
    ensures
        digits_val(s, i, j) == digits_val(t, i, j),
    decreases j - i,
{
    if i < j {
        lemma_digits_val_congruence(s, t, i, j - 1);
    }
}

/// On a run that is digits to the very end, the digit scan reaches the end.
proof fn lemma_digits_end_all(s: Seq<char>, i: int)
    requires
        0 <= i <= s.len(),
        forall|k: int| i <= k < s.len() ==> is_digit(s[k]),
    ensures
        digits_end(s, i) == s.len(),
    decreases s.len() - i,
{
    if i < s.len() {
        lemma_digits_end_all(s, i + 1);
    }
}

/// Reading a rendered integer's digits back gives the integer.
proof fn lemma_decimal_chars_val(n: int)
    requires
        0 <= n,
    ensures
        digits_val(decimal_chars(n), 0, decimal_chars(n).len() as int) == n,
    decreases n,
{
    let s = decimal_chars(n);
    if n < 10 {
        lemma_digit_char_val(n);
        assert(digits_val(s, 0, 0) == 0);
        assert(digits_val(s, 0, 1) == digits_val(s, 0, 0) * 10 + digit_val(s[0]));
    } else {
        lemma_decimal_chars_val(n / 10);
        lemma_digit_char_val(n % 10);
        let pre = decimal_chars(n / 10);
        let total = s.len() as int;
        assert(total - 1 == pre.len());
        assert(s[total - 1] == digit_char(n % 10));
        lemma_digits_val_congruence(s, pre, 0, total - 1);
        assert(digits_val(s, 0, total) == digits_val(s, 0, total - 1) * 10 + digit_val(
            s[total - 1],
        ));
        assert(n / 10 * 10 + n % 10 == n);
    }
}

/// Round-trip law: rendering a nonnegative integer in decimal, parsing the
/// rendering, and evaluating the parse gives the integer back unchanged.
/// (A negative integer renders with a leading `-`, which the grammar has no
/// sign for and rejects.)
pub proof fn lemma_parse_eval_roundtrip(v: i32)
    requires
        0 <= v,
    ensures
        spec_parse(decimal_chars(v as int)) == Ok::<ExprModel, ParseError>(
            ExprModel::Int(v as int),
        ),
        spec_eval(ExprModel::Int(v as int)) == Ok::<int, EvalError>(v as int),
{
    let s = decimal_chars(v as int);
    lemma_decimal_chars_are_digits(v as int);
    lemma_decimal_chars_val(v as int);
    lemma_digits_end_all(s, 0);
    assert(is_digit(s[0]));
    assert(!is_space(s[0]));
    assert(skip_ws(s, 0) == 0);
    assert(s[0] != '(');
    assert(spec_parse_number(s, 0) == Ok::<(ExprModel, int), ParseError>(
        (ExprModel::Int(v as int), s.len() as int),
    ));
    assert(spec_parse_expr(s, 0) == Ok::<(ExprModel, int), ParseError>(
        (ExprModel::Int(v as int), s.len() as int),
    ));
}

/// Identity-element law: an empty sum evaluates to 0 and an empty product
/// to 1.
pub proof fn lemma_eval_identity_elements()
    ensures
        spec_eval(ExprModel::Add(Seq::empty())) == Ok::<int, EvalError>(0),
        spec_eval(ExprModel::Mult(Seq::empty())) == Ok::<int, EvalError>(1),
{
    assert(spec_eval_fold(Seq::<ExprModel>::empty(), 0, 0, true) == Ok::<int, EvalError>(0));
    assert(spec_eval_fold(Seq::<ExprModel>::empty(), 0, 1, false) == Ok::<int, EvalError>(1));
}

/// The value a successfully evaluated tree reduces to.
pub open spec fn eval_ok_value(e: ExprModel) -> int {
    match spec_eval(e) {
        Ok(v) => v,
        Err(_) => 0,
    }
}

/// Every child of the list evaluates successfully.
pub open spec fn all_children_ok(args: Seq<ExprModel>) -> bool {
    forall|k: int| 0 <= k < args.len() ==> spec_eval(args[k]) is Ok
}

/// Whether a value lies in the `i32` range.
pub open spec fn fits_i32(n: int) -> bool {
    i32::MIN <= n <= i32::MAX
}

/// The plain left-to-right fold over the first `k` children's values: their
/// sum from 0 when `is_add`, their product from 1 otherwise.
pub open spec fn fold_value(args: Seq<ExprModel>, k: int, is_add: bool) -> int
    decreases k,
{
    if k <= 0 {
        if is_add {
            0
        } else {
            1
        }
    } else {
        let prev = fold_value(args, k - 1, is_add);
        let v = eval_ok_value(args[k - 1]);
        if is_add {
            prev + v
        } else {
            prev * v
        }
    }
}

/// Variadic sum law: when every child evaluates successfully and no
/// intermediate sum leaves the `i32` range, `Add(args)` evaluates to the
/// left-to-right sum of the children's values.
pub proof fn lemma_eval_add_is_sum(args: Seq<ExprModel>)
    requires
        all_children_ok(args),
        forall|k: int| 0 <= k <= args.len() ==> fits_i32(fold_value(args, k, true)),
    ensures
        spec_eval(ExprModel::Add(args)) == Ok::<int, EvalError>(
            fold_value(args, args.len() as int, true),
        ),
{
    lemma_fold_from(args, 0, true);
}

/// Variadic product law: when every child evaluates successfully and no
/// intermediate product leaves the `i32` range, `Mult(args)` evaluates to
/// the left-to-right product of the children's values.
pub proof fn lemma_eval_mult_is_product(args: Seq<ExprModel>)
    requires
        all_children_ok(args),
        forall|k: int| 0 <= k <= args.len() ==> fits_i32(fold_value(args, k, false)),
    ensures
        spec_eval(ExprModel::Mult(args)) == Ok::<int, EvalError>(
            fold_value(args, args.len() as int, false),
        ),
{
    lemma_fold_from(args, 0, false);
}

/// The evaluator's fail-fast fold, run from any position on the plain fold's
/// value so far, completes to the plain fold's final value.
proof fn lemma_fold_from(args: Seq<ExprModel>, i: int, is_add: bool)
    requires
        0 <= i <= args.len(),
        all_children_ok(args),
        forall|k: int| 0 <= k <= args.len() ==> fits_i32(fold_value(args, k, is_add)),
    ensures
        spec_eval_fold(args, i, fold_value(args, i, is_add), is_add) == Ok::<int, EvalError>(
            fold_value(args, args.len() as int, is_add),
        ),
    decreases args.len() - i,
{
    if i < args.len() {
        lemma_fold_from(args, i + 1, is_add);
        assert(fold_value(args, i + 1, is_add) == (if is_add {
            fold_value(args, i, is_add) + eval_ok_value(args[i])
        } else {
            fold_value(args, i, is_add) * eval_ok_value(args[i])
        }));
    }
}

} // verus!

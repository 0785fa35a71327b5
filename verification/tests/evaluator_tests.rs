//! Evaluator behaviour on hand-built trees.

use sexpr_calc::eval;
use sexpr_calc::EvalError;
use sexpr_calc::Expr;

#[test]
fn test_eval_int() {
    let expr = Expr::Int(42);
    assert_eq!(eval(&expr), Ok(42));
}

#[test]
fn test_eval_add_two_numbers() {
    let expr = Expr::Add(vec![Expr::Int(1), Expr::Int(2)]);
    assert_eq!(eval(&expr), Ok(3));
}

#[test]
fn test_eval_add_multiple_numbers() {
    let expr = Expr::Add(vec![Expr::Int(1), Expr::Int(2), Expr::Int(3)]);
    assert_eq!(eval(&expr), Ok(6));
}

#[test]
fn test_eval_add_no_numbers() {
    let expr = Expr::Add(Vec::new());
    assert_eq!(eval(&expr), Ok(0));
}

#[test]
fn test_eval_mult_two_numbers() {
    let expr = Expr::Mult(vec![Expr::Int(3), Expr::Int(4)]);
    assert_eq!(eval(&expr), Ok(12));
}

#[test]
fn test_eval_mult_multiple_numbers() {
    let expr = Expr::Mult(vec![Expr::Int(2), Expr::Int(3), Expr::Int(4)]);
    assert_eq!(eval(&expr), Ok(24));
}

#[test]
fn test_eval_mult_no_numbers() {
    let expr = Expr::Mult(Vec::new());
    assert_eq!(eval(&expr), Ok(1));
}

#[test]
fn test_eval_nested_expressions() {
    let expr = Expr::Add(vec![
        Expr::Int(1),
        Expr::Mult(vec![Expr::Int(2), Expr::Int(3)]),
    ]);
    assert_eq!(eval(&expr), Ok(7));
}

#[test]
fn test_eval_deeply_nested_expressions() {
    // (1 + 2) * (3 + 4 * 5) = 3 * 23 = 69.
    let expr = Expr::Mult(vec![
        Expr::Add(vec![Expr::Int(1), Expr::Int(2)]),
        Expr::Add(vec![
            Expr::Int(3),
            Expr::Mult(vec![Expr::Int(4), Expr::Int(5)]),
        ]),
    ]);
    assert_eq!(eval(&expr), Ok(69));
}

#[test]
fn test_eval_with_unexpected_expr() {
    // An empty argument list is legal and carries the identity element, so
    // this tree evaluates to 1 + 2 * 0 = 1 rather than failing.
    let expr = Expr::Add(vec![
        Expr::Int(1),
        Expr::Mult(vec![Expr::Int(2), Expr::Add(vec![])]),
    ]);
    assert_eq!(eval(&expr), Ok(1));
}

#[test]
fn test_eval_negative_leaves() {
    assert_eq!(eval(&Expr::Int(-5)), Ok(-5));
    let expr = Expr::Add(vec![Expr::Int(-3), Expr::Int(5)]);
    assert_eq!(eval(&expr), Ok(2));
    let expr = Expr::Mult(vec![Expr::Int(-3), Expr::Int(5)]);
    assert_eq!(eval(&expr), Ok(-15));
}

#[test]
fn test_eval_add_overflow() {
    let expr = Expr::Add(vec![Expr::Int(i32::MAX), Expr::Int(1)]);
    assert_eq!(eval(&expr), Err(EvalError::Overflow));
}

#[test]
fn test_eval_add_overflow_is_fail_fast() {
    // The third argument would bring the sum back in range, but the fold
    // fails on the first step that leaves the i32 range.
    let expr = Expr::Add(vec![Expr::Int(i32::MAX), Expr::Int(1), Expr::Int(-100)]);
    assert_eq!(eval(&expr), Err(EvalError::Overflow));
}

#[test]
fn test_eval_add_underflow() {
    let expr = Expr::Add(vec![Expr::Int(i32::MIN), Expr::Int(-1)]);
    assert_eq!(eval(&expr), Err(EvalError::Overflow));
}

#[test]
fn test_eval_mult_overflow() {
    let expr = Expr::Mult(vec![Expr::Int(i32::MAX), Expr::Int(2)]);
    assert_eq!(eval(&expr), Err(EvalError::Overflow));
}

#[test]
fn test_eval_sum_of_three() {
    let expr = Expr::Add(vec![Expr::Int(5), Expr::Int(7), Expr::Int(9)]);
    assert_eq!(eval(&expr), Ok(21));
}

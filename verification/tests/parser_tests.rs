//! Parser behaviour on textual inputs.

use sexpr_calc::parse;
use sexpr_calc::Expr;
use sexpr_calc::ParseError;

#[test]
fn test_parse_number_simple() {
    assert_eq!(parse("42"), Ok(Expr::Int(42)));
}

#[test]
fn test_parse_number_with_whitespace() {
    assert_eq!(parse("  42 "), Ok(Expr::Int(42)));
}

#[test]
fn test_parse_number_negative() {
    assert!(parse("-42").is_err());
}

#[test]
fn test_parse_number_invalid() {
    assert!(parse("abc").is_err());
}

#[test]
fn test_parse_add_valid() {
    assert_eq!(
        parse("(add 1 2)"),
        Ok(Expr::Add(vec![Expr::Int(1), Expr::Int(2)]))
    );
}

#[test]
fn test_parse_add_extra_whitespace() {
    assert_eq!(
        parse("(add  1   2  )"),
        Ok(Expr::Add(vec![Expr::Int(1), Expr::Int(2)]))
    );
}

#[test]
fn test_parse_add_unbalanced_parentheses() {
    assert!(parse("(add 1 2").is_err());
}

#[test]
fn test_parse_add_no_arguments_returns_identity() {
    assert_eq!(parse("(add)"), Ok(Expr::Add(Vec::new())));
}

#[test]
fn test_parse_mult_no_arguments_returns_identity() {
    assert_eq!(parse("(mult)"), Ok(Expr::Mult(Vec::new())));
}

#[test]
fn test_parse_mult_valid() {
    assert_eq!(
        parse("(mult 3 4)"),
        Ok(Expr::Mult(vec![Expr::Int(3), Expr::Int(4)]))
    );
}

#[test]
fn test_parse_mult_nested_expressions() {
    assert_eq!(
        parse("(mult (add 1 2) 3)"),
        Ok(Expr::Mult(vec![
            Expr::Add(vec![Expr::Int(1), Expr::Int(2)]),
            Expr::Int(3)
        ]))
    );
}

#[test]
fn test_parse_mult_invalid_keyword() {
    assert!(parse("(multiply 3 4)").is_err());
}

#[test]
fn test_parse_error_unexpected_token() {
    assert_eq!(parse("abc"), Err(ParseError::UnexpectedToken));
    assert_eq!(parse("-42"), Err(ParseError::UnexpectedToken));
    assert_eq!(parse("(add x)"), Err(ParseError::UnexpectedToken));
}

#[test]
fn test_parse_error_unknown_keyword() {
    assert_eq!(parse("(multiply 3 4)"), Err(ParseError::UnknownKeyword));
    assert_eq!(parse("(sub 1 2)"), Err(ParseError::UnknownKeyword));
    assert_eq!(parse("(ADD 1 2)"), Err(ParseError::UnknownKeyword));
    assert_eq!(parse("()"), Err(ParseError::UnknownKeyword));
}

#[test]
fn test_parse_error_keyword_needs_boundary() {
    // The keyword must be followed by whitespace, `)`, or the end of the
    // input; running straight into another token is rejected.
    assert_eq!(parse("(add1 2)"), Err(ParseError::UnknownKeyword));
    assert_eq!(parse("(add(mult 2 3))"), Err(ParseError::UnknownKeyword));
}

#[test]
fn test_parse_error_unterminated() {
    assert_eq!(parse("(add 1 2"), Err(ParseError::UnterminatedExpression));
    assert_eq!(parse("(add"), Err(ParseError::UnterminatedExpression));
    assert_eq!(
        parse("(mult (add 1 2"),
        Err(ParseError::UnterminatedExpression)
    );
}

#[test]
fn test_parse_error_missing_number() {
    assert_eq!(parse(""), Err(ParseError::MissingNumber));
    assert_eq!(parse("   "), Err(ParseError::MissingNumber));
}

#[test]
fn test_parse_error_invalid_number() {
    assert_eq!(parse("2147483648"), Err(ParseError::InvalidNumber));
    assert_eq!(
        parse("99999999999999999999"),
        Err(ParseError::InvalidNumber)
    );
}

#[test]
fn test_parse_number_bounds() {
    assert_eq!(parse("0"), Ok(Expr::Int(0)));
    assert_eq!(parse("2147483647"), Ok(Expr::Int(i32::MAX)));
    assert_eq!(parse("007"), Ok(Expr::Int(7)));
}

#[test]
fn test_parse_ignores_trailing_characters() {
    assert_eq!(parse("42 tail"), Ok(Expr::Int(42)));
    assert_eq!(parse("42)"), Ok(Expr::Int(42)));
    assert_eq!(
        parse("(add 1 2)x"),
        Ok(Expr::Add(vec![Expr::Int(1), Expr::Int(2)]))
    );
}

#[test]
fn test_parse_unicode_whitespace() {
    assert_eq!(parse("\u{a0}42"), Ok(Expr::Int(42)));
    assert_eq!(
        parse("(add\u{2003}1\t2\n)"),
        Ok(Expr::Add(vec![Expr::Int(1), Expr::Int(2)]))
    );
}

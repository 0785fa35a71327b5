//! The parser: a single-pass, single-lookahead recursive-descent reader that
//! turns a character stream into an [`Expr`] tree.
//!
//! The grammar:
//!
//! ```text
//! expr         := number | '(' keyword-expr ')'
//! keyword-expr := "add" list | "mult" list
//! list         := { whitespace* expr } whitespace*
//! number       := digit { digit }
//! ```
//!
//! Whitespace may appear in any amount between tokens.  The whole grammar is
//! written down once more as a mathematical function, [`spec_parse_expr`],
//! and every executable function below is proved to return exactly what its
//! mathematical twin says.

use crate::expr::expr_model;
use crate::expr::exprs_model;
use crate::expr::lemma_exprs_model_push;
use crate::expr::Expr;
use crate::expr::ExprModel;
use crate::scan::digit_val;
use crate::scan::digits_end;
use crate::scan::digits_val;
use crate::scan::is_digit;
use crate::scan::is_digit_char;
use crate::scan::is_space;
use crate::scan::is_space_char;
use crate::scan::lemma_digits_end;
use crate::scan::lemma_digits_val_monotone;
use crate::scan::lemma_skip_ws;
use crate::scan::skip_ws;
use vstd::prelude::*;
use vstd::string::StrSliceExecFns;

verus! {

broadcast use
    vstd::seq::group_seq_axioms,
    vstd::std_specs::vec::group_vec_axioms,
    lemma_skip_ws,
    lemma_digits_end;

/// Why parsing failed.  Errors are terminal: the first one aborts the whole
/// parse, and no partial tree is produced.
#[derive(Debug, PartialEq, Eq, Clone, Copy)]
pub enum ParseError {
    /// A character that is neither `(` nor a digit stood where an
    /// expression was expected.
    UnexpectedToken,
    /// The word after `(` was not exactly `add` or `mult`, or ran into the
    /// next token without a separating whitespace or `)`.
    UnknownKeyword,
    /// The input ended, or a stray character stood, where a closing `)` was
    /// expected.
    UnterminatedExpression,
    /// The input ended where a numeric literal was required, so zero digits
    /// were found.
    MissingNumber,
    /// A digit run does not fit in an `i32`.
    InvalidNumber,
}

/// A keyword must be followed by whitespace, `)`, or the end of the input;
/// anything else makes it a different, unknown word.
pub open spec fn keyword_boundary(s: Seq<char>, i: int) -> bool {
    i >= s.len() || is_space(s[i]) || s[i] == ')'
}

/// The mathematical parser for one expression starting at position `i`:
/// skip whitespace, then read either a parenthesised keyword expression or
/// a bare numeric literal.  On success it returns the parsed tree and the
/// position just past it; trailing characters are left unread.
pub open spec fn spec_parse_expr(s: Seq<char>, i: int) -> Result<(ExprModel, int), ParseError>
    decreases s.len() - i, 0int,
{
    let j = skip_ws(s, i);
    if j < s.len() && s[j] == '(' {
        match spec_parse_inner(s, j + 1) {
            Ok((e, k)) => {
                let m = skip_ws(s, k);
                if m < s.len() && s[m] == ')' {
                    Ok((e, m + 1))
                } else {
                    Err(ParseError::UnterminatedExpression)
                }
            },
            Err(p) => Err(p),
        }
    } else {
        spec_parse_number(s, j)
    }
}

/// The characters of the keyword `add` after its leading `a`.
pub open spec fn kw_add_tail() -> Seq<char> {
    seq!['d', 'd']
}

/// The characters of the keyword `mult` after its leading `m`.
pub open spec fn kw_mult_tail() -> Seq<char> {
    seq!['u', 'l', 't']
}

/// The mathematical parser for the inside of a parenthesised expression:
/// the keyword `add` or `mult` (case-sensitive, and closed off by
/// [`keyword_boundary`]) followed by a list of arguments.
pub open spec fn spec_parse_inner(s: Seq<char>, i: int) -> Result<(ExprModel, int), ParseError>
    decreases s.len() - i, 1int,
{
    let j = skip_ws(s, i);
    if j < s.len() && s[j] == 'a' {
        if j + 3 <= s.len() && keyword_at(s, j + 1, kw_add_tail()) && keyword_boundary(s, j + 3) {
            match spec_parse_list(s, j + 3) {
                Ok((es, k)) => Ok((ExprModel::Add(es), k)),
                Err(p) => Err(p),
            }
        } else {
            Err(ParseError::UnknownKeyword)
        }
    } else if j < s.len() && s[j] == 'm' {
        if j + 4 <= s.len() && keyword_at(s, j + 1, kw_mult_tail()) && keyword_boundary(s, j + 4) {
            match spec_parse_list(s, j + 4) {
                Ok((es, k)) => Ok((ExprModel::Mult(es), k)),
                Err(p) => Err(p),
            }
        } else {
            Err(ParseError::UnknownKeyword)
        }
    } else {
        Err(ParseError::UnknownKeyword)
    }
}

/// The mathematical parser for an argument list: expressions separated by
/// whitespace, up to (but not consuming) the next `)` or the end of the
/// input.  A successful sub-expression always moves the position forward,
/// so the guard `j < k` in the recursion never fails on reachable inputs.
pub open spec fn spec_parse_list(s: Seq<char>, i: int) -> Result<
    (Seq<ExprModel>, int),
    ParseError,
>
    decreases s.len() - i, 2int,
{
    let j = skip_ws(s, i);
    if j >= s.len() || s[j] == ')' {
        Ok((Seq::empty(), j))
    } else {
        match spec_parse_expr(s, j) {
            Ok((e, k)) => {
                if j < k <= s.len() {
                    match spec_parse_list(s, k) {
                        Ok((es, m)) => Ok((seq![e] + es, m)),
                        Err(p) => Err(p),
                    }
                } else {
                    Err(ParseError::UnterminatedExpression)
                }
            },
            Err(p) => Err(p),
        }
    }
}

/// The mathematical parser for a bare numeric literal at position `i`: one
/// or more decimal digits, no sign, no decimal point, value at most
/// `i32::MAX`.
pub open spec fn spec_parse_number(s: Seq<char>, i: int) -> Result<(ExprModel, int), ParseError> {
    let e = digits_end(s, i);
    if e == i {
        if i < s.len() {
            Err(ParseError::UnexpectedToken)
        } else {
            Err(ParseError::MissingNumber)
        }
    } else {
        let v = digits_val(s, i, e);
        if v <= i32::MAX {
            Ok((ExprModel::Int(v), e))
        } else {
            Err(ParseError::InvalidNumber)
        }
    }
}

/// What [`parse`] returns on an input: the mathematical parse of its first
/// expression, with any trailing characters ignored.
pub open spec fn spec_parse(s: Seq<char>) -> Result<ExprModel, ParseError> {
    match spec_parse_expr(s, 0) {
        Ok((e, _)) => Ok(e),
        Err(p) => Err(p),
    }
}

/// Whether `s` carries the characters of `w` starting at position `i`.
pub open spec fn keyword_at(s: Seq<char>, i: int, w: Seq<char>) -> bool {
    i + w.len() <= s.len() && (forall|n: int| 0 <= n < w.len() ==> s[i + n] == w[n])
}

/// Prepends already-parsed list elements to the outcome of parsing the rest
/// of the list.
spec fn prepend_parsed(
    prefix: Seq<ExprModel>,
    r: Result<(Seq<ExprModel>, int), ParseError>,
) -> Result<(Seq<ExprModel>, int), ParseError> {
    match r {
        Ok((es, m)) => Ok((prefix + es, m)),
        Err(p) => Err(p),
    }
}

/// Parses a textual S-expression into a tree.
///
/// The result is exactly what the mathematical parser [`spec_parse`]
/// assigns to the input's characters: `Ok` with the parsed tree's model on
/// a well-formed input, and the `Err` naming the first failure otherwise.
/// Characters after the first complete top-level expression are ignored,
/// never rejected.
pub fn parse(input: &str) -> (r: Result<Expr, ParseError>)
    ensures
        (match r {
            Ok(e) => spec_parse(input@) == Ok::<ExprModel, ParseError>(expr_model(e)),
            Err(p) => spec_parse(input@) == Err::<ExprModel, ParseError>(p),
        }),
{
    let mut pos: usize = 0;
    match parse_expr(input, &mut pos) {
        Ok(e) => Ok(e),
        Err(p) => Err(p),
    }
}

/// Reads one expression at the cursor, as [`spec_parse_expr`] describes.
fn parse_expr(s: &str, pos: &mut usize) -> (r: Result<Expr, ParseError>)
    requires
        *old(pos) <= s@.len(),
    ensures
        *old(pos) <= *final(pos) <= s@.len(),
        (match r {
            Ok(e) => spec_parse_expr(s@, *old(pos) as int) == Ok::<(ExprModel, int), ParseError>(
                (expr_model(e), *final(pos) as int),
            ) && *old(pos) < *final(pos),
            Err(p) => spec_parse_expr(s@, *old(pos) as int) == Err::<
                (ExprModel, int),
                ParseError,
            >(p),
        }),
    decreases s@.len() - *pos, 0int,
{
    skip_whitespace(s, pos);
    let len = s.unicode_len();
    if *pos < len && s.get_char(*pos) == '(' {
        *pos = *pos + 1;
        let e = match parse_inner_expr(s, pos) {
            Ok(e) => e,
            Err(p) => {
                return Err(p);
            },
        };
        skip_whitespace(s, pos);
        if *pos < len && s.get_char(*pos) == ')' {
            *pos = *pos + 1;
            Ok(e)
        } else {
            Err(ParseError::UnterminatedExpression)
        }
    } else {
        parse_number(s, pos)
    }
}

/// Reads the keyword and argument list of a parenthesised expression, as
/// [`spec_parse_inner`] describes.
fn parse_inner_expr(s: &str, pos: &mut usize) -> (r: Result<Expr, ParseError>)
    requires
        *old(pos) <= s@.len(),
    ensures
        *old(pos) <= *final(pos) <= s@.len(),
        (match r {
            Ok(e) => spec_parse_inner(s@, *old(pos) as int) == Ok::<(ExprModel, int), ParseError>(
                (expr_model(e), *final(pos) as int),
            ),
            Err(p) => spec_parse_inner(s@, *old(pos) as int) == Err::<
                (ExprModel, int),
                ParseError,
            >(p),
        }),
    decreases s@.len() - *pos, 1int,
{
    skip_whitespace(s, pos);
    let len = s.unicode_len();
    if *pos >= len {
        return Err(ParseError::UnknownKeyword);
    }
    let ghost j = *pos as int;
    let c = s.get_char(*pos);
    if c == 'a' {
        *pos = *pos + 1;
        proof {
            reveal_strlit("dd");
            assert(("dd")@ =~= kw_add_tail());
        }
        if let Err(p) = expect_keyword(s, pos, "dd") {
            return Err(p);
        }
        proof {
            assert(kw_add_tail().len() == 2);
            assert(*pos as int == j + 3);
        }
        if !at_keyword_boundary(s, pos, len) {
            return Err(ParseError::UnknownKeyword);
        }
        let list = match parse_list(s, pos) {
            Ok(l) => l,
            Err(p) => {
                return Err(p);
            },
        };
        Ok(Expr::Add(list))
    } else if c == 'm' {
        *pos = *pos + 1;
        proof {
            reveal_strlit("ult");
            assert(("ult")@ =~= kw_mult_tail());
        }
        if let Err(p) = expect_keyword(s, pos, "ult") {
            return Err(p);
        }
        proof {
            assert(kw_mult_tail().len() == 3);
            assert(*pos as int == j + 4);
        }
        if !at_keyword_boundary(s, pos, len) {
            return Err(ParseError::UnknownKeyword);
        }
        let list = match parse_list(s, pos) {
            Ok(l) => l,
            Err(p) => {
                return Err(p);
            },
        };
        Ok(Expr::Mult(list))
    } else {
        Err(ParseError::UnknownKeyword)
    }
}

/// Whether the cursor stands on a position that may legally follow a
/// keyword: whitespace, `)`, or the end of the input.
fn at_keyword_boundary(s: &str, pos: &usize, len: usize) -> (b: bool)
    requires
        len == s@.len(),
        *pos <= s@.len(),
    ensures
        b == keyword_boundary(s@, *pos as int),
{
    if *pos >= len {
        true
    } else {
        let c = s.get_char(*pos);
        is_space_char(c) || c == ')'
    }
}

/// Consumes exactly the characters of `keyword` at the cursor, or reports
/// an unknown keyword.
#[verifier::loop_isolation(false)]
fn expect_keyword(s: &str, pos: &mut usize, keyword: &str) -> (r: Result<(), ParseError>)
    requires
        *old(pos) <= s@.len(),
    ensures
        *old(pos) <= *final(pos) <= s@.len(),
        r is Ok <==> keyword_at(s@, *old(pos) as int, keyword@),
        r is Ok ==> *final(pos) as int == *old(pos) + keyword@.len(),
        r is Err ==> r == Err::<(), ParseError>(ParseError::UnknownKeyword),
{
    let ghost start = *pos as int;
    let len = s.unicode_len();
    let klen = keyword.unicode_len();
    let mut n: usize = 0;
    while n < klen
        invariant
            0 <= n <= klen,
            klen == keyword@.len(),
            len == s@.len(),
            *pos as int == start + n,
            start + n <= s@.len(),
            forall|m: int| 0 <= m < n ==> s@[start + m] == keyword@[m],
        decreases klen - n,
    {
        if *pos >= len {
            return Err(ParseError::UnknownKeyword);
        }
        if s.get_char(*pos) != keyword.get_char(n) {
            return Err(ParseError::UnknownKeyword);
        }
        *pos = *pos + 1;
        n = n + 1;
    }
    Ok(())
}

/// Reads a whitespace-separated argument list up to the next `)` or the end
/// of the input, as [`spec_parse_list`] describes.
#[verifier::loop_isolation(false)]
fn parse_list(s: &str, pos: &mut usize) -> (r: Result<Vec<Expr>, ParseError>)
    requires
        *old(pos) <= s@.len(),
    ensures
        *old(pos) <= *final(pos) <= s@.len(),
        (match r {
            Ok(list) => spec_parse_list(s@, *old(pos) as int) == Ok::<
                (Seq<ExprModel>, int),
                ParseError,
            >((exprs_model(list, 0), *final(pos) as int)),
            Err(p) => spec_parse_list(s@, *old(pos) as int) == Err::<
                (Seq<ExprModel>, int),
                ParseError,
            >(p),
        }),
    decreases s@.len() - *pos, 2int,
{
    let ghost start = *pos as int;
    let mut list: Vec<Expr> = Vec::new();
    skip_whitespace(s, pos);
    let len = s.unicode_len();
    proof {
        assert(exprs_model(list, 0) =~= Seq::<ExprModel>::empty());
    }
    while *pos < len && s.get_char(*pos) != ')'
        invariant
            start <= *pos <= s@.len(),
            len == s@.len(),
            skip_ws(s@, *pos as int) == *pos as int,
            spec_parse_list(s@, start) == prepend_parsed(
                exprs_model(list, 0),
                spec_parse_list(s@, *pos as int),
            ),
        decreases s@.len() - *pos,
    {
        let ghost cur = *pos as int;
        let ghost prefix = exprs_model(list, 0);
        let e = match parse_expr(s, pos) {
            Ok(e) => e,
            Err(p) => {
                return Err(p);
            },
        };
        let ghost k = *pos as int;
        let ghost l0 = list;
        list.push(e);
        proof {
            lemma_exprs_model_push(l0, list, e);
            assert(spec_parse_list(s@, cur) == prepend_parsed(
                seq![expr_model(e)],
                spec_parse_list(s@, k),
            ));
            if let Ok((es, _)) = spec_parse_list(s@, k) {
                assert(prefix + seq![expr_model(e)] + es =~= prefix + (seq![expr_model(e)] + es));
            }
            assert(spec_parse_list(s@, start) == prepend_parsed(
                exprs_model(list, 0),
                spec_parse_list(s@, k),
            ));
        }
        skip_whitespace(s, pos);
        proof {
            assert(spec_parse_list(s@, k) == spec_parse_list(s@, *pos as int));
        }
    }
    proof {
        assert(spec_parse_list(s@, *pos as int) == Ok::<(Seq<ExprModel>, int), ParseError>(
            (Seq::empty(), *pos as int),
        ));
        assert(exprs_model(list, 0) + Seq::<ExprModel>::empty() =~= exprs_model(list, 0));
    }
    Ok(list)
}

/// Reads a bare numeric literal at the cursor, as [`spec_parse_number`]
/// describes.
#[verifier::loop_isolation(false)]
fn parse_number(s: &str, pos: &mut usize) -> (r: Result<Expr, ParseError>)
    requires
        *old(pos) <= s@.len(),
    ensures
        *old(pos) <= *final(pos) <= s@.len(),
        (match r {
            Ok(e) => spec_parse_number(s@, *old(pos) as int) == Ok::<
                (ExprModel, int),
                ParseError,
            >((expr_model(e), *final(pos) as int)) && *old(pos) < *final(pos),
            Err(p) => spec_parse_number(s@, *old(pos) as int) == Err::<
                (ExprModel, int),
                ParseError,
            >(p),
        }),
{
    let start_pos = *pos;
    let ghost start = *pos as int;
    let len = s.unicode_len();
    let mut acc: i32 = 0;
    while *pos < len && is_digit_char(s.get_char(*pos))
        invariant
            start <= *pos <= s@.len(),
            len == s@.len(),
            digits_end(s@, start) == digits_end(s@, *pos as int),
            0 <= acc,
            acc as int == digits_val(s@, start, *pos as int),
        decreases s@.len() - *pos,
    {
        let ghost cur = *pos as int;
        let c = s.get_char(*pos);
        let u = c as u32;
        let d = (u - 48) as i32;
        let scaled = match acc.checked_mul(10) {
            Some(t) => t,
            None => {
                proof {
                    number_overflow_facts(s@, start, cur, acc as int, d as int);
                }
                return Err(ParseError::InvalidNumber);
            },
        };
        acc = match scaled.checked_add(d) {
            Some(next) => next,
            None => {
                proof {
                    number_overflow_facts(s@, start, cur, acc as int, d as int);
                }
                return Err(ParseError::InvalidNumber);
            },
        };
        *pos = *pos + 1;
    }
    if *pos == start_pos {
        if *pos < len {
            Err(ParseError::UnexpectedToken)
        } else {
            Err(ParseError::MissingNumber)
        }
    } else {
        Ok(Expr::Int(acc))
    }
}

/// In the middle of a digit run whose next step would pass `i32::MAX`, the
/// whole run's value passes it too.
proof fn number_overflow_facts(s: Seq<char>, start: int, cur: int, acc: int, d: int)
    requires
        0 <= start <= cur < s.len(),
        is_digit(s[cur]),
        digits_end(s, start) == digits_end(s, cur),
        d == digit_val(s[cur]),
        acc == digits_val(s, start, cur),
        acc * 10 + d > i32::MAX,
    ensures
        digits_end(s, start) > start,
        digits_val(s, start, digits_end(s, start)) > i32::MAX,
{
    let dend = digits_end(s, start);
    assert(digits_end(s, cur) == digits_end(s, cur + 1));
    assert(digits_val(s, start, cur + 1) == acc * 10 + d);
    lemma_digits_val_monotone(s, start, cur + 1, dend);
}

/// Advances the cursor past any run of whitespace.
#[verifier::loop_isolation(false)]
fn skip_whitespace(s: &str, pos: &mut usize)
    requires
        *old(pos) <= s@.len(),
    ensures
        *final(pos) as int == skip_ws(s@, *old(pos) as int),
        *old(pos) <= *final(pos) <= s@.len(),
{
    let ghost start = *pos as int;
    let len = s.unicode_len();
    while *pos < len && is_space_char(s.get_char(*pos))
        invariant
            start <= *pos <= s@.len(),
            len == s@.len(),
            skip_ws(s@, start) == skip_ws(s@, *pos as int),
        decreases s@.len() - *pos,
    {
        *pos = *pos + 1;
    }
}

} // verus!

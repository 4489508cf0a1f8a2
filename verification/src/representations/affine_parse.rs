//! The text syntax of affine expressions.
//!
//! ```text
//! expr        := term (('+' | '-') term)*
//! term        := factor (('/' | '%') coeff)?
//! factor      := mul | int | var | '(' expr ')'
//! mul         := coeff '*'? factor
//! coeff       := coeffFactor ('*' coeffFactor)*
//! coeffFactor := constVar | int | '(' coeff ')'
//! constVar    := alpha+ '_' alpha alphanum*
//! var         := alpha alphanum*
//! int         := ('+' | '-')? digit+
//! ```
//!
//! Blanks may stand before an operator, an operand and a parenthesis, but
//! not between the `(` of a coefficient and its first factor, and between a
//! coefficient and the `*` of its product only spaces and tabs.
//! Alternatives are tried in the order given, and a repetition takes as much
//! as it can. The blanks after a closing parenthesis of an expression, and
//! those after a factor that is not divided, belong to what was read.

use crate::representations::affine_expr::{AffineExpr, Coeff, CoeffModel, ExprModel};
use crate::text::{
    char_at,
    is_alpha,
    is_char_at,
    parse_int,
    read_int,
    scan,
    slice_to_string,
    span,
    to_chars,
    CharClass,
    ParseError,
    ParseErrorKind,
};
use vstd::prelude::*;
use vstd::string::StrSliceExecFns;

verus! {

/// The position of the first character at or after `pos` that is no blank.
pub open spec fn after_blanks(s: Seq<char>, pos: int) -> int {
    let e = span(s, pos, CharClass::Blank);
    if e <= s.len() {
        e
    } else {
        pos
    }
}

/// Whether `to` is a position of `s` after `from`.
pub open spec fn advances(s: Seq<char>, from: int, to: int) -> bool {
    from < to <= s.len()
}

/// A symbolic constant at `pos`: letters, an underscore, a letter, then
/// letters and digits.
pub open spec fn p_const_var(s: Seq<char>, pos: int) -> Option<(Seq<char>, int)> {
    let a = span(s, pos, CharClass::Alpha);
    if 0 <= pos && pos < a && char_at(s, a, '_') && a + 1 < s.len() && is_alpha(s[a + 1]) {
        let e = span(s, a + 1, CharClass::Alnum);
        Some((s.subrange(pos, e), e))
    } else {
        None
    }
}

/// An identifier at `pos`: a letter, then letters and digits.
pub open spec fn p_ident(s: Seq<char>, pos: int) -> Option<(Seq<char>, int)> {
    if 0 <= pos < s.len() && is_alpha(s[pos]) {
        let e = span(s, pos, CharClass::Alnum);
        Some((s.subrange(pos, e), e))
    } else {
        None
    }
}

/// A factor of a coefficient: a symbolic constant, an integer, or a
/// coefficient in parentheses.
pub open spec fn p_coeff_factor(s: Seq<char>, pos: int) -> Option<(CoeffModel, int)>
    decreases s.len() - pos, 0int,
{
    match p_const_var(s, pos) {
        Some((n, e)) => Some((CoeffModel::ConstVar(n), e)),
        None => match parse_int(s, pos) {
            Some((v, e)) => Some((CoeffModel::Const(v), e)),
            None => {
                let p = after_blanks(s, pos);
                if 0 <= pos && char_at(s, p, '(') {
                    match p_coeff(s, p + 1) {
                        Some((c, e)) => {
                            let q = after_blanks(s, e);
                            if char_at(s, q, ')') {
                                Some((c, q + 1))
                            } else {
                                None
                            }
                        },
                        None => None,
                    }
                } else {
                    None
                }
            },
        },
    }
}

/// What follows the first factor of a coefficient: as many `'*' factor` as
/// there are, multiplied from the left.
pub open spec fn p_coeff_tail(s: Seq<char>, pos: int, acc: CoeffModel) -> (CoeffModel, int)
    decreases s.len() - pos, 1int,
{
    let p = after_blanks(s, pos);
    if char_at(s, p, '*') {
        match p_coeff_factor(s, after_blanks(s, p + 1)) {
            Some((c, e)) => if advances(s, p, e) {
                p_coeff_tail(s, e, CoeffModel::Mul(Box::new(acc), Box::new(c)))
            } else {
                (acc, pos)
            },
            None => (acc, pos),
        }
    } else {
        (acc, pos)
    }
}

/// A coefficient: a product of factors.
pub open spec fn p_coeff(s: Seq<char>, pos: int) -> Option<(CoeffModel, int)>
    decreases s.len() - pos, 2int,
{
    match p_coeff_factor(s, pos) {
        Some((c, e)) => if advances(s, pos, e) {
            Some(p_coeff_tail(s, e, c))
        } else {
            None
        },
        None => None,
    }
}

/// The product of a coefficient and an expression; a coefficient of `1` is
/// left out.
pub open spec fn mk_mul(c: CoeffModel, f: ExprModel) -> ExprModel {
    if c == CoeffModel::Const(1) {
        f
    } else {
        ExprModel::Mul(c, Box::new(f))
    }
}

/// A product: a coefficient, then a factor with or without `'*'` before it.
pub open spec fn p_mul(s: Seq<char>, pos: int) -> Option<(ExprModel, int)>
    decreases s.len() - pos, 1int,
{
    match p_coeff(s, pos) {
        None => None,
        Some((c, e)) => if advances(s, pos, e) {
            match p_factor(s, e) {
                Some((f, e2)) => Some((mk_mul(c, f), e2)),
                None => {
                    let q = span(s, e, CharClass::Space);
                    if char_at(s, q, '*') {
                        match p_factor(s, q + 1) {
                            Some((f, e2)) => Some((mk_mul(c, f), e2)),
                            None => None,
                        }
                    } else {
                        None
                    }
                },
            }
        } else {
            None
        },
    }
}

/// A factor: a product, an integer, a variable, or an expression in
/// parentheses.
pub open spec fn p_factor(s: Seq<char>, pos: int) -> Option<(ExprModel, int)>
    decreases s.len() - pos, 2int,
{
    let p = after_blanks(s, pos);
    match p_mul(s, p) {
        Some(r) => Some(r),
        None => match parse_int(s, p) {
            Some((v, e)) => Some((ExprModel::Const(v), e)),
            None => match p_ident(s, p) {
                Some((n, e)) => Some((ExprModel::Var(n), e)),
                None => if char_at(s, p, '(') {
                    match p_expr(s, p + 1) {
                        Some((x, e)) => {
                            let q = after_blanks(s, e);
                            if char_at(s, q, ')') {
                                Some((x, after_blanks(s, q + 1)))
                            } else {
                                None
                            }
                        },
                        None => None,
                    }
                } else {
                    None
                },
            },
        },
    }
}

/// A term: a factor, divided or reduced by a coefficient where `'/'` or
/// `'%'` and a coefficient follow; else the factor and the blanks after it.
pub open spec fn p_term(s: Seq<char>, pos: int) -> Option<(ExprModel, int)>
    decreases s.len() - pos, 3int,
{
    match p_factor(s, pos) {
        None => None,
        Some((f, e)) => {
            let p = after_blanks(s, e);
            if char_at(s, p, '/') {
                match p_coeff(s, after_blanks(s, p + 1)) {
                    Some((c, e2)) => Some((ExprModel::Div(Box::new(f), c), e2)),
                    None => Some((f, p)),
                }
            } else if char_at(s, p, '%') {
                match p_coeff(s, after_blanks(s, p + 1)) {
                    Some((c, e2)) => Some((ExprModel::Mod(Box::new(f), c), e2)),
                    None => Some((f, p)),
                }
            } else {
                Some((f, p))
            }
        },
    }
}

/// What follows the first term of an expression: as many `('+' | '-') term`
/// as there are, combined from the left.
pub open spec fn p_expr_tail(s: Seq<char>, pos: int, acc: ExprModel) -> (ExprModel, int)
    decreases s.len() - pos, 4int,
{
    let p = after_blanks(s, pos);
    if char_at(s, p, '+') {
        match p_term(s, p + 1) {
            Some((t, e)) => if advances(s, p, e) {
                p_expr_tail(s, e, ExprModel::Add(Box::new(acc), Box::new(t)))
            } else {
                (acc, pos)
            },
            None => (acc, pos),
        }
    } else if char_at(s, p, '-') {
        match p_term(s, p + 1) {
            Some((t, e)) => if advances(s, p, e) {
                p_expr_tail(s, e, ExprModel::Sub(Box::new(acc), Box::new(t)))
            } else {
                (acc, pos)
            },
            None => (acc, pos),
        }
    } else {
        (acc, pos)
    }
}

/// An expression: a sum or difference of terms. The result holds the
/// expression and the position after its last token.
pub open spec fn p_expr(s: Seq<char>, pos: int) -> Option<(ExprModel, int)>
    decreases s.len() - pos, 5int,
{
    match p_term(s, pos) {
        Some((t, e)) => if advances(s, pos, e) {
            Some(p_expr_tail(s, e, t))
        } else {
            None
        },
        None => None,
    }
}

fn read_const_var(s: &Vec<char>, pos: usize) -> (r: Option<(String, usize)>)
    requires
        pos <= s.len(),
    ensures
        match r {
            Some((n, e)) => p_const_var(s@, pos as int) == Some((n@, e as int)) && pos < e
                <= s.len(),
            None => p_const_var(s@, pos as int) is None,
        },
{
    let a = scan(s, pos, CharClass::Alpha);
    if a > pos && is_char_at(s, a, '_') && a + 1 < s.len() && crate::text::class_has(
        CharClass::Alpha,
        s[a + 1],
    ) {
        let e = scan(s, a + 1, CharClass::Alnum);
        Some((slice_to_string(s, pos, e), e))
    } else {
        None
    }
}

/// Reads an identifier that starts at `pos`.
pub(crate) fn read_ident(s: &Vec<char>, pos: usize) -> (r: Option<(String, usize)>)
    requires
        pos <= s.len(),
    ensures
        match r {
            Some((n, e)) => p_ident(s@, pos as int) == Some((n@, e as int)) && pos < e <= s.len(),
            None => p_ident(s@, pos as int) is None,
        },
{
    if pos < s.len() && crate::text::class_has(CharClass::Alpha, s[pos]) {
        let e = scan(s, pos, CharClass::Alnum);
        proof {
            assert(crate::text::run(s@, pos as int, CharClass::Alnum) >= 1);
        }
        Some((slice_to_string(s, pos, e), e))
    } else {
        None
    }
}

fn read_coeff_factor(s: &Vec<char>, pos: usize) -> (r: Option<(Coeff, usize)>)
    requires
        pos <= s.len(),
    ensures
        match r {
            Some((c, e)) => p_coeff_factor(s@, pos as int) == Some((c@, e as int)) && pos < e
                <= s.len(),
            None => p_coeff_factor(s@, pos as int) is None,
        },
    decreases s.len() - pos, 0int,
{
    if let Some((n, e)) = read_const_var(s, pos) {
        return Some((Coeff::ConstVar(n), e));
    }
    if let Some((v, e)) = read_int(s, pos) {
        return Some((Coeff::Const(v), e));
    }
    let p = scan(s, pos, CharClass::Blank);
    if !is_char_at(s, p, '(') {
        return None;
    }
    match read_coeff(s, p + 1) {
        Some((c, e)) => {
            let q = scan(s, e, CharClass::Blank);
            if is_char_at(s, q, ')') {
                Some((c, q + 1))
            } else {
                None
            }
        },
        None => None,
    }
}

fn read_coeff_tail(s: &Vec<char>, pos: usize, acc: Coeff) -> (r: (Coeff, usize))
    requires
        pos <= s.len(),
    ensures
        p_coeff_tail(s@, pos as int, acc@) == (r.0@, r.1 as int),
        pos <= r.1 <= s.len(),
    decreases s.len() - pos, 1int,
{
    let p = scan(s, pos, CharClass::Blank);
    if !is_char_at(s, p, '*') {
        return (acc, pos);
    }
    let b = scan(s, p + 1, CharClass::Blank);
    match read_coeff_factor(s, b) {
        Some((c, e)) => read_coeff_tail(s, e, Coeff::Mul(Box::new(acc), Box::new(c))),
        None => (acc, pos),
    }
}

fn read_coeff(s: &Vec<char>, pos: usize) -> (r: Option<(Coeff, usize)>)
    requires
        pos <= s.len(),
    ensures
        match r {
            Some((c, e)) => p_coeff(s@, pos as int) == Some((c@, e as int)) && pos < e <= s.len(),
            None => p_coeff(s@, pos as int) is None,
        },
    decreases s.len() - pos, 2int,
{
    match read_coeff_factor(s, pos) {
        Some((c, e)) => Some(read_coeff_tail(s, e, c)),
        None => None,
    }
}

fn make_mul(c: Coeff, f: AffineExpr) -> (r: AffineExpr)
    ensures
        r@ == mk_mul(c@, f@),
{
    let one = match &c {
        Coeff::Const(v) => *v == 1,
        _ => false,
    };
    if one {
        f
    } else {
        AffineExpr::Mul(c, Box::new(f))
    }
}

fn read_mul(s: &Vec<char>, pos: usize) -> (r: Option<(AffineExpr, usize)>)
    requires
        pos <= s.len(),
    ensures
        match r {
            Some((x, e)) => p_mul(s@, pos as int) == Some((x@, e as int)) && pos < e <= s.len(),
            None => p_mul(s@, pos as int) is None,
        },
    decreases s.len() - pos, 1int,
{
    let (c, e) = match read_coeff(s, pos) {
        Some(r) => r,
        None => {
            return None;
        },
    };
    if let Some((f, e2)) = read_factor(s, e) {
        return Some((make_mul(c, f), e2));
    }
    let q = scan(s, e, CharClass::Space);
    if !is_char_at(s, q, '*') {
        return None;
    }
    match read_factor(s, q + 1) {
        Some((f, e2)) => Some((make_mul(c, f), e2)),
        None => None,
    }
}

fn read_factor(s: &Vec<char>, pos: usize) -> (r: Option<(AffineExpr, usize)>)
    requires
        pos <= s.len(),
    ensures
        match r {
            Some((x, e)) => p_factor(s@, pos as int) == Some((x@, e as int)) && pos < e
                <= s.len(),
            None => p_factor(s@, pos as int) is None,
        },
    decreases s.len() - pos, 2int,
{
    let p = scan(s, pos, CharClass::Blank);
    if let Some(r) = read_mul(s, p) {
        return Some(r);
    }
    if let Some((v, e)) = read_int(s, p) {
        return Some((AffineExpr::Const(v), e));
    }
    if let Some((n, e)) = read_ident(s, p) {
        return Some((AffineExpr::Var(n), e));
    }
    if !is_char_at(s, p, '(') {
        return None;
    }
    match read_expr(s, p + 1) {
        Some((x, e)) => {
            let q = scan(s, e, CharClass::Blank);
            if is_char_at(s, q, ')') {
                Some((x, scan(s, q + 1, CharClass::Blank)))
            } else {
                None
            }
        },
        None => None,
    }
}

fn read_term(s: &Vec<char>, pos: usize) -> (r: Option<(AffineExpr, usize)>)
    requires
        pos <= s.len(),
    ensures
        match r {
            Some((x, e)) => p_term(s@, pos as int) == Some((x@, e as int)) && pos < e <= s.len(),
            None => p_term(s@, pos as int) is None,
        },
    decreases s.len() - pos, 3int,
{
    let (f, e) = match read_factor(s, pos) {
        Some(r) => r,
        None => {
            return None;
        },
    };
    let p = scan(s, e, CharClass::Blank);
    if is_char_at(s, p, '/') {
        let b = scan(s, p + 1, CharClass::Blank);
        match read_coeff(s, b) {
            Some((c, e2)) => Some((AffineExpr::Div(Box::new(f), c), e2)),
            None => Some((f, p)),
        }
    } else if is_char_at(s, p, '%') {
        let b = scan(s, p + 1, CharClass::Blank);
        match read_coeff(s, b) {
            Some((c, e2)) => Some((AffineExpr::Mod(Box::new(f), c), e2)),
            None => Some((f, p)),
        }
    } else {
        Some((f, p))
    }
}

fn read_expr_tail(s: &Vec<char>, pos: usize, acc: AffineExpr) -> (r: (AffineExpr, usize))
    requires
        pos <= s.len(),
    ensures
        p_expr_tail(s@, pos as int, acc@) == (r.0@, r.1 as int),
        pos <= r.1 <= s.len(),
    decreases s.len() - pos, 4int,
{
    let p = scan(s, pos, CharClass::Blank);
    if is_char_at(s, p, '+') {
        match read_term(s, p + 1) {
            Some((t, e)) => read_expr_tail(s, e, AffineExpr::Add(Box::new(acc), Box::new(t))),
            None => (acc, pos),
        }
    } else if is_char_at(s, p, '-') {
        match read_term(s, p + 1) {
            Some((t, e)) => read_expr_tail(s, e, AffineExpr::Sub(Box::new(acc), Box::new(t))),
            None => (acc, pos),
        }
    } else {
        (acc, pos)
    }
}

/// Reads an expression that starts at `pos`.
pub(crate) fn read_expr(s: &Vec<char>, pos: usize) -> (r: Option<(AffineExpr, usize)>)
    requires
        pos <= s.len(),
    ensures
        match r {
            Some((x, e)) => p_expr(s@, pos as int) == Some((x@, e as int)) && pos < e <= s.len(),
            None => p_expr(s@, pos as int) is None,
        },
    decreases s.len() - pos, 5int,
{
    match read_term(s, pos) {
        Some((t, e)) => Some(read_expr_tail(s, e, t)),
        None => None,
    }
}

/// Reads an expression at the start of `input`. The result holds what
/// follows the expression, and the expression. Where the input starts with
/// no expression, the error gives the position of its first character that
/// is no blank.
pub fn parse_expr(input: &str) -> (r: Result<(&str, AffineExpr), ParseError>)
    ensures
        match r {
            Ok((rest, x)) => p_expr(input@, 0) matches Some(found) && found.0 == x@ && rest@
                == input@.subrange(found.1, input@.len() as int),
            Err(err) => p_expr(input@, 0) is None && err.kind == ParseErrorKind::Affine
                && err.position == span(input@, 0, CharClass::Blank),
        },
{
    let s = to_chars(input);
    match read_expr(&s, 0) {
        Some((x, e)) => Ok((input.substring_char(e, s.len()), x)),
        None => Err(
            ParseError { kind: ParseErrorKind::Affine, position: scan(&s, 0, CharClass::Blank) },
        ),
    }
}

} // verus!

//! Reading the text of an expression gives the expression back.
//!
//! The text of an expression has no parentheses but around the operand of a
//! product, so it determines the expression only where the expression has
//! the shape that the grammar gives to what it reads: sums and differences
//! nested to the left, a quotient or remainder of a factor, a product of a
//! coefficient other than `1` and a variable or a compound expression, and
//! names that the grammar takes as names. `canon_expr` says so.

use crate::representations::affine_expr::{coeff_text, expr_text, op_text, CoeffModel, ExprModel};
use crate::representations::affine_parse::{
    advances,
    after_blanks,
    p_coeff,
    p_coeff_factor,
    p_coeff_tail,
    p_const_var,
    p_expr,
    p_expr_tail,
    p_factor,
    p_ident,
    p_mul,
    p_term,
};
use crate::text::{
    char_at,
    in_class,
    int_text,
    is_alnum,
    is_alpha,
    is_blank,
    is_digit,
    lemma_int_text,
    lemma_parse_int_text,
    lemma_span_bounds,
    lemma_span_is,
    occurs_at,
    parse_int,
    run,
    span,
    CharClass,
};
use vstd::prelude::*;

verus! {

/// Whether the text is a name of a variable: a letter, then letters and
/// digits.
pub open spec fn name_ok(n: Seq<char>) -> bool {
    &&& n.len() >= 1
    &&& is_alpha(n[0])
    &&& forall|i: int| 0 <= i < n.len() ==> is_alnum(#[trigger] n[i])
}

/// Whether the text is a name of a symbolic constant: letters, an
/// underscore, a letter, then letters and digits.
pub open spec fn const_var_ok(n: Seq<char>) -> bool {
    let a = run(n, 0, CharClass::Alpha) as int;
    &&& 1 <= a
    &&& a + 1 < n.len()
    &&& n[a] == '_'
    &&& is_alpha(n[a + 1])
    &&& forall|i: int| a + 1 <= i < n.len() ==> is_alnum(#[trigger] n[i])
}

/// Whether a coefficient is a constant or a symbolic constant with a name
/// that reads as one.
pub open spec fn coeff_atom_ok(c: CoeffModel) -> bool {
    match c {
        CoeffModel::Const(_) => true,
        CoeffModel::ConstVar(n) => const_var_ok(n),
        CoeffModel::Mul(_, _) => false,
    }
}

/// Whether a coefficient has the shape that reading gives: products nested
/// to the left.
pub open spec fn coeff_ok(c: CoeffModel) -> bool
    decreases c,
{
    match c {
        CoeffModel::Mul(a, b) => coeff_ok(*a) && coeff_atom_ok(*b),
        _ => coeff_atom_ok(c),
    }
}

/// Whether an expression has the shape of a factor.
pub open spec fn canon_factor(e: ExprModel) -> bool
    decreases e, 0int,
{
    match e {
        ExprModel::Var(n) => name_ok(n),
        ExprModel::Const(_) => true,
        ExprModel::Mul(c, x) => coeff_ok(c) && c != CoeffModel::Const(1) && (match *x {
            ExprModel::Var(n) => name_ok(n),
            ExprModel::Const(_) => false,
            _ => canon_expr(*x),
        }),
        _ => false,
    }
}

/// Whether an expression has the shape of a term.
pub open spec fn canon_term(e: ExprModel) -> bool
    decreases e, 1int,
{
    match e {
        ExprModel::Div(x, c) => canon_factor(*x) && coeff_ok(c),
        ExprModel::Mod(x, c) => canon_factor(*x) && coeff_ok(c),
        _ => canon_factor(e),
    }
}

/// Whether an expression has the shape that reading gives.
pub open spec fn canon_expr(e: ExprModel) -> bool
    decreases e, 2int,
{
    match e {
        ExprModel::Add(a, b) => canon_expr(*a) && canon_term(*b),
        ExprModel::Sub(a, b) => canon_expr(*a) && canon_term(*b),
        _ => canon_term(e),
    }
}

/// Whether a token that ends before `q` ends there: the text is over, or a
/// space or a closing bracket follows.
pub open spec fn breaks(s: Seq<char>, q: int) -> bool {
    0 <= q <= s.len() && (q == s.len() || s[q] == ')' || s[q] == ']' || s[q] == ' ')
}

/// Whether an operator with a space on either side stands at `q`.
pub open spec fn spaced_op(s: Seq<char>, q: int, op: char) -> bool {
    0 <= q && q + 3 <= s.len() && s[q] == ' ' && s[q + 1] == op && s[q + 2] == ' '
}

/// What may follow an expression: the end of the text or a closing
/// bracket.
pub open spec fn follows_expr(s: Seq<char>, q: int) -> bool {
    0 <= q <= s.len() && (q == s.len() || s[q] == ')' || s[q] == ']')
}

/// What may follow a term: what may follow an expression, `+` or `-`.
pub open spec fn follows_term(s: Seq<char>, q: int) -> bool {
    follows_expr(s, q) || spaced_op(s, q, '+') || spaced_op(s, q, '-')
}

/// What may follow a factor: what may follow a term, `/` or `%`.
pub open spec fn follows_factor(s: Seq<char>, q: int) -> bool {
    follows_term(s, q) || spaced_op(s, q, '/') || spaced_op(s, q, '%')
}

pub open spec fn is_op(c: char) -> bool {
    c == '+' || c == '-' || c == '*' || c == '/' || c == '%'
}

/// No blank at a position: the search for the next token stays there.
pub proof fn lemma_no_blank(s: Seq<char>, q: int)
    requires
        0 <= q <= s.len(),
        q < s.len() ==> !is_blank(s[q]),
    ensures
        after_blanks(s, q) == q,
{
}

/// One space at a position, and no blank after it: the next token starts
/// after the space.
pub proof fn lemma_one_space(s: Seq<char>, q: int)
    requires
        0 <= q < s.len(),
        s[q] == ' ',
        q + 1 < s.len() ==> !is_blank(s[q + 1]),
    ensures
        after_blanks(s, q) == q + 1,
        span(s, q, CharClass::Space) == q + 1,
{
    reveal_with_fuel(run, 2);
}

/// The two parts of a text that stands in `s` stand there one after the
/// other.
pub proof fn lemma_occurs_concat(s: Seq<char>, pos: int, a: Seq<char>, b: Seq<char>)
    requires
        occurs_at(s, pos, a + b),
    ensures
        occurs_at(s, pos, a),
        occurs_at(s, pos + a.len(), b),
{
    assert forall|i: int| 0 <= i < a.len() implies s[pos + i] == #[trigger] a[i] by {
        assert(s[pos + i] == (a + b)[i]);
    }
    assert forall|i: int| 0 <= i < b.len() implies s[pos + a.len() + i] == #[trigger] b[i] by {
        assert(s[pos + (a.len() + i)] == (a + b)[a.len() + i]);
    }
}

/// Where an operator text stands, a space, the operator and a space stand.
pub proof fn lemma_occurs_op(s: Seq<char>, q: int, op: char)
    requires
        occurs_at(s, q, op_text(op)),
    ensures
        spaced_op(s, q, op),
{
    let t = op_text(op);
    assert(s[q + 0] == t[0]);
    assert(s[q + 1] == t[1]);
    assert(s[q + 2] == t[2]);
}

/// At a position where no operand can start, no factor of a coefficient
/// and no factor is read.
pub open spec fn no_operand(s: Seq<char>, p: int) -> bool {
    &&& 0 <= p <= s.len()
    &&& p < s.len() ==> {
        &&& !is_blank(s[p])
        &&& !is_alpha(s[p])
        &&& !is_digit(s[p])
        &&& s[p] != '('
        &&& (s[p] == '+' || s[p] == '-') ==> (p + 1 < s.len() && !is_digit(s[p + 1]))
    }
}

pub proof fn lemma_no_operand(s: Seq<char>, p: int)
    requires
        no_operand(s, p),
    ensures
        p_coeff_factor(s, p) is None,
        p_coeff(s, p) is None,
        p_mul(s, p) is None,
        p_factor(s, p) is None,
{
    lemma_no_blank(s, p);
    assert(p_const_var(s, p) is None);
    assert(parse_int(s, p) is None) by {
        reveal_with_fuel(run, 2);
    }
    assert(p_ident(s, p) is None);
    assert(p_coeff_factor(s, p) is None);
    assert(p_coeff(s, p) is None);
    assert(p_mul(s, p) is None);
}

/// After a factor nothing follows that could be read as one more operand.
pub proof fn lemma_follow_no_operand(s: Seq<char>, q: int)
    requires
        follows_factor(s, q),
    ensures
        no_operand(s, after_blanks(s, q)),
        !char_at(s, after_blanks(s, q), '*'),
        !char_at(s, span(s, q, CharClass::Space), '*'),
        p_factor(s, q) is None,
        p_coeff_factor(s, q) is None,
        breaks(s, q),
{
    reveal_with_fuel(run, 2);
    if follows_expr(s, q) {
        lemma_no_blank(s, q);
    } else {
        lemma_one_space(s, q);
    }
    let p = after_blanks(s, q);
    lemma_no_operand(s, p);
    lemma_no_blank(s, p);
    assert(p_factor(s, q) is None);
    assert(p_coeff_factor(s, q) is None);
}

/// After a term neither `/` nor `%` follows.
pub proof fn lemma_follow_term(s: Seq<char>, q: int)
    requires
        follows_term(s, q),
    ensures
        !char_at(s, after_blanks(s, q), '/'),
        !char_at(s, after_blanks(s, q), '%'),
        !char_at(s, after_blanks(s, q), '*'),
{
    if follows_expr(s, q) {
        lemma_no_blank(s, q);
    } else {
        lemma_one_space(s, q);
    }
}

/// An integer text is read back as a factor of a coefficient.
pub proof fn lemma_const_atom(s: Seq<char>, pos: int, v: i32)
    requires
        occurs_at(s, pos, int_text(v as int)),
        breaks(s, pos + int_text(v as int).len()),
    ensures
        after_blanks(s, pos) == pos,
        p_const_var(s, pos) is None,
        p_ident(s, pos) is None,
        parse_int(s, pos) == Some((v, pos + int_text(v as int).len())),
        p_coeff_factor(s, pos) == Some((CoeffModel::Const(v), pos + int_text(v as int).len())),
{
    let t = int_text(v as int);
    lemma_int_text(v as int);
    assert(s[pos + 0] == t[0]);
    lemma_no_blank(s, pos);
    lemma_parse_int_text(s, pos, v);
}

/// The name of a symbolic constant is read back as a factor of a
/// coefficient.
pub proof fn lemma_const_var_atom(s: Seq<char>, pos: int, n: Seq<char>)
    requires
        const_var_ok(n),
        occurs_at(s, pos, n),
        breaks(s, pos + n.len()),
    ensures
        after_blanks(s, pos) == pos,
        p_const_var(s, pos) == Some((n, pos + n.len())),
        p_coeff_factor(s, pos) == Some((CoeffModel::ConstVar(n), pos + n.len())),
{
    let a = run(n, 0, CharClass::Alpha) as int;
    lemma_span_bounds(n, 0, CharClass::Alpha);
    assert(s[pos + 0] == n[0]);
    assert(is_alpha(n[0]));
    lemma_no_blank(s, pos);
    assert forall|i: int| pos <= i < pos + a implies in_class(CharClass::Alpha, #[trigger] s[i]) by {
        assert(s[pos + (i - pos)] == n[i - pos]);
        assert(in_class(CharClass::Alpha, n[i - pos]));
    }
    assert(s[pos + a] == n[a]);
    lemma_span_is(s, pos, pos + a, CharClass::Alpha);
    assert(s[pos + (a + 1)] == n[a + 1]);
    assert forall|i: int| pos + a + 1 <= i < pos + n.len() implies in_class(
        CharClass::Alnum,
        #[trigger] s[i],
    ) by {
        assert(s[pos + (i - pos)] == n[i - pos]);
        assert(is_alnum(n[i - pos]));
    }
    lemma_span_is(s, pos + a + 1, pos + n.len(), CharClass::Alnum);
    assert(s.subrange(pos, pos + n.len()) =~= n) by {
        assert forall|i: int| 0 <= i < n.len() implies s.subrange(pos, pos + n.len())[i]
            == n[i] by {
            assert(s[pos + i] == n[i]);
        }
    }
}

/// The text of a constant or of a symbolic constant is read back as a
/// factor of a coefficient.
pub proof fn lemma_coeff_atom(s: Seq<char>, pos: int, c: CoeffModel)
    requires
        coeff_atom_ok(c),
        occurs_at(s, pos, coeff_text(c)),
        breaks(s, pos + coeff_text(c).len()),
    ensures
        after_blanks(s, pos) == pos,
        coeff_text(c).len() >= 1,
        p_coeff_factor(s, pos) == Some((c, pos + coeff_text(c).len())),
{
    match c {
        CoeffModel::Const(v) => {
            lemma_int_text(v as int);
            lemma_const_atom(s, pos, v);
        },
        CoeffModel::ConstVar(n) => {
            lemma_const_var_atom(s, pos, n);
        },
        CoeffModel::Mul(_, _) => {},
    }
}

/// The text of a coefficient is read back as the coefficient, and the
/// reading goes on with what follows the text.
pub proof fn lemma_coeff_read(s: Seq<char>, pos: int, c: CoeffModel)
    requires
        coeff_ok(c),
        occurs_at(s, pos, coeff_text(c)),
        breaks(s, pos + coeff_text(c).len()),
    ensures
        after_blanks(s, pos) == pos,
        coeff_text(c).len() >= 1,
        p_coeff(s, pos) == Some(p_coeff_tail(s, pos + coeff_text(c).len(), c)),
    decreases c,
{
    match c {
        CoeffModel::Mul(a, b) => {
            let ta = coeff_text(*a);
            let tb = coeff_text(*b);
            let qa = pos + ta.len();
            assert(coeff_text(c) == (ta + op_text('*')) + tb);
            lemma_occurs_concat(s, pos, ta + op_text('*'), tb);
            lemma_occurs_concat(s, pos, ta, op_text('*'));
            lemma_occurs_op(s, qa, '*');
            lemma_coeff_read(s, pos, *a);
            lemma_coeff_atom(s, qa + 3, *b);
            lemma_one_space(s, qa);
            lemma_one_space(s, qa + 2);
            let qb = qa + 3 + tb.len();
            assert(p_coeff_factor(s, qa + 3) == Some((*b, qb)));
            assert(advances(s, qa + 1, qb));
            assert(p_coeff_tail(s, qa, *a) == p_coeff_tail(
                s,
                qb,
                CoeffModel::Mul(Box::new(*a), Box::new(*b)),
            ));
        },
        _ => {
            lemma_coeff_atom(s, pos, c);
        },
    }
}

/// A factor and a term are read from where the blanks end.
pub proof fn lemma_skip_blanks(s: Seq<char>, from: int, to: int)
    requires
        0 <= from <= to <= s.len(),
        after_blanks(s, from) == to,
        after_blanks(s, to) == to,
    ensures
        p_factor(s, from) == p_factor(s, to),
        p_term(s, from) == p_term(s, to),
{
}

/// Where no operand can start after the blanks, none is read.
pub proof fn lemma_no_operand_after(s: Seq<char>, q: int)
    requires
        0 <= q <= s.len(),
        no_operand(s, after_blanks(s, q)),
    ensures
        p_factor(s, q) is None,
        p_coeff_factor(s, q) is None,
{
    let p = after_blanks(s, q);
    lemma_no_operand(s, p);
    lemma_no_blank(s, p);
}

/// Skipping blanks twice is skipping them once.
pub proof fn lemma_after_blanks_idem(s: Seq<char>, q: int)
    requires
        0 <= q <= s.len(),
    ensures
        q <= after_blanks(s, q) <= s.len(),
        after_blanks(s, after_blanks(s, q)) == after_blanks(s, q),
{
    lemma_span_bounds(s, q, CharClass::Blank);
    lemma_no_blank(s, after_blanks(s, q));
}

/// Where the reading of a factor ends whose text ends at `q`: after the
/// blanks that follow a closing parenthesis, at `q` otherwise.
pub open spec fn factor_end(s: Seq<char>, e: ExprModel, q: int) -> int {
    match e {
        ExprModel::Mul(_, x) => if *x is Var {
            q
        } else {
            after_blanks(s, q)
        },
        _ => q,
    }
}

/// Where the reading of a term ends whose text ends at `q`: at `q` after a
/// divisor, after the blanks that follow otherwise.
pub open spec fn term_end(s: Seq<char>, e: ExprModel, q: int) -> int {
    match e {
        ExprModel::Div(_, _) => q,
        ExprModel::Mod(_, _) => q,
        _ => after_blanks(s, q),
    }
}

/// Where the reading of the last term of an expression ends whose text
/// ends at `q`.
pub open spec fn expr_end(s: Seq<char>, e: ExprModel, q: int) -> int {
    match e {
        ExprModel::Add(_, b) => term_end(s, *b, q),
        ExprModel::Sub(_, b) => term_end(s, *b, q),
        _ => term_end(s, e, q),
    }
}

/// Whether the reading of a coefficient at the start of an expression
/// fails or ends inside the expression, before a space and an operator.
pub open spec fn coeff_prefix_stops(s: Seq<char>, pos: int, end: int) -> bool {
    match p_coeff(s, pos) {
        None => true,
        Some((_, k)) => pos < k < end && k + 1 < s.len() && s[k] == ' ' && is_op(s[k + 1]),
    }
}

/// The name of a variable is read back as a variable, and as nothing else.
pub proof fn lemma_var_read(s: Seq<char>, pos: int, n: Seq<char>)
    requires
        name_ok(n),
        occurs_at(s, pos, n),
        breaks(s, pos + n.len()),
    ensures
        after_blanks(s, pos) == pos,
        p_coeff_factor(s, pos) is None,
        p_coeff(s, pos) is None,
        p_factor(s, pos) == Some((ExprModel::Var(n), pos + n.len())),
{
    let q = pos + n.len();
    assert(s[pos + 0] == n[0]);
    lemma_no_blank(s, pos);
    assert forall|i: int| pos <= i < q implies in_class(CharClass::Alnum, #[trigger] s[i]) by {
        assert(s[pos + (i - pos)] == n[i - pos]);
        assert(is_alnum(n[i - pos]));
    }
    lemma_span_is(s, pos, q, CharClass::Alnum);
    assert(s.subrange(pos, q) =~= n) by {
        assert forall|i: int| 0 <= i < n.len() implies s.subrange(pos, q)[i] == n[i] by {
            assert(s[pos + i] == n[i]);
        }
    }
    assert(p_ident(s, pos) == Some((n, q)));
    // The letters that start the name are not followed by an underscore.
    let a = span(s, pos, CharClass::Alpha);
    lemma_span_bounds(s, pos, CharClass::Alpha);
    assert(a <= q) by {
        if a > q {
            assert(in_class(CharClass::Alpha, s[q]));
        }
    }
    assert(!char_at(s, a, '_')) by {
        if a < q {
            assert(in_class(CharClass::Alnum, s[a]));
        }
    }
    assert(p_const_var(s, pos) is None);
    assert(parse_int(s, pos) is None) by {
        reveal_with_fuel(run, 2);
    }
    assert(p_coeff_factor(s, pos) is None);
    assert(p_coeff(s, pos) is None);
    assert(p_mul(s, pos) is None);
}

/// An integer text before a space and an operator other than `*` is read
/// as a coefficient that ends there.
pub proof fn lemma_const_prefix(s: Seq<char>, pos: int, v: i32, op: char)
    requires
        occurs_at(s, pos, int_text(v as int)),
        spaced_op(s, pos + int_text(v as int).len(), op),
        op != '*',
        !is_blank(op),
    ensures
        p_coeff(s, pos) == Some((CoeffModel::Const(v), pos + int_text(v as int).len())),
{
    let q = pos + int_text(v as int).len();
    lemma_int_text(v as int);
    lemma_coeff_read(s, pos, CoeffModel::Const(v));
    lemma_one_space(s, q);
}

/// An integer text is read back as a constant.
pub proof fn lemma_const_read(s: Seq<char>, pos: int, v: i32)
    requires
        occurs_at(s, pos, int_text(v as int)),
        follows_factor(s, pos + int_text(v as int).len()),
    ensures
        after_blanks(s, pos) == pos,
        p_factor(s, pos) == Some((ExprModel::Const(v), pos + int_text(v as int).len())),
{
    let q = pos + int_text(v as int).len();
    lemma_int_text(v as int);
    lemma_follow_no_operand(s, q);
    lemma_const_atom(s, pos, v);
    lemma_coeff_read(s, pos, CoeffModel::Const(v));
    assert(p_coeff_tail(s, q, CoeffModel::Const(v)) == (CoeffModel::Const(v), q));
    assert(p_coeff(s, pos) == Some((CoeffModel::Const(v), q)));
    assert(p_mul(s, pos) is None);
}

/// The start of a product: the coefficient, then a space, `*` and a space.
pub proof fn lemma_product_start(s: Seq<char>, pos: int, c: CoeffModel, rest: Seq<char>)
    requires
        coeff_ok(c),
        occurs_at(s, pos, coeff_text(c) + op_text('*') + rest),
    ensures
        after_blanks(s, pos) == pos,
        coeff_text(c).len() >= 1,
        spaced_op(s, pos + coeff_text(c).len(), '*'),
        after_blanks(s, pos + coeff_text(c).len()) == pos + coeff_text(c).len() + 1,
        span(s, pos + coeff_text(c).len(), CharClass::Space) == pos + coeff_text(c).len() + 1,
        occurs_at(s, pos + coeff_text(c).len() + 3, rest),
        p_coeff(s, pos) == Some(p_coeff_tail(s, pos + coeff_text(c).len(), c)),
        p_factor(s, pos + coeff_text(c).len()) is None,
{
    let tc = coeff_text(c);
    let qc = pos + tc.len();
    let star = op_text('*');
    lemma_occurs_concat(s, pos, tc + star, rest);
    lemma_occurs_concat(s, pos, tc, star);
    lemma_occurs_op(s, qc, '*');
    lemma_coeff_read(s, pos, c);
    lemma_one_space(s, qc);
    lemma_no_operand_after(s, qc);
}

/// The text of a product of a coefficient and a variable is read back as
/// the product.
pub proof fn lemma_product_var(s: Seq<char>, pos: int, c: CoeffModel, n: Seq<char>)
    requires
        coeff_ok(c),
        c != CoeffModel::Const(1),
        name_ok(n),
        occurs_at(s, pos, coeff_text(c) + op_text('*') + n),
        breaks(s, pos + (coeff_text(c) + op_text('*') + n).len()),
    ensures
        after_blanks(s, pos) == pos,
        p_coeff(s, pos) == Some((c, pos + coeff_text(c).len())),
        spaced_op(s, pos + coeff_text(c).len(), '*'),
        p_mul(s, pos) == Some(
            (
                ExprModel::Mul(c, Box::new(ExprModel::Var(n))),
                pos + (coeff_text(c) + op_text('*') + n).len(),
            ),
        ),
{
    let qc = pos + coeff_text(c).len();
    lemma_product_start(s, pos, c, n);
    lemma_var_read(s, qc + 3, n);
    lemma_one_space(s, qc + 2);
    lemma_skip_blanks(s, qc + 2, qc + 3);
    assert(p_coeff_factor(s, qc + 3) is None);
    assert(p_coeff_tail(s, qc, c) == (c, qc));
}

/// An expression in parentheses is read back as a factor, and not as a
/// factor of a coefficient.
pub proof fn lemma_paren_read(s: Seq<char>, pos: int, x: ExprModel)
    requires
        canon_expr(x),
        !(x is Const),
        !(x is Var),
        occurs_at(s, pos, seq!['('] + expr_text(x) + seq![')']),
    ensures
        after_blanks(s, pos) == pos,
        p_coeff_factor(s, pos) is None,
        p_factor(s, pos) == Some(
            (x, after_blanks(s, pos + (seq!['('] + expr_text(x) + seq![')']).len())),
        ),
    decreases x, 3int,
{
    let tx = expr_text(x);
    let qx = pos + 1 + tx.len();
    lemma_occurs_concat(s, pos, seq!['('] + tx, seq![')']);
    lemma_occurs_concat(s, pos, seq!['('], tx);
    assert(s[pos + 0] == seq!['('][0]);
    assert(s[qx + 0] == seq![')'][0]);
    lemma_no_blank(s, pos);
    lemma_no_blank(s, qx);
    lemma_expr_read(s, pos + 1, x);
    match p_coeff(s, pos + 1) {
        None => {},
        Some((_, k)) => {
            lemma_one_space(s, k);
        },
    }
    assert(p_const_var(s, pos) is None);
    assert(parse_int(s, pos) is None) by {
        reveal_with_fuel(run, 2);
    }
    assert(p_ident(s, pos) is None);
    assert(p_coeff_factor(s, pos) is None);
    assert(p_coeff(s, pos) is None);
    assert(p_mul(s, pos) is None);
    assert(expr_end(s, x, qx) == qx);
    assert(p_expr_tail(s, qx, x) == (x, qx));
    assert(p_expr(s, pos + 1) == Some((x, qx)));
}

/// The text of a product of a coefficient and an expression in parentheses
/// is read back as the product.
pub proof fn lemma_product_paren(s: Seq<char>, pos: int, c: CoeffModel, x: ExprModel)
    requires
        coeff_ok(c),
        c != CoeffModel::Const(1),
        canon_expr(x),
        !(x is Const),
        !(x is Var),
        occurs_at(s, pos, coeff_text(c) + op_text('*') + (seq!['('] + expr_text(x) + seq![')'])),
    ensures
        after_blanks(s, pos) == pos,
        p_coeff(s, pos) == Some((c, pos + coeff_text(c).len())),
        spaced_op(s, pos + coeff_text(c).len(), '*'),
        p_mul(s, pos) == Some(
            (
                ExprModel::Mul(c, Box::new(x)),
                after_blanks(
                    s,
                    pos + (coeff_text(c) + op_text('*') + (seq!['('] + expr_text(x)
                        + seq![')'])).len(),
                ),
            ),
        ),
    decreases x, 4int,
{
    let qc = pos + coeff_text(c).len();
    let inner = seq!['('] + expr_text(x) + seq![')'];
    lemma_product_start(s, pos, c, inner);
    lemma_paren_read(s, qc + 3, x);
    lemma_one_space(s, qc + 2);
    lemma_skip_blanks(s, qc + 2, qc + 3);
    assert(p_coeff_factor(s, qc + 3) is None);
    assert(p_coeff_tail(s, qc, c) == (c, qc));
}

/// The text of a factor is read back as the factor.
pub proof fn lemma_factor_read(s: Seq<char>, pos: int, e: ExprModel)
    requires
        canon_factor(e),
        occurs_at(s, pos, expr_text(e)),
        follows_factor(s, pos + expr_text(e).len()),
    ensures
        after_blanks(s, pos) == pos,
        expr_text(e).len() >= 1,
        p_factor(s, pos) == Some((e, factor_end(s, e, pos + expr_text(e).len()))),
        !(e is Const) ==> coeff_prefix_stops(s, pos, pos + expr_text(e).len()),
    decreases e, 0int,
{
    let q = pos + expr_text(e).len();
    lemma_follow_no_operand(s, q);
    reveal_with_fuel(expr_text, 2);
    match e {
        ExprModel::Var(n) => {
            lemma_var_read(s, pos, n);
        },
        ExprModel::Const(v) => {
            lemma_int_text(v as int);
            lemma_const_read(s, pos, v);
        },
        ExprModel::Mul(c, x) => {
            let star = op_text('*');
            match *x {
                ExprModel::Var(n) => {
                    assert(expr_text(e) =~= coeff_text(c) + star + n);
                    lemma_product_var(s, pos, c, n);
                },
                _ => {
                    assert(expr_text(e) =~= coeff_text(c) + star + (seq!['('] + expr_text(*x)
                        + seq![')']));
                    lemma_product_paren(s, pos, c, *x);
                },
            }
        },
        _ => {},
    }
}

/// The text of a term is read back as the term.
pub proof fn lemma_term_read(s: Seq<char>, pos: int, e: ExprModel)
    requires
        canon_term(e),
        occurs_at(s, pos, expr_text(e)),
        follows_term(s, pos + expr_text(e).len()),
    ensures
        after_blanks(s, pos) == pos,
        expr_text(e).len() >= 1,
        p_term(s, pos) == Some((e, term_end(s, e, pos + expr_text(e).len()))),
        !(e is Const) ==> coeff_prefix_stops(s, pos, pos + expr_text(e).len()),
    decreases e, 1int,
{
    let q = pos + expr_text(e).len();
    lemma_follow_no_operand(s, q);
    lemma_follow_term(s, q);
    lemma_after_blanks_idem(s, q);
    match e {
        ExprModel::Div(x, c) => {
            lemma_quotient_read(s, pos, e);
        },
        ExprModel::Mod(x, c) => {
            lemma_quotient_read(s, pos, e);
        },
        _ => {
            lemma_factor_read(s, pos, e);
        },
    }
}

/// The parts of a quotient or remainder: the operand, the operator and the
/// coefficient.
pub open spec fn quotient_parts(e: ExprModel) -> (ExprModel, char, CoeffModel) {
    match e {
        ExprModel::Div(x, c) => (*x, '/', c),
        ExprModel::Mod(x, c) => (*x, '%', c),
        _ => (e, ' ', CoeffModel::Const(0)),
    }
}

/// The text of a factor, `/` or `%`, and a coefficient is read back as the
/// quotient or the remainder.
pub proof fn lemma_quotient_read(s: Seq<char>, pos: int, e: ExprModel)
    requires
        e is Div || e is Mod,
        canon_term(e),
        occurs_at(s, pos, expr_text(e)),
        follows_term(s, pos + expr_text(e).len()),
    ensures
        after_blanks(s, pos) == pos,
        expr_text(e).len() >= 1,
        p_term(s, pos) == Some((e, pos + expr_text(e).len())),
        coeff_prefix_stops(s, pos, pos + expr_text(e).len()),
    decreases e, 0int,
{
    let (x, op, c) = quotient_parts(e);
    let tx = expr_text(x);
    let tc = coeff_text(c);
    let qx = pos + tx.len();
    let q = pos + expr_text(e).len();
    assert(expr_text(e) == (tx + op_text(op)) + tc);
    lemma_follow_no_operand(s, q);
    lemma_occurs_concat(s, pos, tx + op_text(op), tc);
    lemma_occurs_concat(s, pos, tx, op_text(op));
    lemma_occurs_op(s, qx, op);
    lemma_factor_read(s, pos, x);
    lemma_one_space(s, qx);
    lemma_no_blank(s, qx + 1);
    assert(after_blanks(s, factor_end(s, x, qx)) == qx + 1);
    lemma_coeff_read(s, qx + 3, c);
    lemma_one_space(s, qx + 2);
    assert(p_coeff_tail(s, q, c) == (c, q));
    assert(p_coeff(s, qx + 3) == Some((c, q)));
    match x {
        ExprModel::Const(v) => {
            lemma_const_prefix(s, pos, v, op);
        },
        _ => {},
    }
}

/// The text of an expression is read back as the expression, and the
/// reading goes on with what follows the text.
pub proof fn lemma_expr_read(s: Seq<char>, pos: int, e: ExprModel)
    requires
        canon_expr(e),
        occurs_at(s, pos, expr_text(e)),
        follows_term(s, pos + expr_text(e).len()),
    ensures
        after_blanks(s, pos) == pos,
        expr_text(e).len() >= 1,
        p_expr(s, pos) == Some(
            p_expr_tail(s, expr_end(s, e, pos + expr_text(e).len()), e),
        ),
        !(e is Const) ==> coeff_prefix_stops(s, pos, pos + expr_text(e).len()),
    decreases e, 2int,
{
    lemma_after_blanks_idem(s, pos + expr_text(e).len());
    match e {
        ExprModel::Add(a, b) => {
            lemma_sum_read(s, pos, e);
        },
        ExprModel::Sub(a, b) => {
            lemma_sum_read(s, pos, e);
        },
        _ => {
            lemma_term_read(s, pos, e);
        },
    }
}

/// The parts of a sum or difference: the operands and the operator.
pub open spec fn sum_parts(e: ExprModel) -> (ExprModel, char, ExprModel) {
    match e {
        ExprModel::Add(a, b) => (*a, '+', *b),
        ExprModel::Sub(a, b) => (*a, '-', *b),
        _ => (e, ' ', e),
    }
}

/// The text of an expression, `+` or `-`, and a term is read back as the
/// sum or the difference.
pub proof fn lemma_sum_read(s: Seq<char>, pos: int, e: ExprModel)
    requires
        e is Add || e is Sub,
        canon_expr(e),
        occurs_at(s, pos, expr_text(e)),
        follows_term(s, pos + expr_text(e).len()),
    ensures
        after_blanks(s, pos) == pos,
        expr_text(e).len() >= 1,
        p_expr(s, pos) == Some(
            p_expr_tail(s, expr_end(s, e, pos + expr_text(e).len()), e),
        ),
        coeff_prefix_stops(s, pos, pos + expr_text(e).len()),
    decreases e, 0int,
{
    let (a, op, b) = sum_parts(e);
    let ta = expr_text(a);
    let tb = expr_text(b);
    let qa = pos + ta.len();
    let q = pos + expr_text(e).len();
    assert(expr_text(e) == (ta + op_text(op)) + tb);
    lemma_occurs_concat(s, pos, ta + op_text(op), tb);
    lemma_occurs_concat(s, pos, ta, op_text(op));
    lemma_occurs_op(s, qa, op);
    lemma_expr_read(s, pos, a);
    lemma_one_space(s, qa);
    lemma_no_blank(s, qa + 1);
    lemma_term_read(s, qa + 3, b);
    lemma_one_space(s, qa + 2);
    lemma_skip_blanks(s, qa + 2, qa + 3);
    lemma_after_blanks_idem(s, q);
    let ea = expr_end(s, a, qa);
    let eb = term_end(s, b, q);
    assert(after_blanks(s, ea) == qa + 1);
    assert(p_term(s, qa + 2) == Some((b, eb)));
    assert(advances(s, qa + 1, eb));
    assert(p_expr_tail(s, ea, a) == p_expr_tail(s, eb, e));
    match a {
        ExprModel::Const(v) => {
            lemma_const_prefix(s, pos, v, op);
        },
        _ => {},
    }
}

/// Reading the text of an expression gives the expression back: where the
/// text of an expression of the shape that reading gives stands at `pos`,
/// before the end of the text or a closing bracket, the expression is read
/// there, up to the end of its text.
pub proof fn lemma_expr_roundtrip(s: Seq<char>, pos: int, e: ExprModel)
    requires
        canon_expr(e),
        occurs_at(s, pos, expr_text(e)),
        follows_expr(s, pos + expr_text(e).len()),
    ensures
        p_expr(s, pos) == Some((e, pos + expr_text(e).len())),
{
    let q = pos + expr_text(e).len();
    lemma_expr_read(s, pos, e);
    lemma_no_blank(s, q);
    assert(expr_end(s, e, q) == q);
}

/// Reading the text of an expression gives the expression back.
pub proof fn lemma_parse_print(e: ExprModel)
    requires
        canon_expr(e),
    ensures
        p_expr(expr_text(e), 0) == Some((e, expr_text(e).len() as int)),
{
    lemma_expr_roundtrip(expr_text(e), 0, e);
}

} // verus!

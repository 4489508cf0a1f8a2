//! Reading the text of an instruction gives the instruction back.
//!
//! The text determines the instruction where the parts of the instruction
//! read as what they are: `canon_inst` says so.

use crate::representations::affine_expr::{expr_text, ExprModel};
use crate::representations::affine_parse::{advances, after_blanks, p_ident};
use crate::representations::affine_roundtrip::{
    canon_expr,
    lemma_expr_roundtrip,
    lemma_no_blank,
    lemma_occurs_concat,
    lemma_one_space,
    name_ok,
};
use crate::representations::instruction::{
    access_text,
    compute_text,
    cond_text,
    indices_text,
    instruction_text,
    load_arrow,
    more_operands_text,
    operand_text,
    operands_text,
    store_arrow,
    suffix_text,
    ComputeModel,
    ConditionSuffix,
    DataAccessModel,
    InstructionModel,
    OperandModel,
};
use crate::representations::instruction_parse::{
    p_access,
    p_access_cond,
    p_compute,
    p_compute_cond,
    p_cond,
    p_cond_code,
    p_imm,
    p_indices,
    p_instruction,
    p_reg,
    p_src,
    p_srcs_tail,
};
use crate::text::{
    char_at,
    in_class,
    int_text,
    is_alnum,
    is_digit,
    lemma_nat_digits,
    lemma_span_is,
    nat_digits,
    occurs_at,
    run,
    span,
    CharClass,
};
use vstd::prelude::*;

verus! {

/// Whether the text is a name of a register: `R`, then letters and digits.
pub open spec fn reg_ok(r: Seq<char>) -> bool {
    &&& r.len() >= 1
    &&& r[0] == 'R'
    &&& forall|i: int| 0 <= i < r.len() ==> is_alnum(#[trigger] r[i])
}

/// Whether the text is a name of an operation: letters and digits, at least
/// one.
pub open spec fn op_ok(o: Seq<char>) -> bool {
    &&& o.len() >= 1
    &&& forall|i: int| 0 <= i < o.len() ==> is_alnum(#[trigger] o[i])
}

/// Whether an operand reads as what it is: a register with a name of a
/// register, or an immediate value that is not negative.
pub open spec fn operand_ok(o: OperandModel) -> bool {
    match o {
        OperandModel::Reg(r) => reg_ok(r),
        OperandModel::Imm(v) => v >= 0,
    }
}

/// Whether a condition reads as what it is: the comparison and the register
/// are both there or both absent, and the register has a name of a
/// register.
pub open spec fn cond_ok(suffix: Option<ConditionSuffix>, cond: Option<Seq<char>>) -> bool {
    match (suffix, cond) {
        (Some(_), Some(r)) => reg_ok(r),
        (None, None) => true,
        _ => false,
    }
}

/// Whether an access reads as what it is.
pub open spec fn canon_access(a: DataAccessModel) -> bool {
    &&& reg_ok(a.reg)
    &&& name_ok(a.array_name)
    &&& a.addr.len() >= 1
    &&& forall|i: int| 0 <= i < a.addr.len() ==> canon_expr(#[trigger] a.addr[i])
    &&& cond_ok(a.cond_suffix, a.cond)
}

/// Whether a computation reads as what it is.
pub open spec fn canon_compute(c: ComputeModel) -> bool {
    &&& op_ok(c.op)
    &&& reg_ok(c.dst)
    &&& c.src.len() >= 1
    &&& forall|i: int| 0 <= i < c.src.len() ==> operand_ok(#[trigger] c.src[i])
    &&& cond_ok(c.cond_suffix, c.cond)
}

/// Whether an instruction reads as what it is.
pub open spec fn canon_inst(i: InstructionModel) -> bool {
    match i {
        InstructionModel::DataLoad(a) => canon_access(a),
        InstructionModel::DataStore(a) => canon_access(a),
        InstructionModel::Compute(c) => canon_compute(c),
    }
}

/// Whether the text is over at `q` or goes on with a character that is no
/// letter and no digit.
pub open spec fn word_ends(s: Seq<char>, q: int) -> bool {
    0 <= q <= s.len() && (q < s.len() ==> !is_alnum(s[q]))
}

/// A text that stands in `s` is the part of `s` where it stands.
pub proof fn lemma_occurs_subrange(s: Seq<char>, pos: int, t: Seq<char>)
    requires
        occurs_at(s, pos, t),
    ensures
        s.subrange(pos, pos + t.len()) == t,
{
    assert(s.subrange(pos, pos + t.len()) =~= t) by {
        assert forall|i: int| 0 <= i < t.len() implies s.subrange(pos, pos + t.len())[i]
            == t[i] by {
            assert(s[pos + i] == t[i]);
        }
    }
}

/// A text of letters and digits is a run of letters and digits where it
/// stands before something else.
pub proof fn lemma_word_span(s: Seq<char>, pos: int, t: Seq<char>, from: int)
    requires
        occurs_at(s, pos, t),
        0 <= from <= t.len(),
        forall|i: int| from <= i < t.len() ==> is_alnum(#[trigger] t[i]),
        word_ends(s, pos + t.len()),
    ensures
        span(s, pos + from, CharClass::Alnum) == pos + t.len(),
{
    assert forall|i: int| pos + from <= i < pos + t.len() implies in_class(
        CharClass::Alnum,
        #[trigger] s[i],
    ) by {
        assert(s[pos + (i - pos)] == t[i - pos]);
        assert(is_alnum(t[i - pos]));
    }
    lemma_span_is(s, pos + from, pos + t.len(), CharClass::Alnum);
}

/// The name of a register is read back as a register.
pub proof fn lemma_reg_read(s: Seq<char>, pos: int, r: Seq<char>)
    requires
        reg_ok(r),
        occurs_at(s, pos, r),
        word_ends(s, pos + r.len()),
    ensures
        p_reg(s, pos) == Some((r, pos + r.len())),
        after_blanks(s, pos) == pos,
{
    assert(s[pos + 0] == r[0]);
    lemma_no_blank(s, pos);
    lemma_word_span(s, pos, r, 1);
    lemma_occurs_subrange(s, pos, r);
}

/// The text of an operand is read back as the operand.
pub proof fn lemma_operand_read(s: Seq<char>, pos: int, o: OperandModel)
    requires
        operand_ok(o),
        occurs_at(s, pos, operand_text(o)),
        word_ends(s, pos + operand_text(o).len()),
    ensures
        p_src(s, pos) == Some((o, pos + operand_text(o).len())),
        after_blanks(s, pos) == pos,
        operand_text(o).len() >= 1,
{
    match o {
        OperandModel::Reg(r) => {
            lemma_reg_read(s, pos, r);
        },
        OperandModel::Imm(v) => {
            let t = nat_digits(v as nat);
            lemma_nat_digits(v as nat);
            assert(int_text(v as int) == t);
            lemma_occurs_concat(s, pos, seq!['$'], t);
            assert(s[pos + 0] == seq!['$'][0]);
            lemma_no_blank(s, pos);
            assert forall|i: int| pos + 1 <= i < pos + 1 + t.len() implies in_class(
                CharClass::Digit,
                #[trigger] s[i],
            ) by {
                assert(s[pos + 1 + (i - pos - 1)] == t[i - pos - 1]);
                assert(is_digit(t[i - pos - 1]));
            }
            lemma_span_is(s, pos + 1, pos + 1 + t.len(), CharClass::Digit);
            lemma_occurs_subrange(s, pos + 1, t);
            assert(p_reg(s, pos) is None);
            assert(p_imm(s, pos) == Some((v, pos + 1 + t.len())));
        },
    }
}

/// The two letters of a comparison are read back as the comparison.
pub proof fn lemma_code_read(s: Seq<char>, pos: int, code: ConditionSuffix)
    requires
        occurs_at(s, pos, suffix_text(code)),
    ensures
        p_cond_code(s, pos) == Some(code),
{
    let t = suffix_text(code);
    assert(s[pos + 0] == t[0]);
    assert(s[pos + 1] == t[1]);
    assert(seq![s[pos], s[pos + 1]] =~= t);
    assert(suffix_text(ConditionSuffix::EQ)[1] == 'Q');
    assert(suffix_text(ConditionSuffix::NE)[0] == 'N');
    assert(suffix_text(ConditionSuffix::LT)[1] == 'T');
    assert(suffix_text(ConditionSuffix::LE)[0] == 'L' && suffix_text(ConditionSuffix::LE)[1] == 'E');
    assert(suffix_text(ConditionSuffix::GT)[0] == 'G' && suffix_text(ConditionSuffix::GT)[1] == 'T');
    assert(suffix_text(ConditionSuffix::GE)[0] == 'G' && suffix_text(ConditionSuffix::GE)[1] == 'E');
}

/// The text of a condition without the space before it.
pub open spec fn cond_body(code: ConditionSuffix, r: Seq<char>) -> Seq<char> {
    seq!['('] + suffix_text(code) + seq![' '] + r + seq![')']
}

/// The text of a condition is read back as the condition.
pub proof fn lemma_cond_read(s: Seq<char>, pos: int, code: ConditionSuffix, r: Seq<char>)
    requires
        reg_ok(r),
        occurs_at(s, pos, cond_body(code, r)),
    ensures
        p_cond(s, pos) == Some(((code, r), pos + cond_body(code, r).len())),
        after_blanks(s, pos) == pos,
{
    let c = suffix_text(code);
    lemma_occurs_concat(s, pos, seq!['('] + c + seq![' '] + r, seq![')']);
    lemma_occurs_concat(s, pos, seq!['('] + c + seq![' '], r);
    lemma_occurs_concat(s, pos, seq!['('] + c, seq![' ']);
    lemma_occurs_concat(s, pos, seq!['('], c);
    assert(s[pos + 0] == seq!['('][0]);
    assert(s[pos + 3 + 0] == seq![' '][0]);
    assert(s[pos + 4 + r.len() + 0] == seq![')'][0]);
    assert(s[pos + 4 + 0] == r[0]);
    lemma_no_blank(s, pos);
    lemma_code_read(s, pos + 1, code);
    lemma_one_space(s, pos + 3);
    lemma_reg_read(s, pos + 4, r);
}

/// The text of the indices, index after index from the first.
pub proof fn lemma_indices_text_front(addr: Seq<ExprModel>)
    requires
        addr.len() >= 1,
    ensures
        indices_text(addr) == seq!['['] + expr_text(addr[0]) + seq![']'] + indices_text(
            addr.drop_first(),
        ),
    decreases addr.len(),
{
    if addr.len() == 1 {
        assert(addr.drop_last() =~= Seq::<ExprModel>::empty());
        assert(addr.drop_first() =~= Seq::<ExprModel>::empty());
        assert(indices_text(addr) =~= seq!['['] + expr_text(addr[0]) + seq![']'] + indices_text(
            addr.drop_first(),
        ));
    } else {
        lemma_indices_text_front(addr.drop_last());
        assert(addr.drop_last().drop_first() =~= addr.drop_first().drop_last());
        assert(addr.drop_last()[0] == addr[0]);
        assert(addr.drop_first().last() == addr.last());
        assert(indices_text(addr) =~= seq!['['] + expr_text(addr[0]) + seq![']'] + indices_text(
            addr.drop_first(),
        ));
    }
}

/// The text of the indices of an access is read back as the indices.
pub proof fn lemma_indices_read(s: Seq<char>, pos: int, addr: Seq<ExprModel>)
    requires
        addr.len() >= 1,
        forall|i: int| 0 <= i < addr.len() ==> canon_expr(#[trigger] addr[i]),
        occurs_at(s, pos, indices_text(addr)),
        !char_at(s, pos + indices_text(addr).len(), '['),
    ensures
        p_indices(s, pos) == Some((addr, pos + indices_text(addr).len())),
    decreases addr.len(),
{
    let x = addr[0];
    let tx = expr_text(x);
    let rest = addr.drop_first();
    let tr = indices_text(rest);
    lemma_indices_text_front(addr);
    lemma_occurs_concat(s, pos, seq!['['] + tx + seq![']'], tr);
    lemma_occurs_concat(s, pos, seq!['['] + tx, seq![']']);
    lemma_occurs_concat(s, pos, seq!['['], tx);
    assert(s[pos + 0] == seq!['['][0]);
    let q = pos + 1 + tx.len();
    assert(s[q + 0] == seq![']'][0]);
    lemma_expr_roundtrip(s, pos + 1, x);
    lemma_no_blank(s, q);
    crate::representations::affine_roundtrip::lemma_expr_read(s, pos + 1, x);
    if rest.len() == 0 {
        assert(tr =~= Seq::<char>::empty());
        assert(p_indices(s, q + 1) is None);
        assert(seq![x] =~= addr);
    } else {
        assert forall|i: int| 0 <= i < rest.len() implies canon_expr(#[trigger] rest[i]) by {
            assert(rest[i] == addr[i + 1]);
        }
        lemma_indices_read(s, q + 1, rest);
        assert(seq![x] + rest =~= addr);
    }
}

/// What follows the indices of an access is read back as the condition, or
/// as none where the text is over.
pub proof fn lemma_access_cond_read(
    s: Seq<char>,
    pos: int,
    suffix: Option<ConditionSuffix>,
    cond: Option<Seq<char>>,
)
    requires
        cond_ok(suffix, cond),
        occurs_at(s, pos, cond_text(suffix, cond)),
        pos + cond_text(suffix, cond).len() == s.len(),
    ensures
        p_access_cond(s, pos) == (
            match (suffix, cond) {
                (Some(c), Some(r)) => Some((c, r)),
                _ => None,
            },
            s.len() as int,
        ),
        p_compute_cond(s, pos) == (
            match (suffix, cond) {
                (Some(c), Some(r)) => Some((c, r)),
                _ => None,
            },
            s.len() as int,
        ),
        !char_at(s, pos, '['),
        !char_at(s, after_blanks(s, pos), ','),
        word_ends(s, pos),
{
    match (suffix, cond) {
        (Some(c), Some(r)) => {
            assert(cond_text(suffix, cond) =~= seq![' '] + cond_body(c, r));
            lemma_occurs_concat(s, pos, seq![' '], cond_body(c, r));
            assert(s[pos + 0] == seq![' '][0]);
            lemma_cond_read(s, pos + 1, c, r);
            lemma_one_space(s, pos);
            reveal_with_fuel(run, 2);
            assert(span(s, pos, CharClass::Blank) == pos + 1);
        },
        _ => {
            lemma_no_blank(s, pos);
            assert(p_cond(s, pos) is None);
        },
    }
}

/// Where the parts of the text of an access stand in `s`.
#[verifier::opaque]
pub open spec fn access_laid_out(s: Seq<char>, a: DataAccessModel, arrow: Seq<char>) -> bool {
    let e = a.reg.len() as int;
    let b = e + 4;
    let e2 = b + a.array_name.len();
    let e3 = e2 + indices_text(a.addr).len();
    &&& occurs_at(s, 0, a.reg)
    &&& occurs_at(s, e + 1, arrow)
    &&& e + 4 <= s.len()
    &&& s[e] == ' '
    &&& s[e + 3] == ' '
    &&& occurs_at(s, b, a.array_name)
    &&& occurs_at(s, e2, indices_text(a.addr))
    &&& occurs_at(s, e3, cond_text(a.cond_suffix, a.cond))
    &&& e3 + cond_text(a.cond_suffix, a.cond).len() == s.len()
}

/// The parts of the text of an access stand in it one after the other.
pub proof fn lemma_access_layout(a: DataAccessModel, arrow: Seq<char>)
    requires
        arrow.len() == 2,
    ensures
        access_laid_out(access_text(a, arrow), a, arrow),
{
    reveal(access_laid_out);
    let s = access_text(a, arrow);
    let ti = indices_text(a.addr);
    let tc = cond_text(a.cond_suffix, a.cond);
    let h1 = a.reg + seq![' '];
    let h2 = h1 + arrow;
    let h3 = h2 + seq![' '];
    let h4 = h3 + a.array_name;
    let h5 = h4 + ti;
    assert(s == h5 + tc);
    assert(occurs_at(s, 0, s));
    lemma_occurs_concat(s, 0, h5, tc);
    lemma_occurs_concat(s, 0, h4, ti);
    lemma_occurs_concat(s, 0, h3, a.array_name);
    lemma_occurs_concat(s, 0, h2, seq![' ']);
    lemma_occurs_concat(s, 0, h1, arrow);
    lemma_occurs_concat(s, 0, a.reg, seq![' ']);
    let e = a.reg.len() as int;
    assert(s[e + 0] == seq![' '][0]);
    assert(s[e + 3 + 0] == seq![' '][0]);
}

/// An access whose parts stand in `s` is read from `s`.
pub proof fn lemma_access_at(s: Seq<char>, a: DataAccessModel, arrow: Seq<char>)
    requires
        canon_access(a),
        arrow == load_arrow() || arrow == store_arrow(),
        access_laid_out(s, a, arrow),
    ensures
        p_access(s, 0, arrow) == Some((a, s.len() as int)),
{
    reveal(p_access);
    reveal(access_laid_out);
    let ti = indices_text(a.addr);
    let e = a.reg.len() as int;
    let b = e + 4;
    let e2 = b + a.array_name.len();
    let e3 = e2 + ti.len();
    assert(arrow.len() == 2);
    assert(s[e + 1 + 0] == arrow[0]);
    lemma_reg_read(s, 0, a.reg);
    lemma_one_space(s, e);
    assert(s[b + 0] == a.array_name[0]);
    lemma_one_space(s, e + 3);
    lemma_indices_text_front(a.addr);
    assert(s[e2 + 0] == ti[0]);
    lemma_word_span(s, b, a.array_name, 0);
    lemma_occurs_subrange(s, b, a.array_name);
    assert(p_ident(s, b) == Some((a.array_name, e2)));
    lemma_access_cond_read(s, e3, a.cond_suffix, a.cond);
    lemma_indices_read(s, e2, a.addr);
}

/// The text of the operands after the first `k`, each after `, `.
pub open spec fn operands_rest_text(src: Seq<OperandModel>, k: int) -> Seq<char>
    decreases src.len() - k,
{
    if k >= src.len() || k < 0 {
        Seq::empty()
    } else {
        seq![',', ' '] + operand_text(src[k]) + operands_rest_text(src, k + 1)
    }
}

/// The text of the operands after the first is that of the operands up to
/// the `k`-th and of those after them.
pub proof fn lemma_more_operands_split(src: Seq<OperandModel>, k: int)
    requires
        1 <= k <= src.len(),
    ensures
        more_operands_text(src) == more_operands_text(src.take(k)) + operands_rest_text(src, k),
    decreases src.len() - k,
{
    if k == src.len() {
        assert(src.take(k) =~= src);
        assert(more_operands_text(src) =~= more_operands_text(src.take(k)) + operands_rest_text(
            src,
            k,
        ));
    } else {
        lemma_more_operands_split(src, k + 1);
        let next = src.take(k + 1);
        assert(next.drop_last() =~= src.take(k));
        assert(next.last() == src[k]);
        assert(more_operands_text(src) =~= more_operands_text(src.take(k)) + operands_rest_text(
            src,
            k,
        ));
    }
}

/// The operands after the first `k` are read back after them.
pub proof fn lemma_srcs_read(s: Seq<char>, pos: int, src: Seq<OperandModel>, k: int)
    requires
        1 <= k <= src.len(),
        forall|i: int| 0 <= i < src.len() ==> operand_ok(#[trigger] src[i]),
        occurs_at(s, pos, operands_rest_text(src, k)),
        !char_at(s, after_blanks(s, pos + operands_rest_text(src, k).len()), ','),
        word_ends(s, pos + operands_rest_text(src, k).len()),
    ensures
        p_srcs_tail(s, pos, src.take(k)) == (src, pos + operands_rest_text(src, k).len()),
    decreases src.len() - k,
{
    if k == src.len() {
        assert(src.take(k) =~= src);
    } else {
        let o = src[k];
        let to = operand_text(o);
        let tr = operands_rest_text(src, k + 1);
        assert(operands_rest_text(src, k) == seq![',', ' '] + to + tr);
        lemma_occurs_concat(s, pos, seq![',', ' '] + to, tr);
        lemma_occurs_concat(s, pos, seq![',', ' '], to);
        assert(s[pos + 0] == seq![',', ' '][0]);
        assert(s[pos + 1] == seq![',', ' '][1]);
        lemma_no_blank(s, pos);
        let q = pos + 2 + to.len();
        assert(word_ends(s, q)) by {
            if k + 1 < src.len() {
                assert(tr == seq![',', ' '] + operand_text(src[k + 1]) + operands_rest_text(
                    src,
                    k + 2,
                ));
                assert(s[q + 0] == tr[0]);
            } else {
                assert(tr =~= Seq::<char>::empty());
            }
        }
        lemma_operand_read(s, pos + 2, o);
        lemma_one_space(s, pos + 1);
        assert(src.take(k).push(o) =~= src.take(k + 1));
        lemma_srcs_read(s, q, src, k + 1);
        assert(advances(s, pos, q));
    }
}

/// Where the parts of the text of a computation stand in `s`.
#[verifier::opaque]
pub open spec fn compute_laid_out(s: Seq<char>, c: ComputeModel) -> bool {
    let e = c.op.len() as int;
    let d = e + 1;
    let e2 = d + c.dst.len();
    let f = e2 + 1;
    let e3 = f + operand_text(c.src[0]).len();
    let e4 = e3 + operands_rest_text(c.src, 1).len();
    &&& occurs_at(s, 0, c.op)
    &&& e2 < s.len()
    &&& s[e] == ' '
    &&& occurs_at(s, d, c.dst)
    &&& s[e2] == ' '
    &&& occurs_at(s, f, operand_text(c.src[0]))
    &&& occurs_at(s, e3, operands_rest_text(c.src, 1))
    &&& occurs_at(s, e4, cond_text(c.cond_suffix, c.cond))
    &&& e4 + cond_text(c.cond_suffix, c.cond).len() == s.len()
}

/// The parts of the text of a computation stand in it one after the other.
pub proof fn lemma_compute_layout(c: ComputeModel)
    requires
        c.src.len() >= 1,
    ensures
        compute_laid_out(compute_text(c), c),
{
    reveal(compute_laid_out);
    let s = compute_text(c);
    let first = operand_text(c.src[0]);
    let more = operands_rest_text(c.src, 1);
    let tc = cond_text(c.cond_suffix, c.cond);
    lemma_more_operands_split(c.src, 1);
    assert(more_operands_text(c.src.take(1)) =~= Seq::<char>::empty());
    assert(more_operands_text(c.src) =~= more);
    let h1 = c.op + seq![' '];
    let h2 = h1 + c.dst;
    let h3 = h2 + seq![' '];
    let h4 = h3 + first;
    let h5 = h4 + more;
    assert(operands_text(c.src) == seq![' '] + first + more);
    assert(s =~= h5 + tc);
    assert(occurs_at(s, 0, s));
    lemma_occurs_concat(s, 0, h5, tc);
    lemma_occurs_concat(s, 0, h4, more);
    lemma_occurs_concat(s, 0, h3, first);
    lemma_occurs_concat(s, 0, h2, seq![' ']);
    lemma_occurs_concat(s, 0, h1, c.dst);
    lemma_occurs_concat(s, 0, c.op, seq![' ']);
    let e = c.op.len() as int;
    let e2 = e + 1 + c.dst.len();
    assert(s[e + 0] == seq![' '][0]);
    assert(s[e2 + 0] == seq![' '][0]);
}

/// Where the destination of a computation starts in its text.
pub open spec fn dst_start(c: ComputeModel) -> int {
    c.op.len() as int + 1
}

/// Where the first source of a computation starts in its text.
pub open spec fn src_start(c: ComputeModel) -> int {
    c.op.len() as int + 1 + c.dst.len() + 1
}

/// Where the first source of a computation ends in its text.
pub open spec fn src_end(c: ComputeModel) -> int {
    src_start(c) + operand_text(c.src[0]).len()
}

/// The start of a computation whose parts stand in `s` is read from `s`:
/// the operation, the destination and the first source.
pub proof fn lemma_compute_head(s: Seq<char>, c: ComputeModel)
    requires
        canon_compute(c),
        compute_laid_out(s, c),
    ensures
        after_blanks(s, 0) == 0,
        span(s, 0, CharClass::Alnum) == c.op.len(),
        s.subrange(0, c.op.len() as int) == c.op,
        after_blanks(s, c.op.len() as int) == c.op.len() + 1,
        p_reg(s, dst_start(c)) == Some((c.dst, src_start(c) - 1)),
        after_blanks(s, src_start(c) - 1) == src_start(c),
        p_src(s, src_start(c)) == Some((c.src[0], src_end(c))),
        word_ends(s, src_end(c)),
{
    reveal(compute_laid_out);
    let first = operand_text(c.src[0]);
    let more = operands_rest_text(c.src, 1);
    let e = c.op.len() as int;
    assert(s[0int + 0] == c.op[0]);
    lemma_no_blank(s, 0);
    lemma_word_span(s, 0, c.op, 0);
    lemma_occurs_subrange(s, 0, c.op);
    let d = e + 1;
    let e2 = d + c.dst.len();
    assert(s[d + 0] == c.dst[0]);
    lemma_one_space(s, e);
    lemma_reg_read(s, d, c.dst);
    let f = e2 + 1;
    let e3 = f + first.len();
    let e4 = e3 + more.len();
    lemma_access_cond_read(s, e4, c.cond_suffix, c.cond);
    assert(word_ends(s, e3)) by {
        if c.src.len() > 1 {
            assert(more == seq![',', ' '] + operand_text(c.src[1]) + operands_rest_text(c.src, 2));
            assert(s[e3 + 0] == more[0]);
        } else {
            assert(more =~= Seq::<char>::empty());
        }
    }
    lemma_operand_read(s, f, c.src[0]);
    lemma_one_space(s, e2);
}

/// A computation whose parts stand in `s` is read from `s`.
pub proof fn lemma_compute_at(s: Seq<char>, c: ComputeModel)
    requires
        canon_compute(c),
        compute_laid_out(s, c),
    ensures
        p_compute(s, 0) == Some((c, s.len() as int)),
{
    reveal(p_compute);
    reveal(compute_laid_out);
    let more = operands_rest_text(c.src, 1);
    let e3 = src_end(c);
    let e4 = e3 + more.len();
    lemma_compute_head(s, c);
    lemma_access_cond_read(s, e4, c.cond_suffix, c.cond);
    lemma_srcs_read(s, e3, c.src, 1);
    assert(c.src.take(1) =~= seq![c.src[0]]);
}

/// A store whose parts stand in `s` is not read as a load.
pub proof fn lemma_not_load(s: Seq<char>, a: DataAccessModel)
    requires
        canon_access(a),
        access_laid_out(s, a, store_arrow()),
    ensures
        p_access(s, 0, load_arrow()) is None,
{
    reveal(p_access);
    reveal(access_laid_out);
    let e = a.reg.len() as int;
    assert(s[e + 1 + 0] == store_arrow()[0]);
    lemma_reg_read(s, 0, a.reg);
    lemma_one_space(s, e);
    assert(!occurs_at(s, e + 1, load_arrow())) by {
        if occurs_at(s, e + 1, load_arrow()) {
            assert(s[e + 1 + 0] == load_arrow()[0]);
        }
    }
}

/// A computation whose parts stand in `s` is not read as a load or a
/// store.
pub proof fn lemma_not_access(s: Seq<char>, c: ComputeModel, arrow: Seq<char>)
    requires
        canon_compute(c),
        compute_laid_out(s, c),
        arrow == load_arrow() || arrow == store_arrow(),
    ensures
        p_access(s, 0, arrow) is None,
{
    reveal(p_access);
    reveal(compute_laid_out);
    let e = c.op.len() as int;
    assert(s[0int + 0] == c.op[0]);
    assert(s[e + 1 + 0] == c.dst[0]);
    if c.op[0] == 'R' {
        lemma_reg_read(s, 0, c.op);
        lemma_one_space(s, e);
        assert(!occurs_at(s, e + 1, arrow)) by {
            if occurs_at(s, e + 1, arrow) {
                assert(s[e + 1 + 0] == arrow[0]);
            }
        }
    }
}

/// A load whose parts stand in `s` is read from `s` as an instruction.
pub proof fn lemma_load_at(s: Seq<char>, a: DataAccessModel)
    requires
        canon_access(a),
        access_laid_out(s, a, load_arrow()),
    ensures
        p_instruction(s, 0) == Some((InstructionModel::DataLoad(a), s.len() as int)),
{
    lemma_no_blank(s, s.len() as int);
    lemma_access_at(s, a, load_arrow());
}

/// A store whose parts stand in `s` is read from `s` as an instruction.
pub proof fn lemma_store_at(s: Seq<char>, a: DataAccessModel)
    requires
        canon_access(a),
        access_laid_out(s, a, store_arrow()),
    ensures
        p_instruction(s, 0) == Some((InstructionModel::DataStore(a), s.len() as int)),
{
    lemma_no_blank(s, s.len() as int);
    lemma_access_at(s, a, store_arrow());
    lemma_not_load(s, a);
}

/// A computation whose parts stand in `s` is read from `s` as an
/// instruction.
pub proof fn lemma_compute_inst_at(s: Seq<char>, c: ComputeModel)
    requires
        canon_compute(c),
        compute_laid_out(s, c),
    ensures
        p_instruction(s, 0) == Some((InstructionModel::Compute(c), s.len() as int)),
{
    lemma_no_blank(s, s.len() as int);
    lemma_compute_at(s, c);
    lemma_not_access(s, c, load_arrow());
    lemma_not_access(s, c, store_arrow());
}

/// Reading the text of an instruction gives the instruction back: the text
/// of an instruction whose parts read as what they are is read as the
/// instruction, to its end.
pub proof fn lemma_instruction_roundtrip(i: InstructionModel)
    requires
        canon_inst(i),
    ensures
        p_instruction(instruction_text(i), 0) == Some((i, instruction_text(i).len() as int)),
{
    match i {
        InstructionModel::DataLoad(a) => {
            lemma_access_layout(a, load_arrow());
            lemma_load_at(access_text(a, load_arrow()), a);
        },
        InstructionModel::DataStore(a) => {
            lemma_access_layout(a, store_arrow());
            lemma_store_at(access_text(a, store_arrow()), a);
        },
        InstructionModel::Compute(c) => {
            lemma_compute_layout(c);
            lemma_compute_inst_at(compute_text(c), c);
        },
    }
}

} // verus!

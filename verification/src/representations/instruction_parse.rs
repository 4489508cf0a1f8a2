//! The text syntax of instructions.
//!
//! ```text
//! dataLoad  := reg '<=' ident indices cond?
//! dataStore := reg '=>' ident indices cond?
//! compute   := op dst srcs cond?
//! indices   := ('[' expr ']')+
//! srcs      := src (',' src)*
//! src       := reg | imm
//! reg       := 'R' alphanum*
//! imm       := '$' digit+
//! cond      := '(' ('EQ'|'NE'|'LT'|'LE'|'GT'|'GE') blank+ reg ')'
//! ```
//!
//! A load or a store starts with its register; blanks may stand around the
//! arrow, and at least one blank stands before a condition. In a computation
//! blanks may stand before the operation, the destination, the sources, the
//! commas and the condition. Blanks after an instruction belong to it.

use crate::representations::affine_expr::{AffineExpr, ExprModel};
use crate::representations::affine_parse::{
    advances,
    after_blanks,
    p_expr,
    p_ident,
    read_expr,
    read_ident,
};
use crate::representations::instruction::{
    exprs_model,
    inst_wf,
    operands_model,
    suffix_text,
    Compute,
    ComputeModel,
    ConditionSuffix,
    DataAccess,
    DataAccessModel,
    Instruction,
    InstructionModel,
    Operand,
    OperandModel,
};
use crate::text::{
    char_at,
    digits_value,
    is_char_at,
    lemma_span_bounds,
    scan,
    slice_to_string,
    span,
    to_chars,
    CharClass,
    ParseError,
    ParseErrorKind,
};
use vstd::prelude::*;

verus! {

/// A register at `pos`: `R`, then letters and digits.
pub open spec fn p_reg(s: Seq<char>, pos: int) -> Option<(Seq<char>, int)> {
    if char_at(s, pos, 'R') {
        let e = span(s, pos + 1, CharClass::Alnum);
        Some((s.subrange(pos, e), e))
    } else {
        None
    }
}

/// An immediate value at `pos`: `$`, then digits whose value fits in 32 bits.
pub open spec fn p_imm(s: Seq<char>, pos: int) -> Option<(i32, int)> {
    if char_at(s, pos, '$') {
        let e = span(s, pos + 1, CharClass::Digit);
        let v = digits_value(s.subrange(pos + 1, e));
        if pos + 1 < e && v <= i32::MAX {
            Some((v as i32, e))
        } else {
            None
        }
    } else {
        None
    }
}

/// A source operand at `pos`.
pub open spec fn p_src(s: Seq<char>, pos: int) -> Option<(OperandModel, int)> {
    match p_reg(s, pos) {
        Some((r, e)) => Some((OperandModel::Reg(r), e)),
        None => match p_imm(s, pos) {
            Some((v, e)) => Some((OperandModel::Imm(v), e)),
            None => None,
        },
    }
}

/// The comparison whose two letters stand at `pos`.
pub open spec fn p_cond_code(s: Seq<char>, pos: int) -> Option<ConditionSuffix> {
    if 0 <= pos && pos + 2 <= s.len() {
        let t = seq![s[pos], s[pos + 1]];
        if t == suffix_text(ConditionSuffix::EQ) {
            Some(ConditionSuffix::EQ)
        } else if t == suffix_text(ConditionSuffix::NE) {
            Some(ConditionSuffix::NE)
        } else if t == suffix_text(ConditionSuffix::LT) {
            Some(ConditionSuffix::LT)
        } else if t == suffix_text(ConditionSuffix::LE) {
            Some(ConditionSuffix::LE)
        } else if t == suffix_text(ConditionSuffix::GT) {
            Some(ConditionSuffix::GT)
        } else if t == suffix_text(ConditionSuffix::GE) {
            Some(ConditionSuffix::GE)
        } else {
            None
        }
    } else {
        None
    }
}

/// A condition at `pos`: `(`, a comparison, blanks, a register, `)`.
pub open spec fn p_cond(s: Seq<char>, pos: int) -> Option<((ConditionSuffix, Seq<char>), int)> {
    if char_at(s, pos, '(') {
        match p_cond_code(s, pos + 1) {
            Some(code) => {
                let b = span(s, pos + 3, CharClass::Blank);
                if pos + 3 < b {
                    match p_reg(s, b) {
                        Some((r, e)) => if char_at(s, e, ')') {
                            Some(((code, r), e + 1))
                        } else {
                            None
                        },
                        None => None,
                    }
                } else {
                    None
                }
            },
            None => None,
        }
    } else {
        None
    }
}

/// The indices of an access at `pos`: one expression in brackets, and as
/// many more as follow it directly.
pub open spec fn p_indices(s: Seq<char>, pos: int) -> Option<(Seq<ExprModel>, int)>
    decreases s.len() - pos,
{
    if 0 <= pos && char_at(s, pos, '[') {
        match p_expr(s, pos + 1) {
            Some((x, e)) => {
                let q = after_blanks(s, e);
                if advances(s, pos, q) && char_at(s, q, ']') {
                    match p_indices(s, q + 1) {
                        Some((more, e2)) => Some((seq![x] + more, e2)),
                        None => Some((seq![x], q + 1)),
                    }
                } else {
                    None
                }
            },
            None => None,
        }
    } else {
        None
    }
}

/// What follows the indices of an access: a condition after at least one
/// blank, or nothing.
pub open spec fn p_access_cond(s: Seq<char>, pos: int) -> (
    Option<(ConditionSuffix, Seq<char>)>,
    int,
) {
    let b = span(s, pos, CharClass::Blank);
    if pos < b {
        match p_cond(s, b) {
            Some((c, e)) => (Some(c), e),
            None => (None, pos),
        }
    } else {
        (None, pos)
    }
}

/// An access at `pos`, with the given arrow after its register.
#[verifier::opaque]
pub open spec fn p_access(s: Seq<char>, pos: int, arrow: Seq<char>) -> Option<
    (DataAccessModel, int),
> {
    match p_reg(s, pos) {
        None => None,
        Some((reg, e)) => {
            let a = after_blanks(s, e);
            if crate::text::occurs_at(s, a, arrow) {
                let b = after_blanks(s, a + arrow.len());
                match p_ident(s, b) {
                    None => None,
                    Some((array, e2)) => match p_indices(s, e2) {
                        None => None,
                        Some((addr, e3)) => {
                            let (cond, e4) = p_access_cond(s, e3);
                            Some(
                                (
                                    DataAccessModel {
                                        array_name: array,
                                        addr: addr,
                                        reg: reg,
                                        cond_suffix: match cond {
                                            Some(c) => Some(c.0),
                                            None => None,
                                        },
                                        cond: match cond {
                                            Some(c) => Some(c.1),
                                            None => None,
                                        },
                                    },
                                    e4,
                                ),
                            )
                        },
                    },
                }
            } else {
                None
            }
        },
    }
}

/// What follows the first source of a computation: as many `',' src` as
/// there are.
pub open spec fn p_srcs_tail(s: Seq<char>, pos: int, acc: Seq<OperandModel>) -> (
    Seq<OperandModel>,
    int,
)
    decreases s.len() - pos,
{
    let a = after_blanks(s, pos);
    if 0 <= pos && char_at(s, a, ',') {
        let b = after_blanks(s, a + 1);
        match p_src(s, b) {
            Some((o, e)) => if advances(s, pos, e) {
                p_srcs_tail(s, e, acc.push(o))
            } else {
                (acc, pos)
            },
            None => (acc, pos),
        }
    } else {
        (acc, pos)
    }
}

/// What follows the sources of a computation: a condition, or nothing.
pub open spec fn p_compute_cond(s: Seq<char>, pos: int) -> (
    Option<(ConditionSuffix, Seq<char>)>,
    int,
) {
    match p_cond(s, after_blanks(s, pos)) {
        Some((c, e)) => (Some(c), e),
        None => (None, pos),
    }
}

/// A computation at `pos`.
#[verifier::opaque]
pub open spec fn p_compute(s: Seq<char>, pos: int) -> Option<(ComputeModel, int)> {
    let a = after_blanks(s, pos);
    let e = span(s, a, CharClass::Alnum);
    if 0 <= pos && a < e {
        match p_reg(s, after_blanks(s, e)) {
            None => None,
            Some((dst, e2)) => match p_src(s, after_blanks(s, e2)) {
                None => None,
                Some((first, e3)) => {
                    let (src, e4) = p_srcs_tail(s, e3, seq![first]);
                    let (cond, e5) = p_compute_cond(s, e4);
                    Some(
                        (
                            ComputeModel {
                                op: s.subrange(a, e),
                                src: src,
                                dst: dst,
                                cond_suffix: match cond {
                                    Some(c) => Some(c.0),
                                    None => None,
                                },
                                cond: match cond {
                                    Some(c) => Some(c.1),
                                    None => None,
                                },
                            },
                            e5,
                        ),
                    )
                },
            },
        }
    } else {
        None
    }
}

/// An instruction at `pos`: a load, else a store, else a computation. The
/// position in the result is after the blanks that follow the instruction.
pub open spec fn p_instruction(s: Seq<char>, pos: int) -> Option<(InstructionModel, int)> {
    match p_access(s, pos, seq!['<', '=']) {
        Some((a, e)) => Some((InstructionModel::DataLoad(a), after_blanks(s, e))),
        None => match p_access(s, pos, seq!['=', '>']) {
            Some((a, e)) => Some((InstructionModel::DataStore(a), after_blanks(s, e))),
            None => match p_compute(s, pos) {
                Some((c, e)) => Some((InstructionModel::Compute(c), after_blanks(s, e))),
                None => None,
            },
        },
    }
}

fn read_reg(s: &Vec<char>, pos: usize) -> (r: Option<(String, usize)>)
    requires
        pos <= s.len(),
    ensures
        match r {
            Some((n, e)) => p_reg(s@, pos as int) == Some((n@, e as int)) && pos < e <= s.len(),
            None => p_reg(s@, pos as int) is None,
        },
{
    if is_char_at(s, pos, 'R') {
        let e = scan(s, pos + 1, CharClass::Alnum);
        Some((slice_to_string(s, pos, e), e))
    } else {
        None
    }
}

fn read_imm(s: &Vec<char>, pos: usize) -> (r: Option<(i32, usize)>)
    requires
        pos <= s.len(),
    ensures
        match r {
            Some((v, e)) => p_imm(s@, pos as int) == Some((v, e as int)) && pos < e <= s.len(),
            None => p_imm(s@, pos as int) is None,
        },
{
    if !is_char_at(s, pos, '$') {
        return None;
    }
    let start: usize = pos + 1;
    let e = scan(s, start, CharClass::Digit);
    if e == start {
        return None;
    }
    let mut acc: i64 = 0;
    let mut i: usize = start;
    proof {
        lemma_span_bounds(s@, start as int, CharClass::Digit);
        assert(s@.subrange(start as int, start as int) =~= Seq::<char>::empty());
    }
    while i < e
        invariant
            start <= i <= e <= s.len(),
            forall|j: int| start <= j < e ==> crate::text::is_digit(#[trigger] s@[j]),
            acc == digits_value(s@.subrange(start as int, i as int)),
            0 <= acc <= 2147483647,
            e == span(s@, start as int, CharClass::Digit),
            start == pos + 1,
            char_at(s@, pos as int, '$'),
        decreases e - i,
    {
        let c = s[i];
        let d: i64 = (c as u32 - 48) as i64;
        proof {
            let p = s@.subrange(start as int, i as int);
            let q = s@.subrange(start as int, i + 1);
            assert(q.drop_last() =~= p);
            assert(q.last() == c);
            assert(digits_value(q) == digits_value(p) * 10 + d);
        }
        acc = acc * 10 + d;
        i = i + 1;
        if acc > 2147483647 {
            proof {
                assert(acc == digits_value(s@.subrange(start as int, i as int)));
                lemma_digits_grow(s@, start as int, i as int, e as int);
            }
            return None;
        }
    }
    Some((acc as i32, e))
}

/// More digits do not make a number smaller.
pub proof fn lemma_digits_grow(s: Seq<char>, start: int, mid: int, end: int)
    requires
        0 <= start <= mid <= end <= s.len(),
        forall|j: int| start <= j < end ==> crate::text::is_digit(#[trigger] s[j]),
        digits_value(s.subrange(start, mid)) >= 0,
    ensures
        digits_value(s.subrange(start, end)) >= digits_value(s.subrange(start, mid)),
    decreases end - mid,
{
    if mid < end {
        let p = s.subrange(start, end - 1);
        let q = s.subrange(start, end);
        assert(q.drop_last() =~= p);
        assert(q.last() == s[end - 1]);
        lemma_digits_grow(s, start, mid, end - 1);
    }
}

fn read_src(s: &Vec<char>, pos: usize) -> (r: Option<(Operand, usize)>)
    requires
        pos <= s.len(),
    ensures
        match r {
            Some((o, e)) => p_src(s@, pos as int) == Some((o@, e as int)) && pos < e <= s.len(),
            None => p_src(s@, pos as int) is None,
        },
{
    if let Some((r, e)) = read_reg(s, pos) {
        return Some((Operand::Reg(r), e));
    }
    match read_imm(s, pos) {
        Some((v, e)) => Some((Operand::Imm(v), e)),
        None => None,
    }
}

fn read_cond_code(s: &Vec<char>, pos: usize) -> (r: Option<ConditionSuffix>)
    requires
        pos <= s.len(),
    ensures
        r == p_cond_code(s@, pos as int),
{
    if s.len() - pos < 2 {
        return None;
    }
    ConditionSuffix::from_letters(s[pos], s[pos + 1])
}

fn read_cond(s: &Vec<char>, pos: usize) -> (r: Option<((ConditionSuffix, String), usize)>)
    requires
        pos <= s.len(),
    ensures
        match r {
            Some((c, e)) => p_cond(s@, pos as int) == Some(((c.0, c.1@), e as int)) && pos < e
                <= s.len(),
            None => p_cond(s@, pos as int) is None,
        },
{
    if !is_char_at(s, pos, '(') {
        return None;
    }
    let code = match read_cond_code(s, pos + 1) {
        Some(c) => c,
        None => {
            return None;
        },
    };
    let b = scan(s, pos + 3, CharClass::Blank);
    if b == pos + 3 {
        return None;
    }
    match read_reg(s, b) {
        Some((r, e)) => {
            if is_char_at(s, e, ')') {
                Some(((code, r), e + 1))
            } else {
                None
            }
        },
        None => None,
    }
}

fn read_indices(s: &Vec<char>, pos: usize) -> (r: Option<(Vec<AffineExpr>, usize)>)
    requires
        pos <= s.len(),
    ensures
        match r {
            Some((v, e)) => p_indices(s@, pos as int) == Some((exprs_model(v@), e as int))
                && pos < e <= s.len(),
            None => p_indices(s@, pos as int) is None,
        },
    decreases s.len() - pos,
{
    if !is_char_at(s, pos, '[') {
        return None;
    }
    let (x, e) = match read_expr(s, pos + 1) {
        Some(r) => r,
        None => {
            return None;
        },
    };
    let q = scan(s, e, CharClass::Blank);
    if !is_char_at(s, q, ']') {
        return None;
    }
    match read_indices(s, q + 1) {
        Some((more, e2)) => {
            let mut v: Vec<AffineExpr> = Vec::new();
            v.push(x);
            let mut more = more;
            let ghost tail = more@;
            v.append(&mut more);
            assert(exprs_model(v@) =~= seq![x@] + exprs_model(tail));
            Some((v, e2))
        },
        None => {
            let mut v: Vec<AffineExpr> = Vec::new();
            v.push(x);
            assert(exprs_model(v@) =~= seq![x@]);
            Some((v, q + 1))
        },
    }
}

fn read_access(s: &Vec<char>, pos: usize, load: bool) -> (r: Option<(DataAccess, usize)>)
    requires
        pos <= s.len(),
    ensures
        match r {
            Some((a, e)) => p_access(
                s@,
                pos as int,
                if load {
                    seq!['<', '=']
                } else {
                    seq!['=', '>']
                },
            ) == Some((a@, e as int)) && pos < e <= s.len(),
            None => p_access(
                s@,
                pos as int,
                if load {
                    seq!['<', '=']
                } else {
                    seq!['=', '>']
                },
            ) is None,
        },
{
    proof {
        reveal(p_access);
    }
    let ghost arrow = if load {
        seq!['<', '=']
    } else {
        seq!['=', '>']
    };
    let (reg, e) = match read_reg(s, pos) {
        Some(r) => r,
        None => {
            return None;
        },
    };
    let a = scan(s, e, CharClass::Blank);
    let (first, second) = if load {
        ('<', '=')
    } else {
        ('=', '>')
    };
    if !(is_char_at(s, a, first) && is_char_at(s, a + 1, second)) {
        assert(!crate::text::occurs_at(s@, a as int, arrow)) by {
            if crate::text::occurs_at(s@, a as int, arrow) {
                assert(s@[a + 0] == arrow[0]);
                assert(s@[a + 1] == arrow[1]);
            }
        }
        return None;
    }
    assert(crate::text::occurs_at(s@, a as int, arrow));
    let b = scan(s, a + 2, CharClass::Blank);
    let (array, e2) = match read_ident(s, b) {
        Some(r) => r,
        None => {
            return None;
        },
    };
    let (addr, e3) = match read_indices(s, e2) {
        Some(r) => r,
        None => {
            return None;
        },
    };
    let c = scan(s, e3, CharClass::Blank);
    let cond = if c > e3 {
        read_cond(s, c)
    } else {
        None
    };
    match cond {
        Some(((suffix, cond_reg), e4)) => Some(
            (
                DataAccess {
                    array_name: array,
                    addr: addr,
                    reg: reg,
                    cond_suffix: Some(suffix),
                    cond: Some(cond_reg),
                },
                e4,
            ),
        ),
        None => Some(
            (
                DataAccess {
                    array_name: array,
                    addr: addr,
                    reg: reg,
                    cond_suffix: None,
                    cond: None,
                },
                e3,
            ),
        ),
    }
}

fn read_srcs_tail(s: &Vec<char>, pos: usize, acc: Vec<Operand>) -> (r: (Vec<Operand>, usize))
    requires
        pos <= s.len(),
    ensures
        p_srcs_tail(s@, pos as int, operands_model(acc@)) == (operands_model(r.0@), r.1 as int),
        pos <= r.1 <= s.len(),
    decreases s.len() - pos,
{
    let a = scan(s, pos, CharClass::Blank);
    if !is_char_at(s, a, ',') {
        return (acc, pos);
    }
    let b = scan(s, a + 1, CharClass::Blank);
    match read_src(s, b) {
        Some((o, e)) => {
            let mut acc = acc;
            let ghost before = acc@;
            acc.push(o);
            assert(operands_model(acc@) =~= operands_model(before).push(o@));
            read_srcs_tail(s, e, acc)
        },
        None => (acc, pos),
    }
}

fn read_compute(s: &Vec<char>, pos: usize) -> (r: Option<(Compute, usize)>)
    requires
        pos <= s.len(),
    ensures
        match r {
            Some((c, e)) => p_compute(s@, pos as int) == Some((c@, e as int)) && pos < e
                <= s.len(),
            None => p_compute(s@, pos as int) is None,
        },
{
    proof {
        reveal(p_compute);
    }
    let a = scan(s, pos, CharClass::Blank);
    let e = scan(s, a, CharClass::Alnum);
    if e == a {
        return None;
    }
    let op = slice_to_string(s, a, e);
    let b = scan(s, e, CharClass::Blank);
    let (dst, e2) = match read_reg(s, b) {
        Some(r) => r,
        None => {
            return None;
        },
    };
    let c = scan(s, e2, CharClass::Blank);
    let (first, e3) = match read_src(s, c) {
        Some(r) => r,
        None => {
            return None;
        },
    };
    let mut start: Vec<Operand> = Vec::new();
    start.push(first);
    assert(operands_model(start@) =~= seq![first@]);
    let (src, e4) = read_srcs_tail(s, e3, start);
    let d = scan(s, e4, CharClass::Blank);
    match read_cond(s, d) {
        Some(((suffix, cond_reg), e5)) => Some(
            (
                Compute {
                    op: op,
                    src: src,
                    dst: dst,
                    cond_suffix: Some(suffix),
                    cond: Some(cond_reg),
                },
                e5,
            ),
        ),
        None => Some((Compute { op: op, src: src, dst: dst, cond_suffix: None, cond: None }, e4)),
    }
}

/// Reads an instruction that starts at `pos`.
pub(crate) fn read_instruction(s: &Vec<char>, pos: usize) -> (r: Option<(Instruction, usize)>)
    requires
        pos <= s.len(),
    ensures
        match r {
            Some((i, e)) => p_instruction(s@, pos as int) == Some((i@, e as int)) && pos < e
                <= s.len(),
            None => p_instruction(s@, pos as int) is None,
        },
{
    if let Some((a, e)) = read_access(s, pos, true) {
        return Some((Instruction::DataLoad(a), scan(s, e, CharClass::Blank)));
    }
    if let Some((a, e)) = read_access(s, pos, false) {
        return Some((Instruction::DataStore(a), scan(s, e, CharClass::Blank)));
    }
    match read_compute(s, pos) {
        Some((c, e)) => Some((Instruction::Compute(c), scan(s, e, CharClass::Blank))),
        None => None,
    }
}

/// What is read as an instruction has a whole condition.
pub proof fn lemma_read_instruction_wf(s: Seq<char>, pos: int)
    ensures
        p_instruction(s, pos) matches Some(found) ==> inst_wf(found.0),
{
    reveal(p_access);
    reveal(p_compute);
}

/// Reads a computation at the start of `input`; what follows it is left
/// unread.
pub fn parse_compute(input: &str) -> (r: Result<Instruction, ParseError>)
    ensures
        match r {
            Ok(i) => p_compute(input@, 0) matches Some(found) && i@ == InstructionModel::Compute(
                found.0,
            ),
            Err(err) => p_compute(input@, 0) is None && err == (ParseError {
                kind: ParseErrorKind::Instruction,
                position: 0,
            }),
        },
{
    let s = to_chars(input);
    match read_compute(&s, 0) {
        Some((c, _)) => Ok(Instruction::Compute(c)),
        None => Err(ParseError { kind: ParseErrorKind::Instruction, position: 0 }),
    }
}

/// Reads an instruction at the start of `input`; what follows it is left
/// unread.
pub fn parse_instruction(input: &str) -> (r: Result<Instruction, ParseError>)
    ensures
        match r {
            Ok(i) => p_instruction(input@, 0) matches Some(found) && found.0 == i@,
            Err(err) => p_instruction(input@, 0) is None && err == (ParseError {
                kind: ParseErrorKind::Instruction,
                position: 0,
            }),
        },
{
    let s = to_chars(input);
    match read_instruction(&s, 0) {
        Some((i, _)) => Ok(i),
        None => Err(ParseError { kind: ParseErrorKind::Instruction, position: 0 }),
    }
}

impl Operand {
    /// The operand that a text is: a register, or an immediate value after
    /// `$`.
    pub fn from_str(text: &str) -> (r: Option<Operand>)
        ensures
            match r {
                Some(o) => p_src(text@, 0) == Some((o@, text@.len() as int)),
                None => match p_src(text@, 0) {
                    Some((_, e)) => e != text@.len(),
                    None => true,
                },
            },
    {
        let s = to_chars(text);
        match read_src(&s, 0) {
            Some((o, e)) => if e == s.len() {
                Some(o)
            } else {
                None
            },
            None => None,
        }
    }
}

} // verus!

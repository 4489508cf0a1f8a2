//! Loop nests: ordered iterators around a straight-line body.

use crate::representations::instruction::{Instruction, InstructionModel};
use crate::representations::mapping::{clone_entries, entries_model, MappingType, MappingTypeModel};
use crate::representations::affine_expr::push_text;
use crate::representations::affine_parse::after_blanks;
use crate::text::{
    char_at,
    int_text,
    is_char_at,
    occurs_at,
    parse_int,
    push_int,
    read_int,
    scan,
    slice_to_string,
    span,
    starts_with_at,
    to_chars,
    CharClass,
    ParseError,
    ParseErrorKind,
};
use vstd::prelude::*;
use vstd::string::StringExecFns;

verus! {

/// A loop nest. The order of `iters` is the nesting, from the outermost loop
/// to the innermost.
#[derive(Debug, PartialEq)]
pub struct LoopNest {
    pub iters: Vec<LoopIter>,
    pub body: Vec<Instruction>,
    pub properties: Option<LoopProperties>,
}

/// A loop variable with its half-open bounds and its step.
#[derive(Debug, PartialEq)]
pub struct LoopIter {
    pub iter_name: String,
    pub bounds: (i32, i32),
    pub step: i32,
}

/// The mapping of the iterators of a nest, as an association list from
/// iterator names: the first entry for a name is the one that counts.
#[derive(Debug, PartialEq)]
pub struct LoopProperties {
    pub mapping: Vec<(String, MappingType)>,
}

pub struct LoopIterModel {
    pub iter_name: Seq<char>,
    pub bounds: (i32, i32),
    pub step: i32,
}

pub struct LoopPropertiesModel {
    pub mapping: Seq<(Seq<char>, MappingTypeModel)>,
}

pub struct LoopNestModel {
    pub iters: Seq<LoopIterModel>,
    pub body: Seq<InstructionModel>,
    pub properties: Option<LoopPropertiesModel>,
}

/// The values of a sequence of iterators.
pub open spec fn iters_model(v: Seq<LoopIter>) -> Seq<LoopIterModel> {
    v.map_values(|i: LoopIter| i@)
}

/// The values of a sequence of instructions.
pub open spec fn body_model(v: Seq<Instruction>) -> Seq<InstructionModel> {
    v.map_values(|i: Instruction| i@)
}

/// The value of optional properties.
pub open spec fn properties_model(p: Option<LoopProperties>) -> Option<LoopPropertiesModel> {
    match p {
        Some(q) => Some(q@),
        None => None,
    }
}

impl View for LoopIter {
    type V = LoopIterModel;

    open spec fn view(&self) -> LoopIterModel {
        LoopIterModel { iter_name: self.iter_name@, bounds: self.bounds, step: self.step }
    }
}

impl View for LoopProperties {
    type V = LoopPropertiesModel;

    open spec fn view(&self) -> LoopPropertiesModel {
        LoopPropertiesModel { mapping: entries_model(self.mapping@) }
    }
}

impl View for LoopNest {
    type V = LoopNestModel;

    open spec fn view(&self) -> LoopNestModel {
        LoopNestModel {
            iters: iters_model(self.iters@),
            body: body_model(self.body@),
            properties: properties_model(self.properties),
        }
    }
}

/// What is asked of an iterator: bounds in order and a positive step.
pub open spec fn iter_wf(it: LoopIterModel) -> bool {
    it.bounds.0 <= it.bounds.1 && it.step >= 1
}

impl LoopIter {
    /// Whether the bounds are in order and the step is positive.
    pub fn is_valid(&self) -> (b: bool)
        ensures
            b == iter_wf(self@),
    {
        self.bounds.0 <= self.bounds.1 && self.step >= 1
    }
}

impl Clone for LoopIter {
    fn clone(&self) -> (r: Self)
        ensures
            r == *self,
    {
        LoopIter { iter_name: self.iter_name.clone(), bounds: self.bounds, step: self.step }
    }
}

impl Clone for LoopProperties {
    fn clone(&self) -> (r: Self)
        ensures
            r@ == self@,
    {
        LoopProperties { mapping: clone_entries(&self.mapping) }
    }
}

/// A copy of a vector of iterators.
pub fn clone_iters(v: &Vec<LoopIter>) -> (r: Vec<LoopIter>)
    ensures
        r@ == v@,
{
    let mut r: Vec<LoopIter> = Vec::new();
    let mut i: usize = 0;
    while i < v.len()
        invariant
            i <= v.len(),
            r@ == v@.take(i as int),
        decreases v.len() - i,
    {
        r.push(v[i].clone());
        assert(v@.take(i + 1) =~= v@.take(i as int).push(v@[i as int]));
        i = i + 1;
    }
    assert(v@.take(v.len() as int) =~= v@);
    r
}

/// A copy of a vector of instructions.
pub fn clone_body(v: &Vec<Instruction>) -> (r: Vec<Instruction>)
    ensures
        body_model(r@) == body_model(v@),
{
    let mut r: Vec<Instruction> = Vec::new();
    let mut i: usize = 0;
    while i < v.len()
        invariant
            i <= v.len(),
            r@.len() == i,
            body_model(r@) == body_model(v@).take(i as int),
        decreases v.len() - i,
    {
        let ghost before = r@;
        r.push(v[i].clone());
        assert forall|j: int| 0 <= j < i + 1 implies body_model(r@)[j] == body_model(v@).take(
            i + 1,
        )[j] by {
            if j < i {
                assert(body_model(before)[j] == body_model(v@).take(i as int)[j]);
            }
        }
        assert(body_model(r@) =~= body_model(v@).take(i + 1));
        i = i + 1;
    }
    assert(body_model(v@).take(v.len() as int) =~= body_model(v@));
    r
}

/// A copy of optional properties.
pub fn clone_properties(p: &Option<LoopProperties>) -> (r: Option<LoopProperties>)
    ensures
        properties_model(r) == properties_model(*p),
{
    match p {
        Some(q) => Some(q.clone()),
        None => None,
    }
}

impl Clone for LoopNest {
    fn clone(&self) -> (r: Self)
        ensures
            r@ == self@,
    {
        LoopNest {
            iters: clone_iters(&self.iters),
            body: clone_body(&self.body),
            properties: clone_properties(&self.properties),
        }
    }
}

/// The text of an iterator: `for i in (0..8)`, with `.step(2)` after it
/// where the step is not 1.
pub open spec fn iter_text(it: LoopIterModel) -> Seq<char> {
    let head = "for "@ + it.iter_name + " in ("@ + int_text(it.bounds.0 as int) + ".."@ + int_text(
        it.bounds.1 as int,
    ) + ")"@;
    if it.step != 1 {
        head + ".step("@ + int_text(it.step as int) + ")"@
    } else {
        head
    }
}

/// The step that follows the range of an iterator at `pos`, and the
/// position after it: `.step(n)` where it stands there, 1 otherwise.
pub open spec fn p_step(s: Seq<char>, pos: int) -> (i32, int) {
    let f = after_blanks(s, pos);
    if occurs_at(s, f, ".step("@) {
        match parse_int(s, f + ".step("@.len()) {
            Some((st, e)) => if char_at(s, e, ')') {
                (st, e + 1)
            } else {
                (1, pos)
            },
            None => (1, pos),
        }
    } else {
        (1, pos)
    }
}

/// An iterator at `pos`: `for`, blanks, a name of letters, `in`, a range in
/// parentheses, and a step or none. Blanks may stand around `in`.
pub open spec fn p_loop_iter(s: Seq<char>, pos: int) -> Option<(LoopIterModel, int)> {
    if !occurs_at(s, pos, "for"@) {
        None
    } else {
        let b = span(s, pos + "for"@.len(), CharClass::Blank);
        let n = span(s, b, CharClass::Alpha);
        let c = after_blanks(s, n);
        let d = after_blanks(s, c + "in"@.len());
        if pos + "for"@.len() < b && b < n && occurs_at(s, c, "in"@) && char_at(s, d, '(') {
            match parse_int(s, d + 1) {
                None => None,
                Some((lo, e1)) => if occurs_at(s, e1, ".."@) {
                    match parse_int(s, e1 + ".."@.len()) {
                        None => None,
                        Some((hi, e2)) => if char_at(s, e2, ')') {
                            let (step, e3) = p_step(s, e2 + 1);
                            Some(
                                (
                                    LoopIterModel {
                                        iter_name: s.subrange(b, n),
                                        bounds: (lo, hi),
                                        step: step,
                                    },
                                    e3,
                                ),
                            )
                        } else {
                            None
                        },
                    }
                } else {
                    None
                },
            }
        } else {
            None
        }
    }
}

fn read_step(s: &Vec<char>, pos: usize) -> (r: (i32, usize))
    requires
        pos <= s.len(),
    ensures
        p_step(s@, pos as int) == (r.0, r.1 as int),
        pos <= r.1 <= s.len(),
{
    proof {
        reveal_strlit(".step(");
    }
    let f = scan(s, pos, CharClass::Blank);
    if !starts_with_at(s, f, ".step(") {
        return (1, pos);
    }
    match read_int(s, f + 6) {
        Some((st, e)) => {
            if is_char_at(s, e, ')') {
                (st, e + 1)
            } else {
                (1, pos)
            }
        },
        None => (1, pos),
    }
}

/// Reads an iterator that starts at `pos`.
pub(crate) fn read_loop_iter(s: &Vec<char>, pos: usize) -> (r: Option<(LoopIter, usize)>)
    requires
        pos <= s.len(),
    ensures
        match r {
            Some((it, e)) => p_loop_iter(s@, pos as int) == Some((it@, e as int)) && pos < e
                <= s.len(),
            None => p_loop_iter(s@, pos as int) is None,
        },
{
    proof {
        reveal_strlit("for");
        reveal_strlit("in");
        reveal_strlit("..");
    }
    if !starts_with_at(s, pos, "for") {
        return None;
    }
    let b = scan(s, pos + 3, CharClass::Blank);
    if b == pos + 3 {
        return None;
    }
    let n = scan(s, b, CharClass::Alpha);
    if n == b {
        return None;
    }
    let c = scan(s, n, CharClass::Blank);
    if !starts_with_at(s, c, "in") {
        return None;
    }
    let d = scan(s, c + 2, CharClass::Blank);
    if !is_char_at(s, d, '(') {
        return None;
    }
    let (lo, e1) = match read_int(s, d + 1) {
        Some(r) => r,
        None => {
            return None;
        },
    };
    if !starts_with_at(s, e1, "..") {
        return None;
    }
    let (hi, e2) = match read_int(s, e1 + 2) {
        Some(r) => r,
        None => {
            return None;
        },
    };
    if !is_char_at(s, e2, ')') {
        return None;
    }
    let (step, e3) = read_step(s, e2 + 1);
    Some((LoopIter { iter_name: slice_to_string(s, b, n), bounds: (lo, hi), step: step }, e3))
}

/// Reads an iterator at the start of `input`; what follows it is left
/// unread.
pub fn parse_loop_iter(input: &str) -> (r: Result<LoopIter, ParseError>)
    ensures
        match r {
            Ok(it) => p_loop_iter(input@, 0) matches Some(found) && found.0 == it@,
            Err(err) => p_loop_iter(input@, 0) is None && err == (ParseError {
                kind: ParseErrorKind::LoopIter,
                position: 0,
            }),
        },
{
    let s = to_chars(input);
    match read_loop_iter(&s, 0) {
        Some((it, e)) => {
            assert(p_loop_iter(input@, 0) == Some((it@, e as int)));
            Ok(it)
        },
        None => Err(ParseError { kind: ParseErrorKind::LoopIter, position: 0 }),
    }
}

impl LoopIter {
    /// Appends the text of the iterator.
    pub fn write(&self, out: &mut String)
        ensures
            final(out)@ == old(out)@ + iter_text(self@),
    {
        out.append("for ");
        push_text(out, &self.iter_name);
        out.append(" in (");
        push_int(out, self.bounds.0);
        out.append("..");
        push_int(out, self.bounds.1);
        out.append(")");
        if self.step != 1 {
            out.append(".step(");
            push_int(out, self.step);
            out.append(")");
        }
        assert(out@ =~= old(out)@ + iter_text(self@));
    }

    /// The text of the iterator.
    pub fn to_string(&self) -> (r: String)
        ensures
            r@ == iter_text(self@),
    {
        let mut out = String::new();
        self.write(&mut out);
        assert(out@ =~= iter_text(self@));
        out
    }
}

} // verus!

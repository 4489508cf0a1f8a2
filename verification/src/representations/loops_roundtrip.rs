//! Reading the text of an iterator gives the iterator back.

use crate::representations::affine_roundtrip::{lemma_no_blank, lemma_occurs_concat, lemma_one_space};
use crate::representations::instruction_roundtrip::lemma_occurs_subrange;
use crate::representations::loops::{iter_text, p_loop_iter, p_step, LoopIterModel};
use crate::text::{
    char_at,
    in_class,
    int_text,
    is_alpha,
    is_digit,
    lemma_parse_int_text,
    lemma_span_is,
    occurs_at,
    parse_int,
    span,
    CharClass,
};
use vstd::prelude::*;

verus! {

/// Whether the text is a name of an iterator: letters, at least one.
pub open spec fn letters_ok(n: Seq<char>) -> bool {
    &&& n.len() >= 1
    &&& forall|i: int| 0 <= i < n.len() ==> is_alpha(#[trigger] n[i])
}

/// The text of an iterator up to and with the parenthesis that closes its
/// range.
pub open spec fn iter_head_text(it: LoopIterModel) -> Seq<char> {
    "for "@ + it.iter_name + " in ("@ + int_text(it.bounds.0 as int) + ".."@ + int_text(
        it.bounds.1 as int,
    ) + ")"@
}

/// The text of the step of an iterator; nothing for a step of 1.
pub open spec fn step_text(step: i32) -> Seq<char> {
    if step != 1 {
        ".step("@ + int_text(step as int) + ")"@
    } else {
        Seq::empty()
    }
}

/// An integer text that stands in `s` before a character that is no digit
/// is read there.
pub proof fn lemma_int_at(s: Seq<char>, pos: int, v: i32, next: char)
    requires
        occurs_at(s, pos, int_text(v as int)),
        char_at(s, pos + int_text(v as int).len(), next),
        !is_digit(next),
    ensures
        parse_int(s, pos) == Some((v, pos + int_text(v as int).len())),
{
    lemma_parse_int_text(s, pos, v);
}

/// The text of a step at the end of `s` is read back as the step.
pub proof fn lemma_step_read(s: Seq<char>, pos: int, step: i32)
    requires
        occurs_at(s, pos, step_text(step)),
        pos + step_text(step).len() == s.len(),
    ensures
        p_step(s, pos) == (step, s.len() as int),
{
    reveal_strlit(".step(");
    reveal_strlit(")");
    if step != 1 {
        let t = int_text(step as int);
        lemma_occurs_concat(s, pos, ".step("@ + t, ")"@);
        lemma_occurs_concat(s, pos, ".step("@, t);
        assert(s[pos + 0] == ".step("@[0]);
        lemma_no_blank(s, pos);
        assert(s[pos + 6 + t.len() + 0] == ")"@[0]);
        lemma_int_at(s, pos + 6, step, ')');
    } else {
        lemma_no_blank(s, pos);
        assert(!occurs_at(s, pos, ".step("@));
    }
}

/// Where the parts of the text of an iterator stand in `s`.
pub open spec fn iter_laid_out(s: Seq<char>, it: LoopIterModel) -> bool {
    let n = 4int + it.iter_name.len();
    let lo = n + 5;
    let dots = lo + int_text(it.bounds.0 as int).len();
    let hi = dots + 2;
    let close = hi + int_text(it.bounds.1 as int).len();
    &&& occurs_at(s, 0, "for "@)
    &&& occurs_at(s, 4, it.iter_name)
    &&& occurs_at(s, n, " in ("@)
    &&& occurs_at(s, lo, int_text(it.bounds.0 as int))
    &&& occurs_at(s, dots, ".."@)
    &&& occurs_at(s, hi, int_text(it.bounds.1 as int))
    &&& occurs_at(s, close, ")"@)
    &&& occurs_at(s, close + 1, step_text(it.step))
    &&& close + 1 + step_text(it.step).len() == s.len()
}

/// The parts of the text of an iterator stand in it one after the other.
pub proof fn lemma_iter_layout(it: LoopIterModel)
    ensures
        iter_laid_out(iter_text(it), it),
{
    reveal_strlit("for ");
    reveal_strlit(" in (");
    reveal_strlit("..");
    reveal_strlit(")");
    let s = iter_text(it);
    let head = iter_head_text(it);
    let st = step_text(it.step);
    assert(s =~= head + st);
    assert(occurs_at(s, 0, s));
    let h1 = "for "@ + it.iter_name;
    let h2 = h1 + " in ("@;
    let h3 = h2 + int_text(it.bounds.0 as int);
    let h4 = h3 + ".."@;
    let h5 = h4 + int_text(it.bounds.1 as int);
    assert(head == h5 + ")"@);
    lemma_occurs_concat(s, 0, head, st);
    lemma_occurs_concat(s, 0, h5, ")"@);
    lemma_occurs_concat(s, 0, h4, int_text(it.bounds.1 as int));
    lemma_occurs_concat(s, 0, h3, ".."@);
    lemma_occurs_concat(s, 0, h2, int_text(it.bounds.0 as int));
    lemma_occurs_concat(s, 0, h1, " in ("@);
    lemma_occurs_concat(s, 0, "for "@, it.iter_name);
}

/// An iterator whose parts stand in `s` is read from `s`.
pub proof fn lemma_iter_at(s: Seq<char>, it: LoopIterModel)
    requires
        letters_ok(it.iter_name),
        iter_laid_out(s, it),
    ensures
        p_loop_iter(s, 0) == Some((it, s.len() as int)),
{
    reveal_strlit("for ");
    reveal_strlit("for");
    reveal_strlit(" in (");
    reveal_strlit("in");
    reveal_strlit("..");
    reveal_strlit(")");
    let name = it.iter_name;
    let n = 4int + name.len();
    let lo = n + 5;
    let dots = lo + int_text(it.bounds.0 as int).len();
    let hi = dots + 2;
    let close = hi + int_text(it.bounds.1 as int).len();
    assert(s[0int + 0] == "for "@[0]);
    assert(s[0int + 1] == "for "@[1]);
    assert(s[0int + 2] == "for "@[2]);
    assert(s[0int + 3] == "for "@[3]);
    assert(occurs_at(s, 0, "for"@));
    assert(s[4int + 0] == name[0]);
    assert(span(s, 3, CharClass::Blank) == 4) by {
        lemma_one_space(s, 3);
    }
    assert(s[n + 0] == " in ("@[0]);
    assert(s[n + 1] == " in ("@[1]);
    assert(s[n + 2] == " in ("@[2]);
    assert(s[n + 3] == " in ("@[3]);
    assert(s[n + 4] == " in ("@[4]);
    assert forall|i: int| 4 <= i < n implies in_class(CharClass::Alpha, #[trigger] s[i]) by {
        assert(s[4 + (i - 4)] == name[i - 4]);
        assert(is_alpha(name[i - 4]));
    }
    lemma_span_is(s, 4, n, CharClass::Alpha);
    lemma_occurs_subrange(s, 4, name);
    lemma_one_space(s, n);
    assert(occurs_at(s, n + 1, "in"@));
    lemma_one_space(s, n + 3);
    assert(s[dots + 0] == ".."@[0]);
    assert(s[dots + 1] == ".."@[1]);
    lemma_int_at(s, lo, it.bounds.0, '.');
    assert(s[close + 0] == ")"@[0]);
    lemma_int_at(s, hi, it.bounds.1, ')');
    lemma_step_read(s, close + 1, it.step);
}

/// Reading the text of an iterator gives the iterator back, where the name
/// of the iterator is made of letters.
pub proof fn lemma_iter_roundtrip(it: LoopIterModel)
    requires
        letters_ok(it.iter_name),
    ensures
        p_loop_iter(iter_text(it), 0) == Some((it, iter_text(it).len() as int)),
{
    lemma_iter_layout(it);
    lemma_iter_at(iter_text(it), it);
}

} // verus!

//! Reading the text of a transform, or of a script, gives it back, as far
//! as the characters that the text puts beside a name are none that a name
//! can hold.

use crate::representations::affine_parse::{advances, after_blanks};
use crate::representations::affine_roundtrip::lemma_occurs_concat;
use crate::representations::instruction_roundtrip::lemma_occurs_subrange;
use crate::representations::transforms::{
    p_comment,
    p_filler,
    p_item_end,
    p_map,
    p_pair,
    p_script,
    p_tag,
    p_tiling,
    p_transform,
    p_word,
    script_text,
    transform_text,
    TransformModel,
};
use crate::text::{
    char_at,
    in_class,
    int_text,
    is_blank,
    is_space,
    lemma_int_text,
    lemma_parse_int_text,
    lemma_span_is,
    occurs_at,
    parse_int,
    span,
    CharClass,
};
use vstd::prelude::*;

verus! {

/// Whether the text is a name as the grammar of transforms reads one:
/// letters, digits and underscores, at least one.
pub open spec fn word_ok(n: Seq<char>) -> bool {
    &&& n.len() >= 1
    &&& forall|i: int| 0 <= i < n.len() ==> in_class(CharClass::Word, #[trigger] n[i])
}

/// Whether the names of a transform are names as the grammar reads them.
pub open spec fn transform_ok(t: TransformModel) -> bool {
    match t {
        TransformModel::MapSpatial(i) => word_ok(i),
        TransformModel::MapTemporal(i) => word_ok(i),
        TransformModel::Tiling(old, new, _) => word_ok(old) && word_ok(new),
        TransformModel::Renaming(a, b) => word_ok(a) && word_ok(b),
        TransformModel::Reorder(a, b) => word_ok(a) && word_ok(b),
    }
}

/// Whether the characters that the text of a script puts beside a name are
/// none that a name can hold: the space, the tab, the comma, the closing
/// parenthesis, the exclamation mark and the end of a line.
pub open spec fn marks_end_names() -> bool {
    &&& !in_class(CharClass::Word, ' ')
    &&& !in_class(CharClass::Word, '\t')
    &&& !in_class(CharClass::Word, ',')
    &&& !in_class(CharClass::Word, ')')
    &&& !in_class(CharClass::Word, '!')
    &&& !in_class(CharClass::Word, '\n')
}

/// Whether the text of an item may end at the position: at the end of `s`
/// or before the end of a line.
pub open spec fn item_ends(s: Seq<char>, e: int) -> bool {
    0 <= e <= s.len() && (e < s.len() ==> s[e] == '\n')
}

/// At most one space at a position, and none after it: the run of spaces
/// ends after it.
pub proof fn lemma_spaces(s: Seq<char>, q: int, k: int)
    requires
        0 <= q,
        0 <= k <= 1,
        q + k <= s.len(),
        k == 1 ==> s[q] == ' ',
        q + k < s.len() ==> !is_space(s[q + k]),
    ensures
        span(s, q, CharClass::Space) == q + k,
{
    lemma_span_is(s, q, q + k, CharClass::Space);
}

/// A name that stands after at most one space and before something that
/// no name can hold is read as a word, with the space that may follow it.
pub proof fn lemma_word_read(s: Seq<char>, q: int, lead: int, n: Seq<char>, trail: int)
    requires
        marks_end_names(),
        word_ok(n),
        0 <= q,
        0 <= lead <= 1,
        0 <= trail <= 1,
        lead == 1 ==> char_at(s, q, ' '),
        occurs_at(s, q + lead, n),
        q + lead + n.len() < s.len() ==> !in_class(CharClass::Word, s[q + lead + n.len()]),
        q + lead + n.len() + trail <= s.len(),
        trail == 1 ==> s[q + lead + n.len()] == ' ',
        q + lead + n.len() + trail < s.len() ==> !is_space(s[q + lead + n.len() + trail]),
    ensures
        p_word(s, q) == Some((n, q + lead + n.len() + trail)),
{
    let a = q + lead;
    let m = a + n.len();
    assert(s[a + 0] == n[0]);
    assert(in_class(CharClass::Word, n[0]));
    lemma_spaces(s, q, lead);
    assert forall|i: int| a <= i < m implies in_class(CharClass::Word, #[trigger] s[i]) by {
        assert(s[a + (i - a)] == n[i - a]);
    }
    lemma_span_is(s, a, m, CharClass::Word);
    lemma_occurs_subrange(s, a, n);
    lemma_spaces(s, m, trail);
}

/// A tag that stands at a position before one space is passed over, with
/// the space.
pub proof fn lemma_tag_here(s: Seq<char>, pos: int, tag: Seq<char>)
    requires
        occurs_at(s, pos, tag),
        tag.len() >= 1,
        tag[0] == '!',
        char_at(s, pos + tag.len(), ' '),
        pos + tag.len() + 1 < s.len() ==> !is_space(s[pos + tag.len() + 1]),
    ensures
        p_tag(s, pos, tag) == pos + tag.len() + 1,
{
    assert(s[pos + 0] == tag[0]);
    lemma_spaces(s, pos, 0);
    lemma_spaces(s, pos + tag.len(), 1);
}

/// Where another tag stands at a position, the tag is not passed over and
/// no word is read there.
pub proof fn lemma_tag_absent(s: Seq<char>, pos: int, tag: Seq<char>)
    requires
        marks_end_names(),
        char_at(s, pos, '!'),
        !occurs_at(s, pos, tag),
    ensures
        p_tag(s, pos, tag) == pos,
        p_word(s, pos) is None,
{
    lemma_spaces(s, pos, 0);
    lemma_span_is(s, pos, pos, CharClass::Word);
}

/// The first character of a name is no space.
pub proof fn lemma_name_start(n: Seq<char>)
    requires
        marks_end_names(),
        word_ok(n),
    ensures
        !is_space(n[0]),
        n[0] != '!',
        n[0] != '\n',
{
    assert(in_class(CharClass::Word, n[0]));
}

/// The text of two names with an arrow between them, after a tag.
pub open spec fn pair_text(tag: Seq<char>, arrow: Seq<char>, a: Seq<char>, b: Seq<char>) -> Seq<
    char,
> {
    tag + " "@ + a + " "@ + arrow + " "@ + b
}

/// Two names with an arrow between them are read back after their tag.
pub proof fn lemma_pair_read(
    s: Seq<char>,
    pos: int,
    tag: Seq<char>,
    arrow: Seq<char>,
    a: Seq<char>,
    b: Seq<char>,
)
    requires
        marks_end_names(),
        word_ok(a),
        word_ok(b),
        tag.len() >= 1,
        tag[0] == '!',
        arrow.len() >= 1,
        !is_space(arrow[0]),
        occurs_at(s, pos, pair_text(tag, arrow, a, b)),
        item_ends(s, pos + pair_text(tag, arrow, a, b).len()),
    ensures
        p_pair(s, pos, tag, arrow) == Some(((a, b), pos + pair_text(tag, arrow, a, b).len())),
{
    reveal_strlit(" ");
    let sp = " "@;
    let t1 = tag + sp;
    let t2 = t1 + a;
    let t3 = t2 + sp;
    let t4 = t3 + arrow;
    let t5 = t4 + sp;
    lemma_occurs_concat(s, pos, t5, b);
    lemma_occurs_concat(s, pos, t4, sp);
    lemma_occurs_concat(s, pos, t3, arrow);
    lemma_occurs_concat(s, pos, t2, sp);
    lemma_occurs_concat(s, pos, t1, a);
    lemma_occurs_concat(s, pos, tag, sp);
    lemma_name_start(a);
    lemma_name_start(b);
    let pa = pos + tag.len() + 1;
    let ma = pa + a.len();
    let pb = ma + 1 + arrow.len() + 1;
    assert(s[pos + tag.len() + 0] == sp[0]);
    assert(s[pa + 0] == a[0]);
    assert(s[ma + 0] == sp[0]);
    assert(s[ma + 1 + 0] == arrow[0]);
    assert(s[ma + 1 + arrow.len() + 0] == sp[0]);
    assert(s[pb + 0] == b[0]);
    lemma_tag_here(s, pos, tag);
    lemma_word_read(s, pa, 0, a, 1);
    lemma_word_read(s, ma + 1 + arrow.len(), 1, b, 0);
}

/// The text of a mapping directive: a name, `=>` and the kind, after a tag.
pub open spec fn map_text(tag: Seq<char>, kind: Seq<char>, i: Seq<char>) -> Seq<char> {
    tag + " "@ + i + " => "@ + kind
}

/// A mapping directive is read back after its tag.
pub proof fn lemma_map_read(s: Seq<char>, pos: int, tag: Seq<char>, kind: Seq<char>, i: Seq<char>)
    requires
        marks_end_names(),
        word_ok(i),
        tag.len() >= 1,
        tag[0] == '!',
        kind.len() >= 1,
        !is_space(kind[0]),
        occurs_at(s, pos, map_text(tag, kind, i)),
    ensures
        p_map(s, pos, tag, kind) == Some((i, pos + map_text(tag, kind, i).len())),
{
    reveal_strlit(" ");
    reveal_strlit(" => ");
    reveal_strlit("=>");
    let sp = " "@;
    let ar = " => "@;
    let t1 = tag + sp;
    let t2 = t1 + i;
    let t3 = t2 + ar;
    lemma_occurs_concat(s, pos, t3, kind);
    lemma_occurs_concat(s, pos, t2, ar);
    lemma_occurs_concat(s, pos, t1, i);
    lemma_occurs_concat(s, pos, tag, sp);
    lemma_name_start(i);
    let pi = pos + tag.len() + 1;
    let m = pi + i.len();
    assert(s[pos + tag.len() + 0] == sp[0]);
    assert(s[pi + 0] == i[0]);
    assert(s[m + 0] == ar[0]);
    assert(s[m + 1] == ar[1]);
    assert(s[m + 2] == ar[2]);
    assert(s[m + 3] == ar[3]);
    assert(s[m + 4 + 0] == kind[0]);
    lemma_tag_here(s, pos, tag);
    lemma_word_read(s, pi, 0, i, 1);
    assert(occurs_at(s, m + 1, "=>"@));
    lemma_spaces(s, m + 3, 1);
}

/// The text of a tiling is read back.
pub proof fn lemma_tiling_read(
    s: Seq<char>,
    pos: int,
    old: Seq<char>,
    new: Seq<char>,
    factor: i32,
)
    requires
        marks_end_names(),
        word_ok(old),
        word_ok(new),
        occurs_at(s, pos, transform_text(TransformModel::Tiling(old, new, factor))),
        item_ends(s, pos + transform_text(TransformModel::Tiling(old, new, factor)).len()),
    ensures
        p_tiling(s, pos) == Some(
            (
                TransformModel::Tiling(old, new, factor),
                pos + transform_text(TransformModel::Tiling(old, new, factor)).len(),
            ),
        ),
{
    reveal_strlit("!Tiling ");
    reveal_strlit("!Tiling");
    reveal_strlit(" -> (");
    reveal_strlit("->");
    reveal_strlit(", ");
    reveal_strlit(") by ");
    reveal_strlit("by");
    let num = int_text(factor as int);
    let t1 = "!Tiling "@ + old;
    let t2 = t1 + " -> ("@;
    let t3 = t2 + old;
    let t4 = t3 + ", "@;
    let t5 = t4 + new;
    let t6 = t5 + ") by "@;
    lemma_occurs_concat(s, pos, t6, num);
    lemma_occurs_concat(s, pos, t5, ") by "@);
    lemma_occurs_concat(s, pos, t4, new);
    lemma_occurs_concat(s, pos, t3, ", "@);
    lemma_occurs_concat(s, pos, t2, old);
    lemma_occurs_concat(s, pos, t1, " -> ("@);
    lemma_occurs_concat(s, pos, "!Tiling "@, old);
    lemma_name_start(old);
    lemma_name_start(new);
    lemma_int_text(factor as int);
    let p1 = pos + 8;
    let m1 = p1 + old.len();
    let p2 = m1 + 5;
    let m2 = p2 + old.len();
    let p3 = m2 + 2;
    let m3 = p3 + new.len();
    let p4 = m3 + 5;
    let e4 = p4 + num.len();
    assert(s[pos + 0] == "!Tiling "@[0]);
    assert(s[pos + 1] == "!Tiling "@[1]);
    assert(s[pos + 2] == "!Tiling "@[2]);
    assert(s[pos + 3] == "!Tiling "@[3]);
    assert(s[pos + 4] == "!Tiling "@[4]);
    assert(s[pos + 5] == "!Tiling "@[5]);
    assert(s[pos + 6] == "!Tiling "@[6]);
    assert(s[pos + 7] == "!Tiling "@[7]);
    assert(occurs_at(s, pos, "!Tiling"@));
    assert(s[p1 + 0] == old[0]);
    assert(s[m1 + 0] == " -> ("@[0]);
    assert(s[m1 + 1] == " -> ("@[1]);
    assert(s[m1 + 2] == " -> ("@[2]);
    assert(s[m1 + 3] == " -> ("@[3]);
    assert(s[m1 + 4] == " -> ("@[4]);
    assert(s[p2 + 0] == old[0]);
    assert(s[m2 + 0] == ", "@[0]);
    assert(s[m2 + 1] == ", "@[1]);
    assert(s[p3 + 0] == new[0]);
    assert(s[m3 + 0] == ") by "@[0]);
    assert(s[m3 + 1] == ") by "@[1]);
    assert(s[m3 + 2] == ") by "@[2]);
    assert(s[m3 + 3] == ") by "@[3]);
    assert(s[m3 + 4] == ") by "@[4]);
    assert(s[p4 + 0] == num[0]);
    lemma_tag_here(s, pos, "!Tiling"@);
    lemma_word_read(s, p1, 0, old, 1);
    assert(occurs_at(s, m1 + 1, "->"@));
    lemma_spaces(s, m1 + 3, 1);
    lemma_word_read(s, p2, 0, old, 0);
    lemma_word_read(s, m2 + 1, 1, new, 0);
    lemma_spaces(s, m3 + 1, 1);
    assert(occurs_at(s, m3 + 2, "by"@));
    lemma_spaces(s, m3 + 4, 1);
    lemma_parse_int_text(s, p4, factor);
    assert(p_word(s, p_tag(s, pos, "!Tiling"@)) == Some((old, m1 + 1)));
    assert(span(s, m1 + 1 + "->"@.len(), CharClass::Space) == m1 + 4);
    assert(char_at(s, m1 + 4, '('));
    assert(p_word(s, m1 + 4 + 1) == Some((old, m2)));
    assert(char_at(s, m2, ','));
    assert(p_word(s, m2 + 1) == Some((new, m3)));
    assert(char_at(s, m3, ')'));
    assert(span(s, m3 + 1, CharClass::Space) == m3 + 2);
    assert(span(s, m3 + 2 + "by"@.len(), CharClass::Space) == p4);
    assert(parse_int(s, p4) == Some((factor, e4)));
}

/// A text that differs from what stands at a position does not stand
/// there.
pub proof fn lemma_differs(s: Seq<char>, pos: int, tag: Seq<char>, k: int)
    requires
        0 <= pos,
        0 <= k < tag.len(),
        pos + k < s.len(),
        s[pos + k] != tag[k],
    ensures
        !occurs_at(s, pos, tag),
{
}

/// Where another tag stands at a position, no tiling is read there.
pub proof fn lemma_tiling_absent(s: Seq<char>, pos: int, k: int)
    requires
        marks_end_names(),
        char_at(s, pos, '!'),
        0 <= k < "!Tiling"@.len(),
        pos + k < s.len(),
        s[pos + k] != "!Tiling"@[k],
    ensures
        p_tiling(s, pos) is None,
{
    lemma_differs(s, pos, "!Tiling"@, k);
    lemma_tag_absent(s, pos, "!Tiling"@);
}

/// Where another tag stands at a position, no pair of names is read there
/// after the tag.
pub proof fn lemma_pair_absent(s: Seq<char>, pos: int, tag: Seq<char>, arrow: Seq<char>, k: int)
    requires
        marks_end_names(),
        char_at(s, pos, '!'),
        0 <= k < tag.len(),
        pos + k < s.len(),
        s[pos + k] != tag[k],
    ensures
        p_pair(s, pos, tag, arrow) is None,
{
    lemma_differs(s, pos, tag, k);
    lemma_tag_absent(s, pos, tag);
}

/// Where another tag stands at a position, no mapping directive is read
/// there after the tag.
pub proof fn lemma_map_absent(s: Seq<char>, pos: int, tag: Seq<char>, kind: Seq<char>, k: int)
    requires
        marks_end_names(),
        char_at(s, pos, '!'),
        0 <= k < tag.len(),
        pos + k < s.len(),
        s[pos + k] != tag[k],
    ensures
        p_map(s, pos, tag, kind) is None,
{
    lemma_differs(s, pos, tag, k);
    lemma_tag_absent(s, pos, tag);
}

/// The text of a renaming is read back.
pub proof fn lemma_renaming_read(s: Seq<char>, pos: int, a: Seq<char>, b: Seq<char>)
    requires
        marks_end_names(),
        word_ok(a),
        word_ok(b),
        occurs_at(s, pos, transform_text(TransformModel::Renaming(a, b))),
        item_ends(s, pos + transform_text(TransformModel::Renaming(a, b)).len()),
    ensures
        p_transform(s, pos) == Some(
            (
                TransformModel::Renaming(a, b),
                pos + transform_text(TransformModel::Renaming(a, b)).len(),
            ),
        ),
{
    reveal_strlit("!Tiling");
    reveal_strlit("!Renaming");
    reveal_strlit("!Renaming ");
    reveal_strlit(" -> ");
    reveal_strlit("->");
    reveal_strlit(" ");
    let text = transform_text(TransformModel::Renaming(a, b));
    assert(text =~= pair_text("!Renaming"@, "->"@, a, b));
    let head = "!Renaming "@;
    lemma_occurs_concat(s, pos, head + a + " -> "@, b);
    lemma_occurs_concat(s, pos, head + a, " -> "@);
    lemma_occurs_concat(s, pos, head, a);
    assert(s[pos + 0] == head[0]);
    assert(s[pos + 1] == head[1]);
    lemma_tiling_absent(s, pos, 1);
    lemma_pair_read(s, pos, "!Renaming"@, "->"@, a, b);
}

/// The text of a spatial mapping directive is read back.
pub proof fn lemma_map_spatial_read(s: Seq<char>, pos: int, i: Seq<char>)
    requires
        marks_end_names(),
        word_ok(i),
        occurs_at(s, pos, transform_text(TransformModel::MapSpatial(i))),
    ensures
        p_transform(s, pos) == Some(
            (
                TransformModel::MapSpatial(i),
                pos + transform_text(TransformModel::MapSpatial(i)).len(),
            ),
        ),
{
    reveal_strlit("!Tiling");
    reveal_strlit("!Renaming");
    reveal_strlit("!MapSpatial");
    reveal_strlit("!MapSpatial ");
    reveal_strlit(" => ");
    reveal_strlit(" => Spatial");
    reveal_strlit("Spatial");
    reveal_strlit(" ");
    let text = transform_text(TransformModel::MapSpatial(i));
    assert(text =~= map_text("!MapSpatial"@, "Spatial"@, i));
    let head = "!MapSpatial "@;
    lemma_occurs_concat(s, pos, head + i, " => Spatial"@);
    lemma_occurs_concat(s, pos, head, i);
    assert(s[pos + 0] == head[0]);
    assert(s[pos + 1] == head[1]);
    lemma_tiling_absent(s, pos, 1);
    lemma_pair_absent(s, pos, "!Renaming"@, "->"@, 1);
    lemma_map_read(s, pos, "!MapSpatial"@, "Spatial"@, i);
}

/// The text of a temporal mapping directive is read back.
pub proof fn lemma_map_temporal_read(s: Seq<char>, pos: int, i: Seq<char>)
    requires
        marks_end_names(),
        word_ok(i),
        occurs_at(s, pos, transform_text(TransformModel::MapTemporal(i))),
    ensures
        p_transform(s, pos) == Some(
            (
                TransformModel::MapTemporal(i),
                pos + transform_text(TransformModel::MapTemporal(i)).len(),
            ),
        ),
{
    reveal_strlit("!Tiling");
    reveal_strlit("!Renaming");
    reveal_strlit("!MapSpatial");
    reveal_strlit("!MapTemporal");
    reveal_strlit("!MapTemporal ");
    reveal_strlit(" => ");
    reveal_strlit(" => Temporal");
    reveal_strlit("Temporal");
    reveal_strlit(" ");
    let text = transform_text(TransformModel::MapTemporal(i));
    assert(text =~= map_text("!MapTemporal"@, "Temporal"@, i));
    let head = "!MapTemporal "@;
    lemma_occurs_concat(s, pos, head + i, " => Temporal"@);
    lemma_occurs_concat(s, pos, head, i);
    assert(s[pos + 0] == head[0]);
    assert(s[pos + 1] == head[1]);
    assert(s[pos + 4] == head[4]);
    lemma_tiling_absent(s, pos, 1);
    lemma_pair_absent(s, pos, "!Renaming"@, "->"@, 1);
    lemma_map_absent(s, pos, "!MapSpatial"@, "Spatial"@, 4);
    lemma_map_read(s, pos, "!MapTemporal"@, "Temporal"@, i);
}

/// The text of a reordering is read back.
pub proof fn lemma_reorder_read(s: Seq<char>, pos: int, a: Seq<char>, b: Seq<char>)
    requires
        marks_end_names(),
        word_ok(a),
        word_ok(b),
        occurs_at(s, pos, transform_text(TransformModel::Reorder(a, b))),
        item_ends(s, pos + transform_text(TransformModel::Reorder(a, b)).len()),
    ensures
        p_transform(s, pos) == Some(
            (
                TransformModel::Reorder(a, b),
                pos + transform_text(TransformModel::Reorder(a, b)).len(),
            ),
        ),
{
    reveal_strlit("!Tiling");
    reveal_strlit("!Renaming");
    reveal_strlit("!MapSpatial");
    reveal_strlit("!MapTemporal");
    reveal_strlit("!Reorder");
    reveal_strlit("!Reorder ");
    reveal_strlit(" <-> ");
    reveal_strlit("<->");
    reveal_strlit(" ");
    let text = transform_text(TransformModel::Reorder(a, b));
    assert(text =~= pair_text("!Reorder"@, "<->"@, a, b));
    let head = "!Reorder "@;
    lemma_occurs_concat(s, pos, head + a + " <-> "@, b);
    lemma_occurs_concat(s, pos, head + a, " <-> "@);
    lemma_occurs_concat(s, pos, head, a);
    assert(s[pos + 0] == head[0]);
    assert(s[pos + 1] == head[1]);
    assert(s[pos + 3] == head[3]);
    lemma_tiling_absent(s, pos, 1);
    lemma_pair_absent(s, pos, "!Renaming"@, "->"@, 3);
    lemma_map_absent(s, pos, "!MapSpatial"@, "Spatial"@, 1);
    lemma_map_absent(s, pos, "!MapTemporal"@, "Temporal"@, 1);
    lemma_pair_read(s, pos, "!Reorder"@, "<->"@, a, b);
}

/// The text of a transform that stands before the end of a line, or at the
/// end of the text, is read back.
pub proof fn lemma_transform_read(s: Seq<char>, pos: int, t: TransformModel)
    requires
        marks_end_names(),
        transform_ok(t),
        occurs_at(s, pos, transform_text(t)),
        item_ends(s, pos + transform_text(t).len()),
    ensures
        p_transform(s, pos) == Some((t, pos + transform_text(t).len())),
{
    match t {
        TransformModel::Tiling(old, new, factor) => {
            lemma_tiling_read(s, pos, old, new, factor);
        },
        TransformModel::Renaming(a, b) => {
            lemma_renaming_read(s, pos, a, b);
        },
        TransformModel::MapSpatial(i) => {
            lemma_map_spatial_read(s, pos, i);
        },
        TransformModel::MapTemporal(i) => {
            lemma_map_temporal_read(s, pos, i);
        },
        TransformModel::Reorder(a, b) => {
            lemma_reorder_read(s, pos, a, b);
        },
    }
}

/// Reading the text of a transform gives the transform back, where its
/// names are names as the grammar reads them and the characters that the
/// text puts beside a name are none that a name can hold.
pub proof fn lemma_transform_roundtrip(t: TransformModel)
    requires
        marks_end_names(),
        transform_ok(t),
    ensures
        p_transform(transform_text(t), 0) == Some((t, transform_text(t).len() as int)),
{
    lemma_transform_read(transform_text(t), 0, t);
}

/// The text of the items of a script from the `k`-th on.
pub open spec fn items_text(ts: Seq<TransformModel>, k: int) -> Seq<char>
    decreases ts.len() - k,
{
    if 0 <= k < ts.len() {
        " - "@ + transform_text(ts[k]) + "\n"@ + items_text(ts, k + 1)
    } else {
        Seq::empty()
    }
}

/// The text of a script is the text of its first items, then the text of
/// the others.
pub proof fn lemma_items_split(ts: Seq<TransformModel>, k: int)
    requires
        0 <= k <= ts.len(),
    ensures
        script_text(ts) == script_text(ts.take(k)) + items_text(ts, k),
    decreases ts.len() - k,
{
    if k == ts.len() {
        assert(ts.take(k) =~= ts);
        assert(script_text(ts) =~= script_text(ts) + items_text(ts, k));
    } else {
        lemma_items_split(ts, k + 1);
        let u = ts.take(k + 1);
        assert(u.drop_last() =~= ts.take(k));
        assert(u.last() == ts[k]);
        assert(script_text(ts) =~= script_text(ts.take(k)) + items_text(ts, k));
    }
}

/// The text of a transform starts with its tag.
pub proof fn lemma_text_starts(t: TransformModel)
    ensures
        transform_text(t).len() >= 1,
        transform_text(t)[0] == '!',
{
    reveal_strlit("!Tiling ");
    reveal_strlit("!Renaming ");
    reveal_strlit("!MapSpatial ");
    reveal_strlit("!MapTemporal ");
    reveal_strlit("!Reorder ");
}

/// Where the parts of the first of the items from the `k`-th on stand in
/// `s`, if the items stand at `start` and end the text.
pub open spec fn item_laid_out(s: Seq<char>, start: int, ts: Seq<TransformModel>, k: int) -> bool {
    let text = transform_text(ts[k]);
    let e = start + 3 + text.len();
    &&& 0 <= start
    &&& e < s.len()
    &&& s[start] == ' '
    &&& s[start + 1] == '-'
    &&& s[start + 2] == ' '
    &&& occurs_at(s, start + 3, text)
    &&& s[start + 3] == '!'
    &&& s[e] == '\n'
    &&& occurs_at(s, e + 1, items_text(ts, k + 1))
    &&& e + 1 + items_text(ts, k + 1).len() == s.len()
    &&& (e + 1 == s.len() || (e + 2 < s.len() && s[e + 1] == ' ' && s[e + 2] == '-'))
}

/// The parts of the items of a script stand in its text one after the
/// other.
pub proof fn lemma_item_layout(s: Seq<char>, start: int, ts: Seq<TransformModel>, k: int)
    requires
        0 <= k < ts.len(),
        occurs_at(s, start, items_text(ts, k)),
        start + items_text(ts, k).len() == s.len(),
    ensures
        item_laid_out(s, start, ts, k),
{
    reveal_strlit(" - ");
    reveal_strlit("\n");
    let n = ts.len() as int;
    let t = ts[k];
    let text = transform_text(t);
    let rest = items_text(ts, k + 1);
    lemma_text_starts(t);
    let h1 = " - "@ + text;
    let h2 = h1 + "\n"@;
    assert(items_text(ts, k) == h2 + rest);
    lemma_occurs_concat(s, start, h2, rest);
    lemma_occurs_concat(s, start, h1, "\n"@);
    lemma_occurs_concat(s, start, " - "@, text);
    let e = start + 3 + text.len();
    assert(s[start + 0] == " - "@[0]);
    assert(s[start + 1] == " - "@[1]);
    assert(s[start + 2] == " - "@[2]);
    assert(s[start + 3 + 0] == text[0]);
    assert(s[e + 0] == "\n"@[0]);
    if k + 1 < n {
        let next_text = transform_text(ts[k + 1]);
        let later = items_text(ts, k + 2);
        assert(rest == " - "@ + next_text + "\n"@ + later);
        lemma_occurs_concat(s, e + 1, " - "@ + next_text + "\n"@, later);
        lemma_occurs_concat(s, e + 1, " - "@ + next_text, "\n"@);
        lemma_occurs_concat(s, e + 1, " - "@, next_text);
        assert(s[e + 1 + 0] == " - "@[0]);
        assert(s[e + 1 + 1] == " - "@[1]);
    } else {
        assert(rest.len() == 0);
    }
}

/// Blanks and then something that starts no comment: the filler ends
/// there, and no comment is read.
pub proof fn lemma_filler_to(s: Seq<char>, pos: int, to: int)
    requires
        0 <= pos <= to <= s.len(),
        forall|i: int| pos <= i < to ==> is_blank(#[trigger] s[i]),
        to < s.len() ==> !is_blank(s[to]) && s[to] != '/',
    ensures
        after_blanks(s, pos) == to,
        p_comment(s, pos) is None,
        p_filler(s, pos) == to,
        p_item_end(s, pos) == pos,
{
    reveal_strlit("//");
    lemma_span_is(s, pos, to, CharClass::Blank);
    if to < s.len() {
        lemma_differs(s, to, "//"@, 0);
    }
}

/// Whether an item of a script is read from `pos`: the filler ends at a
/// `-`, the transform `t` is read after it up to `e`, and no comment
/// follows.
#[verifier::opaque]
pub open spec fn item_read(s: Seq<char>, pos: int, t: TransformModel, e: int) -> bool {
    &&& char_at(s, p_filler(s, pos), '-')
    &&& p_transform(s, after_blanks(s, p_filler(s, pos) + 1)) == Some((t, e))
    &&& p_item_end(s, e) == e
}

/// Whether the script that is read from `pos`, after the transforms `acc`,
/// is `all`.
#[verifier::opaque]
pub open spec fn script_read(
    s: Seq<char>,
    pos: int,
    acc: Seq<TransformModel>,
    all: Seq<TransformModel>,
) -> bool {
    p_script(s, pos, acc) == Ok::<Seq<TransformModel>, int>(all)
}

/// An item of a script is read where it stands, from its start or from the
/// end of the line before it.
pub proof fn lemma_item_read(s: Seq<char>, pos: int, start: int, ts: Seq<TransformModel>, k: int)
    requires
        marks_end_names(),
        0 <= k < ts.len(),
        transform_ok(ts[k]),
        item_laid_out(s, start, ts, k),
        0 <= pos,
        pos == start || (pos + 1 == start && s[pos] == '\n'),
    ensures
        item_read(s, pos, ts[k], start + 3 + transform_text(ts[k]).len()),
{
    reveal(item_read);
    let e = start + 3 + transform_text(ts[k]).len();
    lemma_filler_to(s, pos, start + 1);
    lemma_filler_to(s, start + 2, start + 3);
    lemma_transform_read(s, start + 3, ts[k]);
    if e + 1 == s.len() {
        lemma_filler_to(s, e, e + 1);
    } else {
        lemma_filler_to(s, e, e + 2);
    }
}

/// A script goes on after an item: the rest of the script is read with the
/// transform of the item added to those read before.
pub proof fn lemma_script_step(
    s: Seq<char>,
    pos: int,
    acc: Seq<TransformModel>,
    t: TransformModel,
    e: int,
    all: Seq<TransformModel>,
)
    requires
        0 <= pos,
        item_read(s, pos, t, e),
        advances(s, pos, e),
        script_read(s, e, acc.push(t), all),
    ensures
        script_read(s, pos, acc, all),
{
    reveal(item_read);
    reveal(script_read);
}

/// A script ends at the end of the text, and at the end of its last line.
pub proof fn lemma_script_end(s: Seq<char>, pos: int, acc: Seq<TransformModel>)
    requires
        0 <= pos,
        pos == s.len() || (pos + 1 == s.len() && s[pos] == '\n'),
    ensures
        script_read(s, pos, acc, acc),
{
    reveal(script_read);
    lemma_filler_to(s, pos, s.len() as int);
}

/// The items of a script that stand at the end of a text are read from
/// the position where they start, or from the end of the line before it.
pub proof fn lemma_script_from(
    s: Seq<char>,
    pos: int,
    start: int,
    ts: Seq<TransformModel>,
    k: int,
    acc: Seq<TransformModel>,
)
    requires
        marks_end_names(),
        forall|i: int| 0 <= i < ts.len() ==> transform_ok(#[trigger] ts[i]),
        0 <= k <= ts.len(),
        0 <= pos <= start,
        occurs_at(s, start, items_text(ts, k)),
        start + items_text(ts, k).len() == s.len(),
        pos == start || (pos + 1 == start && s[pos] == '\n'),
    ensures
        script_read(s, pos, acc, acc + ts.subrange(k, ts.len() as int)),
    decreases ts.len() - k,
{
    let n = ts.len() as int;
    if k == n {
        lemma_script_end(s, pos, acc);
        assert(acc + ts.subrange(k, n) =~= acc);
    } else {
        let t = ts[k];
        let e = start + 3 + transform_text(t).len();
        lemma_item_layout(s, start, ts, k);
        lemma_item_read(s, pos, start, ts, k);
        lemma_script_from(s, e, e + 1, ts, k + 1, acc.push(t));
        assert(acc.push(t) + ts.subrange(k + 1, n) =~= acc + ts.subrange(k, n));
        lemma_script_step(s, pos, acc, t, e, acc + ts.subrange(k, n));
    }
}

/// Reading the text of a script gives the script back, where the names of
/// its transforms are names as the grammar reads them and the characters
/// that the text puts beside a name are none that a name can hold.
pub proof fn lemma_script_roundtrip(ts: Seq<TransformModel>)
    requires
        marks_end_names(),
        forall|i: int| 0 <= i < ts.len() ==> transform_ok(#[trigger] ts[i]),
    ensures
        p_script(script_text(ts), 0, Seq::empty()) == Ok::<Seq<TransformModel>, int>(ts),
{
    let s = script_text(ts);
    lemma_items_split(ts, 0);
    assert(ts.take(0) =~= Seq::<TransformModel>::empty());
    assert(s =~= items_text(ts, 0));
    lemma_script_from(s, 0, 0, ts, 0, Seq::empty());
    assert(Seq::<TransformModel>::empty() + ts.subrange(0, ts.len() as int) =~= ts);
    reveal(script_read);
}

} // verus!

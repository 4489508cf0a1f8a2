//! Transforms: declarative rewrites of a loop nest, and scripts of them.

use crate::representations::affine_expr::push_text;
use crate::representations::affine_parse::{advances, after_blanks};
use crate::text::{
    char_at,
    int_text,
    is_char_at,
    occurs_at,
    parse_int,
    push_int,
    read_int,
    scan,
    slice_to_string,
    span,
    starts_with_at,
    to_chars,
    CharClass,
    ParseError,
    ParseErrorKind,
};
use vstd::prelude::*;
use vstd::string::StringExecFns;

verus! {

/// A way to modify a loop nest.
#[derive(Debug, PartialEq)]
pub enum Transform {
    /// Maps an iterator to a spatial dimension.
    MapSpatial(String),
    /// Maps an iterator to a temporal dimension.
    MapTemporal(String),
    /// Splits the iterator named first by the factor; the second name is that
    /// of the new inner iterator.
    Tiling((String, String, i32)),
    /// Gives the iterator named first the second name.
    Renaming((String, String)),
    /// Swaps the positions of two iterators.
    Reorder((String, String)),
}

/// A script: transforms in the order in which they apply.
#[derive(Debug, PartialEq)]
pub struct Transforms {
    pub transforms: Vec<Transform>,
}

pub enum TransformModel {
    MapSpatial(Seq<char>),
    MapTemporal(Seq<char>),
    Tiling(Seq<char>, Seq<char>, i32),
    Renaming(Seq<char>, Seq<char>),
    Reorder(Seq<char>, Seq<char>),
}

/// Why a transform could not be applied.
#[derive(Debug, PartialEq)]
pub enum TransformError {
    /// The factor of a tiling is not positive or does not divide the upper
    /// bound of the iterator.
    NonDivisibleTile { iter: String, bound: i32, factor: i32 },
    /// The name to tile is used as a symbolic coefficient.
    TileOverCoeffVar(String),
    /// The nest has no iterator of that name.
    IterNotFound(String),
}

pub enum TransformErrorModel {
    NonDivisibleTile { iter: Seq<char>, bound: i32, factor: i32 },
    TileOverCoeffVar(Seq<char>),
    IterNotFound(Seq<char>),
}

impl View for TransformError {
    type V = TransformErrorModel;

    open spec fn view(&self) -> TransformErrorModel {
        match self {
            TransformError::NonDivisibleTile { iter, bound, factor } => {
                TransformErrorModel::NonDivisibleTile { iter: iter@, bound: *bound, factor: *factor }
            },
            TransformError::TileOverCoeffVar(n) => TransformErrorModel::TileOverCoeffVar(n@),
            TransformError::IterNotFound(n) => TransformErrorModel::IterNotFound(n@),
        }
    }
}

impl View for Transform {
    type V = TransformModel;

    open spec fn view(&self) -> TransformModel {
        match self {
            Transform::MapSpatial(i) => TransformModel::MapSpatial(i@),
            Transform::MapTemporal(i) => TransformModel::MapTemporal(i@),
            Transform::Tiling(t) => TransformModel::Tiling(t.0@, t.1@, t.2),
            Transform::Renaming(t) => TransformModel::Renaming(t.0@, t.1@),
            Transform::Reorder(t) => TransformModel::Reorder(t.0@, t.1@),
        }
    }
}

impl View for Transforms {
    type V = Seq<TransformModel>;

    open spec fn view(&self) -> Seq<TransformModel> {
        self.transforms@.map_values(|t: Transform| t@)
    }
}

/// The text of a transform, with its tag.
pub open spec fn transform_text(t: TransformModel) -> Seq<char> {
    match t {
        TransformModel::MapSpatial(i) => "!MapSpatial "@ + i + " => Spatial"@,
        TransformModel::MapTemporal(i) => "!MapTemporal "@ + i + " => Temporal"@,
        TransformModel::Tiling(old, new, factor) => "!Tiling "@ + old + " -> ("@ + old + ", "@ + new
            + ") by "@ + int_text(factor as int),
        TransformModel::Renaming(old, new) => "!Renaming "@ + old + " -> "@ + new,
        TransformModel::Reorder(a, b) => "!Reorder "@ + a + " <-> "@ + b,
    }
}

/// The text of a script: each transform on a line of its own, after ` - `.
pub open spec fn script_text(ts: Seq<TransformModel>) -> Seq<char>
    decreases ts.len(),
{
    if ts.len() == 0 {
        Seq::empty()
    } else {
        script_text(ts.drop_last()) + " - "@ + transform_text(ts.last()) + "\n"@
    }
}

/// A name at `pos`: letters, digits and underscores, with spaces or tabs
/// before and after it. The position in the result is after those that
/// follow.
pub open spec fn p_word(s: Seq<char>, pos: int) -> Option<(Seq<char>, int)> {
    let a = span(s, pos, CharClass::Space);
    let e = span(s, a, CharClass::Word);
    if 0 <= pos && a < e {
        Some((s.subrange(a, e), span(s, e, CharClass::Space)))
    } else {
        None
    }
}

/// The position after an optional tag at `pos`, with the spaces or tabs
/// around it.
pub open spec fn p_tag(s: Seq<char>, pos: int, tag: Seq<char>) -> int {
    let a = span(s, pos, CharClass::Space);
    if occurs_at(s, a, tag) {
        span(s, a + tag.len(), CharClass::Space)
    } else {
        pos
    }
}

/// A tiling at `pos`: `old -> (old, new) by factor`, after `!Tiling` or
/// without it. The name before the arrow and the first name in the
/// parentheses are the same.
pub open spec fn p_tiling(s: Seq<char>, pos: int) -> Option<(TransformModel, int)> {
    match p_word(s, p_tag(s, pos, "!Tiling"@)) {
        None => None,
        Some((old, e1)) => if occurs_at(s, e1, "->"@) {
            let a = span(s, e1 + "->"@.len(), CharClass::Space);
            if char_at(s, a, '(') {
                match p_word(s, a + 1) {
                    None => None,
                    Some((first, e2)) => if char_at(s, e2, ',') {
                        match p_word(s, e2 + 1) {
                            None => None,
                            Some((new, e3)) => {
                                let b = span(s, e3 + 1, CharClass::Space);
                                if char_at(s, e3, ')') && occurs_at(s, b, "by"@) {
                                    match parse_int(
                                        s,
                                        span(s, b + "by"@.len(), CharClass::Space),
                                    ) {
                                        None => None,
                                        Some((factor, e4)) => if first == old {
                                            Some((TransformModel::Tiling(old, new, factor), e4))
                                        } else {
                                            None
                                        },
                                    }
                                } else {
                                    None
                                }
                            },
                        }
                    } else {
                        None
                    },
                }
            } else {
                None
            }
        } else {
            None
        },
    }
}

/// Two names with an arrow between them at `pos`, after the tag or without
/// it.
pub open spec fn p_pair(s: Seq<char>, pos: int, tag: Seq<char>, arrow: Seq<char>) -> Option<
    ((Seq<char>, Seq<char>), int),
> {
    match p_word(s, p_tag(s, pos, tag)) {
        None => None,
        Some((a, e1)) => if occurs_at(s, e1, arrow) {
            match p_word(s, e1 + arrow.len()) {
                None => None,
                Some((b, e2)) => Some(((a, b), e2)),
            }
        } else {
            None
        },
    }
}

/// A mapping directive at `pos`: a name, `=>` and the kind, after the tag or
/// without it.
pub open spec fn p_map(s: Seq<char>, pos: int, tag: Seq<char>, kind: Seq<char>) -> Option<
    (Seq<char>, int),
> {
    match p_word(s, p_tag(s, pos, tag)) {
        None => None,
        Some((i, e1)) => {
            let a = span(s, e1 + "=>"@.len(), CharClass::Space);
            if occurs_at(s, e1, "=>"@) && occurs_at(s, a, kind) {
                Some((i, a + kind.len()))
            } else {
                None
            }
        },
    }
}

/// A transform at `pos`: a tiling, else a renaming, else a mapping
/// directive, else a reordering.
pub open spec fn p_transform(s: Seq<char>, pos: int) -> Option<(TransformModel, int)> {
    match p_tiling(s, pos) {
        Some(r) => Some(r),
        None => match p_pair(s, pos, "!Renaming"@, "->"@) {
            Some((n, e)) => Some((TransformModel::Renaming(n.0, n.1), e)),
            None => match p_map(s, pos, "!MapSpatial"@, "Spatial"@) {
                Some((i, e)) => Some((TransformModel::MapSpatial(i), e)),
                None => match p_map(s, pos, "!MapTemporal"@, "Temporal"@) {
                    Some((i, e)) => Some((TransformModel::MapTemporal(i), e)),
                    None => match p_pair(s, pos, "!Reorder"@, "<->"@) {
                        Some((n, e)) => Some((TransformModel::Reorder(n.0, n.1), e)),
                        None => None,
                    },
                },
            },
        },
    }
}

/// The position after a comment that starts at `pos`, blanks before it
/// included: `//`, the rest of the line, and the end of the line. None where
/// no comment starts there.
pub open spec fn p_comment(s: Seq<char>, pos: int) -> Option<int> {
    let a = after_blanks(s, pos);
    if occurs_at(s, a, "//"@) {
        let e = span(s, a + "//"@.len(), CharClass::NotEol);
        if char_at(s, e, '\n') {
            Some(e + 1)
        } else if char_at(s, e, '\r') && char_at(s, e + 1, '\n') {
            Some(e + 2)
        } else {
            Some(e)
        }
    } else {
        None
    }
}

/// The position after the blanks and comments that start at `pos`.
pub open spec fn p_filler(s: Seq<char>, pos: int) -> int
    decreases s.len() - pos,
{
    match p_comment(s, pos) {
        Some(e) => if 0 <= pos && advances(s, pos, e) {
            p_filler(s, e)
        } else {
            pos
        },
        None => after_blanks(s, pos),
    }
}

/// The position after a transform and the comment that may follow it on
/// its line.
pub open spec fn p_item_end(s: Seq<char>, pos: int) -> int {
    match p_comment(s, pos) {
        Some(e) => e,
        None => pos,
    }
}

/// A script at `pos`: items, each a `-` and a transform, with blanks and
/// comments between them. The script ends where no `-` follows. A `-` that
/// no transform follows is an error: the result is then the position after
/// the `-` and the blanks that follow it.
pub open spec fn p_script(s: Seq<char>, pos: int, acc: Seq<TransformModel>) -> Result<
    Seq<TransformModel>,
    int,
>
    decreases s.len() - pos,
{
    let a = p_filler(s, pos);
    if 0 <= pos && char_at(s, a, '-') {
        let b = after_blanks(s, a + 1);
        match p_transform(s, b) {
            None => Err(b),
            Some((t, e)) => {
                let next = p_item_end(s, e);
                if advances(s, pos, next) {
                    p_script(s, next, acc.push(t))
                } else {
                    Ok(acc.push(t))
                }
            },
        }
    } else {
        Ok(acc)
    }
}

fn read_word(s: &Vec<char>, pos: usize) -> (r: Option<(String, usize)>)
    requires
        pos <= s.len(),
    ensures
        match r {
            Some((n, e)) => p_word(s@, pos as int) == Some((n@, e as int)) && pos < e <= s.len(),
            None => p_word(s@, pos as int) is None,
        },
{
    let a = scan(s, pos, CharClass::Space);
    let e = scan(s, a, CharClass::Word);
    if a < e {
        Some((slice_to_string(s, a, e), scan(s, e, CharClass::Space)))
    } else {
        None
    }
}

fn read_tag(s: &Vec<char>, pos: usize, tag: &str) -> (r: usize)
    requires
        pos <= s.len(),
    ensures
        r == p_tag(s@, pos as int, tag@),
        pos <= r <= s.len(),
{
    let a = scan(s, pos, CharClass::Space);
    if starts_with_at(s, a, tag) {
        let n = vstd::string::StrSliceExecFns::unicode_len(tag);
        scan(s, a + n, CharClass::Space)
    } else {
        pos
    }
}

fn read_tiling(s: &Vec<char>, pos: usize) -> (r: Option<(Transform, usize)>)
    requires
        pos <= s.len(),
    ensures
        match r {
            Some((t, e)) => p_tiling(s@, pos as int) == Some((t@, e as int)) && pos < e
                <= s.len(),
            None => p_tiling(s@, pos as int) is None,
        },
{
    proof {
        reveal_strlit("->");
        reveal_strlit("by");
    }
    let start = read_tag(s, pos, "!Tiling");
    let (old_var, e1) = match read_word(s, start) {
        Some(r) => r,
        None => {
            return None;
        },
    };
    if !starts_with_at(s, e1, "->") {
        return None;
    }
    let a = scan(s, e1 + 2, CharClass::Space);
    if !is_char_at(s, a, '(') {
        return None;
    }
    let (first, e2) = match read_word(s, a + 1) {
        Some(r) => r,
        None => {
            return None;
        },
    };
    if !is_char_at(s, e2, ',') {
        return None;
    }
    let (new_var, e3) = match read_word(s, e2 + 1) {
        Some(r) => r,
        None => {
            return None;
        },
    };
    if !is_char_at(s, e3, ')') {
        return None;
    }
    let b = scan(s, e3 + 1, CharClass::Space);
    if !starts_with_at(s, b, "by") {
        return None;
    }
    let c = scan(s, b + 2, CharClass::Space);
    let (factor, e4) = match read_int(s, c) {
        Some(r) => r,
        None => {
            return None;
        },
    };
    if first == old_var {
        Some((Transform::Tiling((old_var, new_var, factor)), e4))
    } else {
        None
    }
}

fn read_pair(s: &Vec<char>, pos: usize, tag: &str, arrow: &str) -> (r: Option<
    ((String, String), usize),
>)
    requires
        pos <= s.len(),
    ensures
        match r {
            Some((n, e)) => p_pair(s@, pos as int, tag@, arrow@) == Some(
                ((n.0@, n.1@), e as int),
            ) && pos < e <= s.len(),
            None => p_pair(s@, pos as int, tag@, arrow@) is None,
        },
{
    let start = read_tag(s, pos, tag);
    let (a, e1) = match read_word(s, start) {
        Some(r) => r,
        None => {
            return None;
        },
    };
    if !starts_with_at(s, e1, arrow) {
        return None;
    }
    let n = vstd::string::StrSliceExecFns::unicode_len(arrow);
    match read_word(s, e1 + n) {
        Some((b, e2)) => Some(((a, b), e2)),
        None => None,
    }
}

fn read_map(s: &Vec<char>, pos: usize, tag: &str, kind: &str) -> (r: Option<(String, usize)>)
    requires
        pos <= s.len(),
    ensures
        match r {
            Some((i, e)) => p_map(s@, pos as int, tag@, kind@) == Some((i@, e as int)) && pos < e
                <= s.len(),
            None => p_map(s@, pos as int, tag@, kind@) is None,
        },
{
    proof {
        reveal_strlit("=>");
    }
    let start = read_tag(s, pos, tag);
    let (i, e1) = match read_word(s, start) {
        Some(r) => r,
        None => {
            return None;
        },
    };
    if !starts_with_at(s, e1, "=>") {
        return None;
    }
    let a = scan(s, e1 + 2, CharClass::Space);
    if !starts_with_at(s, a, kind) {
        return None;
    }
    let n = vstd::string::StrSliceExecFns::unicode_len(kind);
    Some((i, a + n))
}

/// Reads a transform that starts at `pos`.
pub(crate) fn read_transform(s: &Vec<char>, pos: usize) -> (r: Option<(Transform, usize)>)
    requires
        pos <= s.len(),
    ensures
        match r {
            Some((t, e)) => p_transform(s@, pos as int) == Some((t@, e as int)) && pos < e
                <= s.len(),
            None => p_transform(s@, pos as int) is None,
        },
{
    if let Some(r) = read_tiling(s, pos) {
        return Some(r);
    }
    if let Some((n, e)) = read_pair(s, pos, "!Renaming", "->") {
        return Some((Transform::Renaming(n), e));
    }
    if let Some((i, e)) = read_map(s, pos, "!MapSpatial", "Spatial") {
        return Some((Transform::MapSpatial(i), e));
    }
    if let Some((i, e)) = read_map(s, pos, "!MapTemporal", "Temporal") {
        return Some((Transform::MapTemporal(i), e));
    }
    match read_pair(s, pos, "!Reorder", "<->") {
        Some((n, e)) => Some((Transform::Reorder(n), e)),
        None => None,
    }
}

fn read_comment(s: &Vec<char>, pos: usize) -> (r: Option<usize>)
    requires
        pos <= s.len(),
    ensures
        match r {
            Some(e) => p_comment(s@, pos as int) == Some(e as int) && pos < e <= s.len(),
            None => p_comment(s@, pos as int) is None,
        },
{
    proof {
        reveal_strlit("//");
    }
    let a = scan(s, pos, CharClass::Blank);
    if !starts_with_at(s, a, "//") {
        return None;
    }
    let e = scan(s, a + 2, CharClass::NotEol);
    if is_char_at(s, e, '\n') {
        Some(e + 1)
    } else if is_char_at(s, e, '\r') && is_char_at(s, e + 1, '\n') {
        Some(e + 2)
    } else {
        Some(e)
    }
}

fn read_filler(s: &Vec<char>, pos: usize) -> (r: usize)
    requires
        pos <= s.len(),
    ensures
        r == p_filler(s@, pos as int),
        pos <= r <= s.len(),
{
    let mut at: usize = pos;
    loop
        invariant
            pos <= at <= s.len(),
            p_filler(s@, pos as int) == p_filler(s@, at as int),
        decreases s.len() - at,
    {
        match read_comment(s, at) {
            Some(e) => {
                at = e;
            },
            None => {
                return scan(s, at, CharClass::Blank);
            },
        }
    }
}

impl Transform {
    /// Reads a transform at the start of `input`; what follows it is left
    /// unread.
    pub fn from_str(input: &str) -> (r: Result<Transform, ParseError>)
        ensures
            match r {
                Ok(t) => p_transform(input@, 0) matches Some(found) && found.0 == t@,
                Err(err) => p_transform(input@, 0) is None && err == (ParseError {
                    kind: ParseErrorKind::Transform,
                    position: 0,
                }),
            },
    {
        let s = to_chars(input);
        match read_transform(&s, 0) {
            Some((t, _)) => Ok(t),
            None => Err(ParseError { kind: ParseErrorKind::Transform, position: 0 }),
        }
    }

    /// Appends the text of the transform.
    pub fn write(&self, out: &mut String)
        ensures
            final(out)@ == old(out)@ + transform_text(self@),
    {
        match self {
            Transform::MapSpatial(id) => {
                out.append("!MapSpatial ");
                push_text(out, id);
                out.append(" => Spatial");
            },
            Transform::MapTemporal(id) => {
                out.append("!MapTemporal ");
                push_text(out, id);
                out.append(" => Temporal");
            },
            Transform::Tiling(t) => {
                out.append("!Tiling ");
                push_text(out, &t.0);
                out.append(" -> (");
                push_text(out, &t.0);
                out.append(", ");
                push_text(out, &t.1);
                out.append(") by ");
                push_int(out, t.2);
            },
            Transform::Renaming(t) => {
                out.append("!Renaming ");
                push_text(out, &t.0);
                out.append(" -> ");
                push_text(out, &t.1);
            },
            Transform::Reorder(t) => {
                out.append("!Reorder ");
                push_text(out, &t.0);
                out.append(" <-> ");
                push_text(out, &t.1);
            },
        }
        assert(out@ =~= old(out)@ + transform_text(self@));
    }

    /// The text of the transform.
    pub fn to_string(&self) -> (r: String)
        ensures
            r@ == transform_text(self@),
    {
        let mut out = String::new();
        self.write(&mut out);
        assert(out@ =~= transform_text(self@));
        out
    }
}

impl Transforms {
    /// Reads a script. The text after the last item is left unread. Where a
    /// `-` is followed by no transform, the error gives the position at
    /// which the transform was expected.
    pub fn from_str(input: &str) -> (r: Result<Transforms, ParseError>)
        ensures
            match r {
                Ok(ts) => p_script(input@, 0, Seq::empty()) == Ok::<Seq<TransformModel>, int>(ts@),
                Err(err) => err.kind == ParseErrorKind::Transform && p_script(
                    input@,
                    0,
                    Seq::empty(),
                ) == Err::<Seq<TransformModel>, int>(err.position as int),
            },
    {
        let s = to_chars(input);
        let mut transforms: Vec<Transform> = Vec::new();
        let mut at: usize = 0;
        let ghost mut acc = Seq::<TransformModel>::empty();
        loop
            invariant
                s@ == input@,
                at <= s.len(),
                acc == transforms@.map_values(|t: Transform| t@),
                p_script(s@, 0, Seq::empty()) == p_script(s@, at as int, acc),
            decreases s.len() - at,
        {
            let a = read_filler(&s, at);
            if !is_char_at(&s, a, '-') {
                return Ok(Transforms { transforms: transforms });
            }
            let b = scan(&s, a + 1, CharClass::Blank);
            let (t, e) = match read_transform(&s, b) {
                Some(r) => r,
                None => {
                    return Err(ParseError { kind: ParseErrorKind::Transform, position: b });
                },
            };
            let next = match read_comment(&s, e) {
                Some(n) => n,
                None => e,
            };
            proof {
                acc = acc.push(t@);
            }
            let ghost before = transforms@;
            transforms.push(t);
            assert(transforms@.map_values(|t: Transform| t@) =~= before.map_values(
                |t: Transform| t@,
            ).push(t@));
            at = next;
        }
    }

    /// Appends the text of the script.
    pub fn write(&self, out: &mut String)
        ensures
            final(out)@ == old(out)@ + script_text(self@),
    {
        let mut i: usize = 0;
        assert(self@.take(0) =~= Seq::<TransformModel>::empty());
        assert(out@ =~= old(out)@ + script_text(self@.take(0)));
        while i < self.transforms.len()
            invariant
                i <= self.transforms.len(),
                out@ == old(out)@ + script_text(self@.take(i as int)),
            decreases self.transforms.len() - i,
        {
            out.append(" - ");
            self.transforms[i].write(out);
            out.append("\n");
            proof {
                let next = self@.take(i + 1);
                assert(next.drop_last() =~= self@.take(i as int));
                assert(next.last() == self.transforms@[i as int]@);
                assert(out@ =~= old(out)@ + script_text(next));
            }
            i = i + 1;
        }
        assert(self@.take(self.transforms.len() as int) =~= self@);
    }

    /// The text of the script.
    pub fn to_string(&self) -> (r: String)
        ensures
            r@ == script_text(self@),
    {
        let mut out = String::new();
        self.write(&mut out);
        assert(out@ =~= script_text(self@));
        out
    }
}

} // verus!

//! How the iterators of a nest are mapped onto the hardware.

use crate::assoc::{first_key, lemma_first_key, lemma_first_key_is};
use crate::representations::affine_expr::push_text;
use crate::representations::affine_parse::{advances, after_blanks};
use crate::representations::loops::LoopNest;
use crate::text::{
    char_at,
    is_char_at,
    occurs_at,
    scan,
    slice_to_string,
    span,
    starts_with_at,
    to_chars,
    CharClass,
    ParseError,
    ParseErrorKind,
};
use vstd::prelude::*;
use vstd::string::StringExecFns;

verus! {

/// The kind of hardware dimension that an iterator is mapped to.
#[derive(Debug, PartialEq)]
pub enum MappingType {
    /// A spatial dimension, with its tag.
    Spatial(String),
    Temporal,
    InterTile,
    IntraTile,
}

/// A mapping of the iterators of a nest: an association list from iterator
/// names, in which the first entry for a name is the one that counts.
#[derive(Debug, PartialEq)]
pub struct Mapping {
    pub loop_nest: Option<LoopNest>,
    pub types: Vec<(String, MappingType)>,
}

pub enum MappingTypeModel {
    Spatial(Seq<char>),
    Temporal,
    InterTile,
    IntraTile,
}

impl View for MappingType {
    type V = MappingTypeModel;

    open spec fn view(&self) -> MappingTypeModel {
        match self {
            MappingType::Spatial(s) => MappingTypeModel::Spatial(s@),
            MappingType::Temporal => MappingTypeModel::Temporal,
            MappingType::InterTile => MappingTypeModel::InterTile,
            MappingType::IntraTile => MappingTypeModel::IntraTile,
        }
    }
}

impl Clone for MappingType {
    fn clone(&self) -> (r: Self)
        ensures
            r == *self,
    {
        match self {
            MappingType::Spatial(s) => MappingType::Spatial(s.clone()),
            MappingType::Temporal => MappingType::Temporal,
            MappingType::InterTile => MappingType::InterTile,
            MappingType::IntraTile => MappingType::IntraTile,
        }
    }
}

/// The values of the entries of an association list, in order.
pub open spec fn entries_model(v: Seq<(String, MappingType)>) -> Seq<(Seq<char>, MappingTypeModel)> {
    v.map_values(|e: (String, MappingType)| (e.0@, e.1@))
}

/// What an association list maps `key` to: the value of its first entry.
pub open spec fn lookup(m: Seq<(Seq<char>, MappingTypeModel)>, key: Seq<char>) -> Option<
    MappingTypeModel,
> {
    let i = first_key(m, key);
    if i < m.len() {
        Some(m[i].1)
    } else {
        None
    }
}

/// The list after `key` is bound to `value`: the first entry for the key is
/// replaced where there is one, and a new entry is added at the end where
/// there is none.
pub open spec fn bind(
    m: Seq<(Seq<char>, MappingTypeModel)>,
    key: Seq<char>,
    value: MappingTypeModel,
) -> Seq<(Seq<char>, MappingTypeModel)> {
    let i = first_key(m, key);
    if i < m.len() {
        m.update(i, (key, value))
    } else {
        m.push((key, value))
    }
}

/// Binding a key makes the list map it to the value and leaves every other
/// key as it was.
pub proof fn lemma_bind_lookup(
    m: Seq<(Seq<char>, MappingTypeModel)>,
    key: Seq<char>,
    value: MappingTypeModel,
    other: Seq<char>,
)
    ensures
        lookup(bind(m, key, value), key) == Some(value),
        other != key ==> lookup(bind(m, key, value), other) == lookup(m, other),
{
    let i = first_key(m, key);
    let b = bind(m, key, value);
    lemma_first_key(m, key);
    lemma_first_key_is(b, key, i);
    if other != key {
        let k = first_key(m, other);
        lemma_first_key(m, other);
        if k < m.len() {
            lemma_first_key_is(b, other, k);
        } else {
            lemma_first_key_is(b, other, b.len() as int);
        }
    }
}

/// The position of the first entry for `key`.
pub fn find_entry(m: &Vec<(String, MappingType)>, key: &String) -> (r: Option<usize>)
    ensures
        match r {
            Some(i) => i < m.len() && i == first_key(entries_model(m@), key@),
            None => first_key(entries_model(m@), key@) == m.len(),
        },
{
    let mut i: usize = 0;
    while i < m.len()
        invariant
            i <= m.len(),
            forall|j: int| 0 <= j < i ==> (#[trigger] entries_model(m@)[j]).0 != key@,
        decreases m.len() - i,
    {
        if m[i].0 == *key {
            proof {
                lemma_first_key_is(entries_model(m@), key@, i as int);
            }
            return Some(i);
        }
        i = i + 1;
    }
    proof {
        lemma_first_key_is(entries_model(m@), key@, m.len() as int);
    }
    None
}

/// A copy of an association list.
pub fn clone_entries(m: &Vec<(String, MappingType)>) -> (r: Vec<(String, MappingType)>)
    ensures
        r@ == m@,
{
    let mut r: Vec<(String, MappingType)> = Vec::new();
    let mut i: usize = 0;
    while i < m.len()
        invariant
            i <= m.len(),
            r@ == m@.take(i as int),
        decreases m.len() - i,
    {
        r.push((m[i].0.clone(), m[i].1.clone()));
        assert(m@.take(i + 1) =~= m@.take(i as int).push(m@[i as int]));
        i = i + 1;
    }
    assert(m@.take(m.len() as int) =~= m@);
    r
}

/// A copy of the list in which `key` is bound to `value`.
pub fn with_entry(m: &Vec<(String, MappingType)>, key: &String, value: MappingType) -> (r: Vec<
    (String, MappingType),
>)
    ensures
        entries_model(r@) == bind(entries_model(m@), key@, value@),
{
    let mut r = clone_entries(m);
    match find_entry(m, key) {
        Some(i) => {
            r.set(i, (key.clone(), value));
            assert(entries_model(r@) =~= bind(entries_model(m@), key@, value@));
        },
        None => {
            r.push((key.clone(), value));
            assert(entries_model(r@) =~= bind(entries_model(m@), key@, value@));
        },
    }
    r
}

/// The text of a kind of mapping: a spatial one is its tag after `$`.
pub open spec fn mapping_type_text(t: MappingTypeModel) -> Seq<char> {
    match t {
        MappingTypeModel::Spatial(tag) => "$"@ + tag,
        MappingTypeModel::Temporal => "Temporal"@,
        MappingTypeModel::InterTile => "InterTile"@,
        MappingTypeModel::IntraTile => "IntraTile"@,
    }
}

/// The text of the entries of a mapping, each on a line of its own.
pub open spec fn entries_text(m: Seq<(Seq<char>, MappingTypeModel)>) -> Seq<char>
    decreases m.len(),
{
    if m.len() == 0 {
        Seq::empty()
    } else {
        entries_text(m.drop_last()) + "\t- "@ + m.last().0 + " -> "@ + mapping_type_text(
            m.last().1,
        ) + "\n"@
    }
}

/// The text of a mapping.
pub open spec fn mapping_text(m: Seq<(Seq<char>, MappingTypeModel)>) -> Seq<char> {
    "Mapping:\n"@ + entries_text(m)
}

/// A kind of mapping at `pos`: `Temporal`, `TODO` or `?` for a temporal
/// one, `InterTile`, `IntraTile`, or `$` and letters for a spatial one.
pub open spec fn p_mapping_type(s: Seq<char>, pos: int) -> Option<(MappingTypeModel, int)> {
    if occurs_at(s, pos, "Temporal"@) {
        Some((MappingTypeModel::Temporal, pos + "Temporal"@.len()))
    } else if occurs_at(s, pos, "TODO"@) {
        Some((MappingTypeModel::Temporal, pos + "TODO"@.len()))
    } else if occurs_at(s, pos, "?"@) {
        Some((MappingTypeModel::Temporal, pos + "?"@.len()))
    } else if occurs_at(s, pos, "InterTile"@) {
        Some((MappingTypeModel::InterTile, pos + "InterTile"@.len()))
    } else if occurs_at(s, pos, "IntraTile"@) {
        Some((MappingTypeModel::IntraTile, pos + "IntraTile"@.len()))
    } else if char_at(s, pos, '$') && pos + 1 < span(s, pos + 1, CharClass::Alpha) {
        Some(
            (
                MappingTypeModel::Spatial(s.subrange(pos + 1, span(s, pos + 1, CharClass::Alpha))),
                span(s, pos + 1, CharClass::Alpha),
            ),
        )
    } else {
        None
    }
}

/// What stands at a position where an entry may stand.
pub enum EntryModel {
    /// No entry starts here.
    Absent,
    /// An entry that is cut short: the position at which a kind of mapping
    /// was expected.
    Broken(int),
    /// An entry, with the position after it.
    Present(Seq<char>, MappingTypeModel, int),
}

/// An entry at `pos`: `-`, a name of letters, `->` and a kind of mapping,
/// with spaces or tabs between them.
pub open spec fn p_mapping_entry(s: Seq<char>, pos: int) -> EntryModel {
    let a = span(s, pos + 1, CharClass::Space);
    let n = span(s, a, CharClass::Alpha);
    let b = span(s, n, CharClass::Space);
    let c = span(s, b + "->"@.len(), CharClass::Space);
    if char_at(s, pos, '-') && a < n && occurs_at(s, b, "->"@) {
        match p_mapping_type(s, c) {
            Some((t, e)) => EntryModel::Present(s.subrange(a, n), t, e),
            None => EntryModel::Broken(c),
        }
    } else {
        EntryModel::Absent
    }
}

/// The entries from `pos` on, each followed by at least one blank, bound
/// one after the other. The result is the mapping, or the position at which
/// an entry is cut short or is not followed by a blank.
pub open spec fn p_mapping_entries(
    s: Seq<char>,
    pos: int,
    acc: Seq<(Seq<char>, MappingTypeModel)>,
) -> Result<Seq<(Seq<char>, MappingTypeModel)>, int>
    decreases s.len() - pos,
{
    match p_mapping_entry(s, pos) {
        EntryModel::Absent => Ok(acc),
        EntryModel::Broken(at) => Err(at),
        EntryModel::Present(name, t, e) => {
            let next = span(s, e, CharClass::Blank);
            if 0 <= pos && e < next && advances(s, pos, next) {
                p_mapping_entries(s, next, bind(acc, name, t))
            } else {
                Err(e)
            }
        },
    }
}

/// A mapping: `Mapping`, `:`, and entries, each followed by at least one
/// blank. The result is the mapping, or the position at which the text
/// stops being one.
pub open spec fn p_mapping(s: Seq<char>) -> Result<Seq<(Seq<char>, MappingTypeModel)>, int> {
    let a = after_blanks(s, 0);
    let b = span(s, a + "Mapping"@.len(), CharClass::Space);
    if occurs_at(s, a, "Mapping"@) && char_at(s, b, ':') {
        p_mapping_entries(s, after_blanks(s, b + 1), Seq::empty())
    } else {
        Err(a)
    }
}

fn read_mapping_type(s: &Vec<char>, pos: usize) -> (r: Option<(MappingType, usize)>)
    requires
        pos <= s.len(),
    ensures
        match r {
            Some((t, e)) => p_mapping_type(s@, pos as int) == Some((t@, e as int)) && pos < e
                <= s.len(),
            None => p_mapping_type(s@, pos as int) is None,
        },
{
    proof {
        reveal_strlit("Temporal");
        reveal_strlit("TODO");
        reveal_strlit("?");
        reveal_strlit("InterTile");
        reveal_strlit("IntraTile");
    }
    if starts_with_at(s, pos, "Temporal") {
        Some((MappingType::Temporal, pos + 8))
    } else if starts_with_at(s, pos, "TODO") {
        Some((MappingType::Temporal, pos + 4))
    } else if starts_with_at(s, pos, "?") {
        Some((MappingType::Temporal, pos + 1))
    } else if starts_with_at(s, pos, "InterTile") {
        Some((MappingType::InterTile, pos + 9))
    } else if starts_with_at(s, pos, "IntraTile") {
        Some((MappingType::IntraTile, pos + 9))
    } else if is_char_at(s, pos, '$') {
        let e = scan(s, pos + 1, CharClass::Alpha);
        if e > pos + 1 {
            Some((MappingType::Spatial(slice_to_string(s, pos + 1, e)), e))
        } else {
            None
        }
    } else {
        None
    }
}

/// What was read at a position where an entry may stand.
enum Entry {
    Absent,
    Broken(usize),
    Present(String, MappingType, usize),
}

fn read_mapping_entry(s: &Vec<char>, pos: usize) -> (r: Entry)
    requires
        pos <= s.len(),
    ensures
        match r {
            Entry::Absent => p_mapping_entry(s@, pos as int) is Absent,
            Entry::Broken(at) => p_mapping_entry(s@, pos as int) == EntryModel::Broken(
                at as int,
            ),
            Entry::Present(name, t, e) => p_mapping_entry(s@, pos as int) == EntryModel::Present(
                name@,
                t@,
                e as int,
            ) && pos < e <= s.len(),
        },
{
    proof {
        reveal_strlit("->");
    }
    if !is_char_at(s, pos, '-') {
        return Entry::Absent;
    }
    let a = scan(s, pos + 1, CharClass::Space);
    let n = scan(s, a, CharClass::Alpha);
    if n == a {
        return Entry::Absent;
    }
    let b = scan(s, n, CharClass::Space);
    if !starts_with_at(s, b, "->") {
        return Entry::Absent;
    }
    let c = scan(s, b + 2, CharClass::Space);
    match read_mapping_type(s, c) {
        Some((t, e)) => Entry::Present(slice_to_string(s, a, n), t, e),
        None => Entry::Broken(c),
    }
}

impl MappingType {
    /// Appends the text of the kind of mapping.
    pub fn write(&self, out: &mut String)
        ensures
            final(out)@ == old(out)@ + mapping_type_text(self@),
    {
        match self {
            MappingType::Spatial(tag) => {
                out.append("$");
                push_text(out, tag);
                assert(out@ =~= old(out)@ + mapping_type_text(self@));
            },
            MappingType::Temporal => out.append("Temporal"),
            MappingType::InterTile => out.append("InterTile"),
            MappingType::IntraTile => out.append("IntraTile"),
        }
    }

    /// The text of the kind of mapping.
    pub fn to_string(&self) -> (r: String)
        ensures
            r@ == mapping_type_text(self@),
    {
        let mut out = String::new();
        self.write(&mut out);
        assert(out@ =~= mapping_type_text(self@));
        out
    }
}

impl Mapping {
    /// Reads a mapping. Each entry is followed by at least one blank; the
    /// text after the last entry is left unread. An entry for a name that
    /// has one already takes its place. Where the text is no mapping, the
    /// error gives the position at which it stops being one.
    pub fn from_str(input: &str) -> (r: Result<Mapping, ParseError>)
        ensures
            match r {
                Ok(m) => m.loop_nest is None && p_mapping(input@) == Ok::<
                    Seq<(Seq<char>, MappingTypeModel)>,
                    int,
                >(entries_model(m.types@)),
                Err(e) => e.kind == ParseErrorKind::Mapping && p_mapping(input@) == Err::<
                    Seq<(Seq<char>, MappingTypeModel)>,
                    int,
                >(e.position as int),
            },
    {
        proof {
            reveal_strlit("Mapping");
        }
        let s = to_chars(input);
        let a = scan(&s, 0, CharClass::Blank);
        if !starts_with_at(&s, a, "Mapping") {
            return Err(ParseError { kind: ParseErrorKind::Mapping, position: a });
        }
        let b = scan(&s, a + 7, CharClass::Space);
        if !is_char_at(&s, b, ':') {
            return Err(ParseError { kind: ParseErrorKind::Mapping, position: a });
        }
        let mut types: Vec<(String, MappingType)> = Vec::new();
        let mut at: usize = scan(&s, b + 1, CharClass::Blank);
        assert(entries_model(types@) =~= Seq::<(Seq<char>, MappingTypeModel)>::empty());
        loop
            invariant
                s@ == input@,
                at <= s.len(),
                p_mapping(s@) == p_mapping_entries(s@, at as int, entries_model(types@)),
            decreases s.len() - at,
        {
            match read_mapping_entry(&s, at) {
                Entry::Absent => {
                    return Ok(Mapping { loop_nest: None, types: types });
                },
                Entry::Broken(c) => {
                    return Err(ParseError { kind: ParseErrorKind::Mapping, position: c });
                },
                Entry::Present(name, t, e) => {
                    let next = scan(&s, e, CharClass::Blank);
                    if next == e {
                        return Err(ParseError { kind: ParseErrorKind::Mapping, position: e });
                    }
                    types = with_entry(&types, &name, t);
                    at = next;
                },
            }
        }
    }

    /// Appends the text of the mapping.
    pub fn write(&self, out: &mut String)
        ensures
            final(out)@ == old(out)@ + mapping_text(entries_model(self.types@)),
    {
        out.append("Mapping:\n");
        let ghost head = out@;
        let ghost m = entries_model(self.types@);
        let mut i: usize = 0;
        assert(m.take(0) =~= Seq::<(Seq<char>, MappingTypeModel)>::empty());
        assert(out@ =~= head + entries_text(m.take(0)));
        while i < self.types.len()
            invariant
                i <= self.types.len(),
                m == entries_model(self.types@),
                out@ == head + entries_text(m.take(i as int)),
            decreases self.types.len() - i,
        {
            out.append("\t- ");
            push_text(out, &self.types[i].0);
            out.append(" -> ");
            self.types[i].1.write(out);
            out.append("\n");
            proof {
                let next = m.take(i + 1);
                assert(next.drop_last() =~= m.take(i as int));
                assert(next.last() == m[i as int]);
                assert(out@ =~= head + entries_text(next));
            }
            i = i + 1;
        }
        assert(m.take(self.types.len() as int) =~= m);
        assert(out@ =~= old(out)@ + mapping_text(m));
    }

    /// The text of the mapping.
    pub fn to_string(&self) -> (r: String)
        ensures
            r@ == mapping_text(entries_model(self.types@)),
    {
        let mut out = String::new();
        self.write(&mut out);
        assert(out@ =~= mapping_text(entries_model(self.types@)));
        out
    }
}

} // verus!

//! The lexical layer shared by every text syntax of the crate: character
//! classes, runs of characters, decimal numbers, and the conversions between
//! strings and character vectors.

use vstd::prelude::*;
use vstd::string::*;

verus! {

/// `String::push` appends exactly the given character to the string.
pub assume_specification[ String::push ](s: &mut String, c: char)
    ensures
        final(s)@ == old(s)@.push(c),
;

/// What `char::is_alphanumeric` answers for a character: membership in the
/// Unicode classes Alphabetic, Nd, Nl or No.
pub uninterp spec fn unicode_alphanumeric(c: char) -> bool;

/// `char::is_alphanumeric`: the answer depends on the character alone.
#[verifier::external_body]
pub(crate) fn char_is_alphanumeric(c: char) -> (b: bool)
    ensures
        b == unicode_alphanumeric(c),
{
    c.is_alphanumeric()
}

/// The syntax whose text could not be read.
#[derive(Debug, Clone, Copy, PartialEq, Eq, Structural)]
pub enum ParseErrorKind {
    Affine,
    Instruction,
    LoopIter,
    Transform,
    Mapping,
}

/// Malformed text: the syntax that was expected, and the position, counted
/// in characters, at which the construct that could not be read begins.
#[derive(Debug, Clone, Copy, PartialEq, Eq, Structural)]
pub struct ParseError {
    pub kind: ParseErrorKind,
    pub position: usize,
}

/// The character classes from which the grammars build their tokens.
#[derive(Clone, Copy, Debug, PartialEq, Eq)]
pub enum CharClass {
    /// `0` to `9`.
    Digit,
    /// ASCII letters.
    Alpha,
    /// ASCII letters and digits.
    Alnum,
    /// Space and tab.
    Space,
    /// Space, tab, carriage return and line feed.
    Blank,
    /// Unicode letters and digits, and the underscore.
    Word,
    /// Everything but carriage return and line feed.
    NotEol,
}

pub open spec fn is_digit(c: char) -> bool {
    '0' <= c && c <= '9'
}

pub open spec fn is_alpha(c: char) -> bool {
    ('a' <= c && c <= 'z') || ('A' <= c && c <= 'Z')
}

pub open spec fn is_alnum(c: char) -> bool {
    is_alpha(c) || is_digit(c)
}

pub open spec fn is_space(c: char) -> bool {
    c == ' ' || c == '\t'
}

pub open spec fn is_blank(c: char) -> bool {
    c == ' ' || c == '\t' || c == '\n' || c == '\r'
}

pub open spec fn in_class(k: CharClass, c: char) -> bool {
    match k {
        CharClass::Digit => is_digit(c),
        CharClass::Alpha => is_alpha(c),
        CharClass::Alnum => is_alnum(c),
        CharClass::Space => is_space(c),
        CharClass::Blank => is_blank(c),
        CharClass::Word => unicode_alphanumeric(c) || c == '_',
        CharClass::NotEol => c != '\n' && c != '\r',
    }
}

pub(crate) fn class_has(k: CharClass, c: char) -> (b: bool)
    ensures
        b == in_class(k, c),
{
    match k {
        CharClass::Digit => '0' <= c && c <= '9',
        CharClass::Alpha => ('a' <= c && c <= 'z') || ('A' <= c && c <= 'Z'),
        CharClass::Alnum => ('a' <= c && c <= 'z') || ('A' <= c && c <= 'Z') || ('0' <= c && c
            <= '9'),
        CharClass::Space => c == ' ' || c == '\t',
        CharClass::Blank => c == ' ' || c == '\t' || c == '\n' || c == '\r',
        CharClass::Word => c == '_' || char_is_alphanumeric(c),
        CharClass::NotEol => c != '\n' && c != '\r',
    }
}

/// The length of the longest run of characters of class `k` that starts at
/// `pos`.
pub open spec fn run(s: Seq<char>, pos: int, k: CharClass) -> nat
    decreases s.len() - pos,
{
    if 0 <= pos < s.len() && in_class(k, s[pos]) {
        1 + run(s, pos + 1, k)
    } else {
        0
    }
}

/// The end of the longest run of characters of class `k` that starts at `pos`.
pub open spec fn span(s: Seq<char>, pos: int, k: CharClass) -> int {
    pos + run(s, pos, k)
}

pub proof fn lemma_span_bounds(s: Seq<char>, pos: int, k: CharClass)
    requires
        0 <= pos <= s.len(),
    ensures
        pos <= span(s, pos, k) <= s.len(),
        forall|i: int| pos <= i < span(s, pos, k) ==> in_class(k, #[trigger] s[i]),
        span(s, pos, k) < s.len() ==> !in_class(k, s[span(s, pos, k)]),
    decreases s.len() - pos,
{
    if pos < s.len() && in_class(k, s[pos]) {
        lemma_span_bounds(s, pos + 1, k);
    }
}

/// A run is determined by its members and by the character that ends it.
pub proof fn lemma_span_is(s: Seq<char>, pos: int, end: int, k: CharClass)
    requires
        0 <= pos <= end <= s.len(),
        forall|i: int| pos <= i < end ==> in_class(k, #[trigger] s[i]),
        end < s.len() ==> !in_class(k, s[end]),
    ensures
        span(s, pos, k) == end,
    decreases end - pos,
{
    if pos < end {
        lemma_span_is(s, pos + 1, end, k);
    }
}

pub(crate) fn scan(s: &Vec<char>, pos: usize, k: CharClass) -> (end: usize)
    requires
        pos <= s.len(),
    ensures
        end == span(s@, pos as int, k),
        pos <= end <= s.len(),
{
    let mut i: usize = pos;
    while i < s.len() && class_has(k, s[i])
        invariant
            pos <= i <= s.len(),
            span(s@, pos as int, k) == span(s@, i as int, k),
        decreases s.len() - i,
    {
        i = i + 1;
    }
    proof {
        lemma_span_bounds(s@, pos as int, k);
    }
    i
}

/// Whether `t` stands in `s` at `pos`.
pub open spec fn occurs_at(s: Seq<char>, pos: int, t: Seq<char>) -> bool {
    &&& 0 <= pos
    &&& pos + t.len() <= s.len()
    &&& forall|i: int| 0 <= i < t.len() ==> s[pos + i] == #[trigger] t[i]
}

pub(crate) fn starts_with_at(s: &Vec<char>, pos: usize, t: &str) -> (b: bool)
    requires
        pos <= s.len(),
    ensures
        b == occurs_at(s@, pos as int, t@),
{
    let n: usize = t.unicode_len();
    if n > s.len() - pos {
        return false;
    }
    let mut i: usize = 0;
    while i < n
        invariant
            n == t@.len(),
            pos + n <= s.len(),
            i <= n,
            forall|j: int| 0 <= j < i ==> s@[pos + j] == #[trigger] t@[j],
        decreases n - i,
    {
        if s[pos + i] != t.get_char(i) {
            return false;
        }
        i = i + 1;
    }
    true
}

/// Whether the character at `pos` is `c`.
pub open spec fn char_at(s: Seq<char>, pos: int, c: char) -> bool {
    0 <= pos < s.len() && s[pos] == c
}

pub(crate) fn is_char_at(s: &Vec<char>, pos: usize, c: char) -> (b: bool)
    ensures
        b == char_at(s@, pos as int, c),
{
    pos < s.len() && s[pos] == c
}

pub fn to_chars(s: &str) -> (v: Vec<char>)
    ensures
        v@ == s@,
{
    let mut v: Vec<char> = Vec::new();
    for c in it: s.chars()
        invariant
            it.seq() == s@,
            v@ == it.seq().take(it.index()),
    {
        v.push(c);
    }
    assert(v@ =~= s@);
    v
}

pub(crate) fn slice_to_string(s: &Vec<char>, from: usize, to: usize) -> (r: String)
    requires
        from <= to <= s.len(),
    ensures
        r@ == s@.subrange(from as int, to as int),
{
    let mut r = String::new();
    let mut i: usize = from;
    while i < to
        invariant
            from <= i <= to <= s.len(),
            r@ == s@.subrange(from as int, i as int),
        decreases to - i,
    {
        r.push(s[i]);
        assert(s@.subrange(from as int, i + 1) =~= s@.subrange(from as int, i as int).push(
            s@[i as int],
        ));
        i = i + 1;
    }
    r
}

/// The value of a decimal digit.
pub open spec fn digit_value(c: char) -> int {
    c as u32 as int - 48
}

/// The decimal digit of a value below ten.
pub open spec fn digit_char(d: int) -> char {
    ((d + 48) as u8) as char
}

/// The number that a string of decimal digits denotes.
pub open spec fn digits_value(s: Seq<char>) -> int
    decreases s.len(),
{
    if s.len() == 0 {
        0
    } else {
        digits_value(s.drop_last()) * 10 + digit_value(s.last())
    }
}

/// The decimal digits of a natural number, without leading zeros.
pub open spec fn nat_digits(n: nat) -> Seq<char>
    decreases n,
{
    if n < 10 {
        seq![digit_char(n as int)]
    } else {
        nat_digits(n / 10).push(digit_char((n % 10) as int))
    }
}

/// The decimal text of an integer: a minus sign for a negative one, then the
/// digits of its magnitude.
pub open spec fn int_text(v: int) -> Seq<char> {
    if v < 0 {
        seq!['-'] + nat_digits((-v) as nat)
    } else {
        nat_digits(v as nat)
    }
}

/// An integer token at `pos`: an optional sign and one or more digits whose
/// value fits in 32 bits. The result holds the value and the position after
/// the last digit.
pub open spec fn parse_int(s: Seq<char>, pos: int) -> Option<(i32, int)> {
    let neg = char_at(s, pos, '-');
    let start = if neg || char_at(s, pos, '+') {
        pos + 1
    } else {
        pos
    };
    let end = span(s, start, CharClass::Digit);
    let mag = digits_value(s.subrange(start, end));
    let v = if neg {
        -mag
    } else {
        mag
    };
    if 0 <= pos <= s.len() && start < end && i32::MIN <= v <= i32::MAX {
        Some((v as i32, end))
    } else {
        None
    }
}

pub proof fn lemma_nat_digits(n: nat)
    ensures
        nat_digits(n).len() >= 1,
        forall|i: int| 0 <= i < nat_digits(n).len() ==> is_digit(#[trigger] nat_digits(n)[i]),
        digits_value(nat_digits(n)) == n,
    decreases n,
{
    if n < 10 {
        let t = nat_digits(n);
        assert(t.drop_last() =~= Seq::<char>::empty());
        assert(digits_value(t.drop_last()) == 0);
    } else {
        lemma_nat_digits(n / 10);
        let t = nat_digits(n);
        assert(t.drop_last() =~= nat_digits(n / 10));
        assert(digit_value(t.last()) == n % 10);
    }
}

/// The text of an integer starts with a minus sign or a digit and goes on
/// with digits only.
pub proof fn lemma_int_text(v: int)
    ensures
        int_text(v).len() >= 1,
        v < 0 ==> int_text(v)[0] == '-' && int_text(v).len() >= 2,
        v >= 0 ==> is_digit(int_text(v)[0]),
        forall|i: int| 1 <= i < int_text(v).len() ==> is_digit(#[trigger] int_text(v)[i]),
{
    if v < 0 {
        lemma_nat_digits((-v) as nat);
    } else {
        lemma_nat_digits(v as nat);
    }
}

/// Reading the text of a 32-bit integer gives the integer back, wherever the
/// text is followed by something that is no digit.
pub proof fn lemma_parse_int_text(s: Seq<char>, pos: int, v: i32)
    requires
        occurs_at(s, pos, int_text(v as int)),
        pos + int_text(v as int).len() < s.len() ==> !is_digit(s[pos + int_text(v as int).len()]),
    ensures
        parse_int(s, pos) == Some((v, pos + int_text(v as int).len())),
{
    let t = int_text(v as int);
    let end = pos + t.len();
    lemma_int_text(v as int);
    if v < 0 {
        let m = (-v) as nat;
        lemma_nat_digits(m);
        assert(s[pos + 0] == t[0]);
        assert forall|i: int| pos + 1 <= i < end implies in_class(
            CharClass::Digit,
            #[trigger] s[i],
        ) by {
            assert(s[pos + (i - pos)] == t[i - pos]);
        }
        lemma_span_is(s, pos + 1, end, CharClass::Digit);
        assert(s.subrange(pos + 1, end) =~= nat_digits(m)) by {
            assert forall|i: int| 0 <= i < nat_digits(m).len() implies s.subrange(pos + 1, end)[i]
                == nat_digits(m)[i] by {
                assert(s[pos + (i + 1)] == t[i + 1]);
            }
        }
    } else {
        let m = v as nat;
        lemma_nat_digits(m);
        assert(s[pos + 0] == t[0]);
        assert forall|i: int| pos <= i < end implies in_class(CharClass::Digit, #[trigger] s[i]) by {
            assert(s[pos + (i - pos)] == t[i - pos]);
        }
        lemma_span_is(s, pos, end, CharClass::Digit);
        assert(s.subrange(pos, end) =~= nat_digits(m)) by {
            assert forall|i: int| 0 <= i < nat_digits(m).len() implies s.subrange(pos, end)[i]
                == nat_digits(m)[i] by {
                assert(s[pos + i] == t[i]);
            }
        }
    }
}

pub(crate) fn read_int(s: &Vec<char>, pos: usize) -> (r: Option<(i32, usize)>)
    requires
        pos <= s.len(),
    ensures
        match r {
            Some((v, end)) => parse_int(s@, pos as int) == Some((v, end as int)) && pos < end
                <= s.len(),
            None => parse_int(s@, pos as int) is None,
        },
{
    let neg = is_char_at(s, pos, '-');
    let start: usize = if neg || is_char_at(s, pos, '+') {
        pos + 1
    } else {
        pos
    };
    let end: usize = scan(s, start, CharClass::Digit);
    if end == start {
        return None;
    }
    let mut acc: i64 = 0;
    let mut big = false;
    let mut i: usize = start;
    proof {
        lemma_span_bounds(s@, start as int, CharClass::Digit);
        assert(s@.subrange(start as int, start as int) =~= Seq::<char>::empty());
    }
    while i < end
        invariant
            start <= i <= end <= s.len(),
            forall|j: int| start <= j < end ==> is_digit(#[trigger] s@[j]),
            !big ==> acc == digits_value(s@.subrange(start as int, i as int)) && 0 <= acc
                <= 2147483648,
            big ==> digits_value(s@.subrange(start as int, i as int)) > 2147483648,
        decreases end - i,
    {
        let c = s[i];
        let d: i64 = (c as u32 - 48) as i64;
        proof {
            let p = s@.subrange(start as int, i as int);
            let q = s@.subrange(start as int, i + 1);
            assert(q.drop_last() =~= p);
            assert(q.last() == c);
            assert(digits_value(q) == digits_value(p) * 10 + d);
        }
        if !big {
            acc = acc * 10 + d;
            if acc > 2147483648 {
                big = true;
            }
        }
        i = i + 1;
    }
    if big {
        return None;
    }
    if neg {
        Some(((-acc) as i32, end))
    } else if acc <= 2147483647 {
        Some((acc as i32, end))
    } else {
        None
    }
}

fn push_nat(out: &mut String, n: u32)
    ensures
        final(out)@ == old(out)@ + nat_digits(n as nat),
    decreases n,
{
    if n >= 10 {
        push_nat(out, n / 10);
    }
    let d: u8 = (n % 10) as u8;
    out.push((d + 48) as char);
    proof {
        if n >= 10 {
            assert(out@ =~= old(out)@ + nat_digits(n as nat));
        } else {
            assert(out@ =~= old(out)@ + nat_digits(n as nat));
        }
    }
}

/// Appends the decimal text of `v`.
pub fn push_int(out: &mut String, v: i32)
    ensures
        final(out)@ == old(out)@ + int_text(v as int),
{
    if v < 0 {
        out.push('-');
        let m: u32 = (-(v as i64)) as u32;
        push_nat(out, m);
        assert(out@ =~= old(out)@ + int_text(v as int));
    } else {
        push_nat(out, v as u32);
    }
}

/// Appends the decimal text of an index.
pub fn push_index(out: &mut String, n: usize)
    ensures
        final(out)@ == old(out)@ + nat_digits(n as nat),
    decreases n,
{
    if n >= 10 {
        push_index(out, n / 10);
    }
    let d: u8 = (n % 10) as u8;
    out.push((d + 48) as char);
    assert(out@ =~= old(out)@ + nat_digits(n as nat));
}

} // verus!

//! One variable of a `.env` file, and the grammar of the line that declares it.
//!
//! A line is read on its own: nothing carries over from the line before.
//!
//! ```text
//! line     =  ws* content [ '#' comment ] ws*
//! content  =  key '=' value          (split at the first '=')
//! ```
//!
//! Everything in front of the first `#` is content and everything after it is
//! comment, also where the `#` stands inside what looks like a quoted value.
//! Key, value and comment are trimmed; quotes are kept as they are.
use crate::text::{
    chars_of, find_char, first_index, is_space, lemma_first_index, lemma_slice_contains,
    lemma_trim_is_slice, string_of, trim, trim_bounds,
};
use uuid::Uuid;
use vstd::prelude::*;

verus! {

/// What a variable line declares.
pub struct Fields {
    pub key: Seq<char>,
    pub value: Seq<char>,
    pub comment: Option<Seq<char>>,
}

/// The part of a line in front of its first `#`, trimmed.
pub open spec fn content(line: Seq<char>) -> Seq<char> {
    let t = trim(line);
    trim(t.take(first_index(t, '#')))
}

/// What follows the first `#` of a line, trimmed; `None` for a line without `#`.
pub open spec fn inline_comment(line: Seq<char>) -> Option<Seq<char>> {
    let t = trim(line);
    let h = first_index(t, '#');
    if h < t.len() {
        Some(trim(t.skip(h + 1)))
    } else {
        None
    }
}

/// Whether a line declares a variable: trimmed, it is not empty, does not
/// start with `#`, and holds an `=` in front of its first `#`.
pub open spec fn is_variable_line(line: Seq<char>) -> bool {
    let t = trim(line);
    t.len() > 0 && t.first() != '#' && content(line).contains('=')
}

/// The key of a variable line: its content up to the first `=`, trimmed.
pub open spec fn line_key(line: Seq<char>) -> Seq<char> {
    let c = content(line);
    trim(c.take(first_index(c, '=')))
}

/// The value of a variable line: its content after the first `=`, trimmed.
pub open spec fn line_value(line: Seq<char>) -> Seq<char> {
    let c = content(line);
    trim(c.skip(first_index(c, '=') + 1))
}

/// The three fields of a variable line. The comment is kept only where
/// `parse_comments` is set.
pub open spec fn line_fields(line: Seq<char>, parse_comments: bool) -> Fields {
    Fields {
        key: line_key(line),
        value: line_value(line),
        comment: if parse_comments {
            inline_comment(line)
        } else {
            None
        },
    }
}

/// What a line parses to: its fields if it declares a variable, nothing
/// otherwise.
pub open spec fn parse_line(line: Seq<char>, parse_comments: bool) -> Option<Fields> {
    if is_variable_line(line) {
        Some(line_fields(line, parse_comments))
    } else {
        None
    }
}

/// Whether `s` neither starts nor ends with whitespace.
pub open spec fn is_trimmed(s: Seq<char>) -> bool {
    s.len() > 0 ==> !is_space(s.first()) && !is_space(s.last())
}

/// Trimming leaves a trimmed text, and brings in no character that was not
/// there.
pub proof fn lemma_trim(s: Seq<char>, c: char)
    ensures
        is_trimmed(trim(s)),
        trim(s).contains(c) ==> s.contains(c),
{
    let (a, b) = lemma_trim_is_slice(s);
    if trim(s).contains(c) {
        lemma_slice_contains(s, a, b, c);
    }
}

/// The fields of a variable line are trimmed, its key holds neither `=` nor
/// `#`, and its value holds no `#`.
pub proof fn lemma_fields_are_clean(line: Seq<char>, parse_comments: bool)
    requires
        is_variable_line(line),
    ensures
        is_trimmed(line_key(line)),
        is_trimmed(line_value(line)),
        line_fields(line, parse_comments).comment matches Some(text) ==> is_trimmed(text),
        !line_key(line).contains('='),
        !line_key(line).contains('#'),
        !line_value(line).contains('#'),
{
    let t = trim(line);
    let h = first_index(t, '#');
    let c = content(line);
    let e = first_index(c, '=');
    lemma_first_index(t, '#');
    lemma_first_index(c, '=');
    lemma_first_index(t.take(h), '#');
    lemma_first_index(c.take(e), '=');
    assert(!t.take(h).contains('#'));
    assert(!c.take(e).contains('='));
    lemma_trim(t.take(h), '#');
    lemma_trim(c.take(e), '=');
    lemma_trim(c.take(e), '#');
    lemma_trim(c.skip(e + 1), '#');
    if c.take(e).contains('#') {
        lemma_slice_contains(c, 0, e, '#');
    }
    if c.skip(e + 1).contains('#') {
        lemma_slice_contains(c, e + 1, c.len() as int, '#');
    }
    if h < t.len() {
        lemma_trim(t.skip(h + 1), '#');
    }
}

/// A single environment variable with an optional comment.
///
/// `temp_id` ties the variable to the secret that is made of it. It means
/// nothing else and is not kept anywhere.
#[derive(Debug, PartialEq)]
pub struct EnvVar {
    pub key: String,
    pub value: String,
    pub comment: Option<String>,
    pub temp_id: Uuid,
}

/// An [`EnvVar`] as a mathematical value.
pub struct EnvVarView {
    pub key: Seq<char>,
    pub value: Seq<char>,
    pub comment: Option<Seq<char>>,
    pub temp_id: Uuid,
}

impl EnvVarView {
    /// The record without its identifier.
    pub open spec fn fields(self) -> Fields {
        Fields { key: self.key, value: self.value, comment: self.comment }
    }
}

/// The characters of an optional string.
pub open spec fn text_of(s: Option<String>) -> Option<Seq<char>> {
    match s {
        Some(s) => Some(s@),
        None => None,
    }
}

impl View for EnvVar {
    type V = EnvVarView;

    open spec fn view(&self) -> EnvVarView {
        EnvVarView {
            key: self.key@,
            value: self.value@,
            comment: text_of(self.comment),
            temp_id: self.temp_id,
        }
    }
}

/// The fields of an optional record.
pub open spec fn fields_of(r: Option<EnvVar>) -> Option<Fields> {
    match r {
        Some(v) => Some(v@.fields()),
        None => None,
    }
}

impl Clone for EnvVar {
    fn clone(&self) -> (r: Self)
        ensures
            r@ == self@,
    {
        EnvVar {
            key: self.key.clone(),
            value: self.value.clone(),
            comment: match &self.comment {
                Some(c) => Some(c.clone()),
                None => None,
            },
            temp_id: self.temp_id,
        }
    }
}

/// The fields of the line `buf[lo..hi]`, as strings of their own.
pub(crate) fn read_line(buf: &Vec<char>, lo: usize, hi: usize, parse_comments: bool) -> (r:
    Option<(String, String, Option<String>)>)
    requires
        lo <= hi <= buf@.len(),
    ensures
        match r {
            Some((key, value, comment)) => parse_line(
                buf@.subrange(lo as int, hi as int),
                parse_comments,
            ) == Some(Fields { key: key@, value: value@, comment: text_of(comment) }),
            None => parse_line(buf@.subrange(lo as int, hi as int), parse_comments) is None,
        },
{
    let (a, b) = trim_bounds(buf, lo, hi);
    let ghost t = buf@.subrange(a as int, b as int);
    if a == b {
        return None;
    }
    if buf[a] == '#' {
        assert(t.first() == '#');
        return None;
    }
    let h = find_char(buf, a, b, '#');
    assert(t.take(h - a) =~= buf@.subrange(a as int, h as int));
    let (ca, cb) = trim_bounds(buf, a, h);
    let ghost c = buf@.subrange(ca as int, cb as int);
    let e = find_char(buf, ca, cb, '=');
    proof {
        lemma_first_index(c, '=');
    }
    if e == cb {
        return None;
    }
    assert(c.take(e - ca) =~= buf@.subrange(ca as int, e as int));
    assert(c.skip(e - ca + 1) =~= buf@.subrange(e as int + 1, cb as int));
    let (ka, kb) = trim_bounds(buf, ca, e);
    let (va, vb) = trim_bounds(buf, e + 1, cb);
    let comment = if parse_comments && h < b {
        assert(t.skip(h - a + 1) =~= buf@.subrange(h as int + 1, b as int));
        let (ma, mb) = trim_bounds(buf, h + 1, b);
        Some(string_of(buf, ma, mb))
    } else {
        None
    };
    Some((string_of(buf, ka, kb), string_of(buf, va, vb), comment))
}

impl EnvVar {
    /// Parses the line `buf[lo..hi]` and gives the record a fresh identifier.
    pub(crate) fn parse_span(buf: &Vec<char>, lo: usize, hi: usize, parse_comments: bool) -> (r:
        Option<EnvVar>)
        requires
            lo <= hi <= buf@.len(),
        ensures
            fields_of(r) == parse_line(buf@.subrange(lo as int, hi as int), parse_comments),
    {
        match read_line(buf, lo, hi, parse_comments) {
            Some((key, value, comment)) => Some(
                EnvVar { key, value, comment, temp_id: Uuid::new_v4() },
            ),
            None => None,
        }
    }

    /// Attempts to parse an environment variable from a single line of text.
    ///
    /// Returns `None` for a line that declares no variable: a blank line, a
    /// line that is a comment as a whole, a line without `=` in front of its
    /// first `#`. Otherwise the record holds the line's key and value, its
    /// inline comment if `parse_comments` is set and the line has one, and an
    /// identifier drawn at random.
    pub fn parse_from_str(s: &str, parse_comments: bool) -> (r: Option<EnvVar>)
        ensures
            fields_of(r) == parse_line(s@, parse_comments),
    {
        let buf = chars_of(s);
        assert(buf@.subrange(0, buf@.len() as int) =~= s@);
        Self::parse_span(&buf, 0, buf.len(), parse_comments)
    }

    /// As [`EnvVar::parse_from_str`], with the identifier that the record is
    /// to carry given by the caller.
    pub fn parse_with_id(s: &str, parse_comments: bool, temp_id: Uuid) -> (r: Option<EnvVar>)
        ensures
            fields_of(r) == parse_line(s@, parse_comments),
            r matches Some(v) ==> v.temp_id == temp_id,
    {
        let buf = chars_of(s);
        assert(buf@.subrange(0, buf@.len() as int) =~= s@);
        match read_line(&buf, 0, buf.len(), parse_comments) {
            Some((key, value, comment)) => Some(EnvVar { key, value, comment, temp_id }),
            None => None,
        }
    }
}

} // verus!

//! Character-level vocabulary of the parser: whitespace, trimming, first
//! occurrences and lines, each as a spec function over `Seq<char>`, with the
//! executable scanners that are proved against them.
//!
//! The scanners work on a buffer of characters and on index pairs into it, so
//! that one pass over a text yields every span without copying.
use vstd::prelude::*;

verus! {

/// Appends one character: `String::push` of the standard library. The
/// contract restates its documentation over views.
pub assume_specification[ String::push ](s: &mut String, ch: char)
    ensures
        final(s)@ == old(s)@.push(ch),
;

/// The characters that trimming removes: the code points with the Unicode
/// property `White_Space`.
pub open spec fn is_space(c: char) -> bool {
    ||| '\u{9}' <= c <= '\u{D}'
    ||| c == ' '
    ||| c == '\u{85}'
    ||| c == '\u{A0}'
    ||| c == '\u{1680}'
    ||| '\u{2000}' <= c <= '\u{200A}'
    ||| c == '\u{2028}'
    ||| c == '\u{2029}'
    ||| c == '\u{202F}'
    ||| c == '\u{205F}'
    ||| c == '\u{3000}'
}

/// `s` without its leading whitespace.
pub open spec fn trim_start(s: Seq<char>) -> Seq<char>
    decreases s.len(),
{
    if s.len() > 0 && is_space(s.first()) {
        trim_start(s.drop_first())
    } else {
        s
    }
}

/// `s` without its trailing whitespace.
pub open spec fn trim_end(s: Seq<char>) -> Seq<char>
    decreases s.len(),
{
    if s.len() > 0 && is_space(s.last()) {
        trim_end(s.drop_last())
    } else {
        s
    }
}

/// `s` without its leading and trailing whitespace. Whitespace between two
/// other characters stays.
pub open spec fn trim(s: Seq<char>) -> Seq<char> {
    trim_end(trim_start(s))
}

/// The index at which `c` first occurs in `s`, or `s.len()` where it does not
/// occur.
pub open spec fn first_index(s: Seq<char>, c: char) -> int
    decreases s.len(),
{
    if s.len() == 0 || s.first() == c {
        0
    } else {
        1 + first_index(s.drop_first(), c)
    }
}

/// A line without the carriage return that may precede its line feed.
pub open spec fn strip_cr(line: Seq<char>) -> Seq<char> {
    if line.len() > 0 && line.last() == '\r' {
        line.drop_last()
    } else {
        line
    }
}

/// The lines of a text. A line ends at a line feed, or at a carriage return
/// directly followed by one; neither belongs to the line. The last line needs
/// no line ending, and a text that ends with one has no empty line after it.
pub open spec fn lines(text: Seq<char>) -> Seq<Seq<char>>
    decreases text.len(),
{
    let n = first_index(text, '\n');
    if text.len() == 0 {
        Seq::empty()
    } else if 0 <= n < text.len() {
        seq![strip_cr(text.take(n))] + lines(text.skip(n + 1))
    } else {
        seq![text]
    }
}

/// `first_index` is within `0..=s.len()`, no earlier position holds `c`, and
/// the position itself holds `c` unless it is `s.len()`.
pub proof fn lemma_first_index(s: Seq<char>, c: char)
    ensures
        0 <= first_index(s, c) <= s.len(),
        first_index(s, c) < s.len() ==> s[first_index(s, c)] == c,
        forall|j: int| 0 <= j < first_index(s, c) ==> s[j] != c,
        s.contains(c) <==> first_index(s, c) < s.len(),
    decreases s.len(),
{
    if s.len() == 0 || s.first() == c {
    } else {
        let rest = s.drop_first();
        lemma_first_index(rest, c);
        assert forall|j: int| 0 <= j < first_index(s, c) implies s[j] != c by {
            if j > 0 {
                assert(s[j] == rest[j - 1]);
            }
        }
        if s.contains(c) {
            let i = choose|i: int| 0 <= i < s.len() && s[i] == c;
            assert(rest[i - 1] == c);
        }
    }
}

/// A slice of `s` holds no character that `s` does not hold.
pub proof fn lemma_slice_contains(s: Seq<char>, lo: int, hi: int, c: char)
    requires
        0 <= lo <= hi <= s.len(),
        s.subrange(lo, hi).contains(c),
    ensures
        s.contains(c),
{
    let part = s.subrange(lo, hi);
    let i = choose|i: int| 0 <= i < part.len() && part[i] == c;
    assert(s[lo + i] == c);
}

/// Trimming yields a slice of `s`: a run of whitespace is cut from each end,
/// and what is left neither starts nor ends with whitespace.
pub proof fn lemma_trim_is_slice(s: Seq<char>) -> (r: (int, int))
    ensures
        0 <= r.0 <= r.1 <= s.len(),
        trim(s) == s.subrange(r.0, r.1),
        forall|j: int| 0 <= j < r.0 ==> is_space(s[j]),
        forall|j: int| r.1 <= j < s.len() ==> is_space(s[j]),
        r.0 < r.1 ==> !is_space(s[r.0]) && !is_space(s[r.1 - 1]),
{
    let a = lemma_trim_start_is_suffix(s);
    let b = lemma_trim_end_is_prefix(s.skip(a));
    assert(s.skip(a).take(b) =~= s.subrange(a, a + b));
    assert forall|j: int| a + b <= j < s.len() implies is_space(s[j]) by {
        assert(s[j] == s.skip(a)[j - a]);
    }
    (a, a + b)
}

/// `trim_start` drops a run of whitespace from the front and stops at the
/// first other character.
pub proof fn lemma_trim_start_is_suffix(s: Seq<char>) -> (a: int)
    ensures
        0 <= a <= s.len(),
        trim_start(s) == s.skip(a),
        forall|j: int| 0 <= j < a ==> is_space(s[j]),
        a < s.len() ==> !is_space(s[a]),
    decreases s.len(),
{
    if s.len() > 0 && is_space(s.first()) {
        let rest = s.drop_first();
        let a = lemma_trim_start_is_suffix(rest);
        assert(rest.skip(a) =~= s.skip(a + 1));
        assert forall|j: int| 0 <= j < a + 1 implies is_space(s[j]) by {
            if j > 0 {
                assert(s[j] == rest[j - 1]);
            }
        }
        a + 1
    } else {
        assert(s.skip(0) =~= s);
        0
    }
}

/// `trim_end` drops a run of whitespace from the back and stops at the last
/// other character.
pub proof fn lemma_trim_end_is_prefix(s: Seq<char>) -> (b: int)
    ensures
        0 <= b <= s.len(),
        trim_end(s) == s.take(b),
        forall|j: int| b <= j < s.len() ==> is_space(s[j]),
        0 < b ==> !is_space(s[b - 1]),
    decreases s.len(),
{
    if s.len() > 0 && is_space(s.last()) {
        let rest = s.drop_last();
        let b = lemma_trim_end_is_prefix(rest);
        assert(rest.take(b) =~= s.take(b));
        assert forall|j: int| b <= j < s.len() implies is_space(s[j]) by {
            if j < rest.len() {
                assert(s[j] == rest[j]);
            }
        }
        b
    } else {
        assert(s.take(s.len() as int) =~= s);
        s.len() as int
    }
}

/// Whether `c` is whitespace.
pub fn is_whitespace(c: char) -> (r: bool)
    ensures
        r == is_space(c),
{
    ('\u{9}' <= c && c <= '\u{D}') || c == ' ' || c == '\u{85}' || c == '\u{A0}' || c
        == '\u{1680}' || ('\u{2000}' <= c && c <= '\u{200A}') || c == '\u{2028}' || c
        == '\u{2029}' || c == '\u{202F}' || c == '\u{205F}' || c == '\u{3000}'
}

/// The characters of `s`, in order.
pub fn chars_of(s: &str) -> (buf: Vec<char>)
    ensures
        buf@ == s@,
{
    let mut buf: Vec<char> = Vec::new();
    for c in it: s.chars()
        invariant
            it.seq() == s@,
            buf@ == it.seq().take(it.index() as int),
    {
        buf.push(c);
    }
    buf
}

/// The string made of `buf[lo..hi]`.
pub fn string_of(buf: &Vec<char>, lo: usize, hi: usize) -> (s: String)
    requires
        lo <= hi <= buf@.len(),
    ensures
        s@ == buf@.subrange(lo as int, hi as int),
{
    let mut s = String::new();
    let mut i: usize = lo;
    while i < hi
        invariant
            lo <= i <= hi <= buf@.len(),
            s@ == buf@.subrange(lo as int, i as int),
        decreases hi - i,
    {
        s.push(buf[i]);
        i += 1;
    }
    s
}

/// Where `c` first occurs in `buf[lo..hi]`, as an index into `buf`; `hi`
/// where it does not occur.
pub fn find_char(buf: &Vec<char>, lo: usize, hi: usize, c: char) -> (i: usize)
    requires
        lo <= hi <= buf@.len(),
    ensures
        lo <= i <= hi,
        i - lo == first_index(buf@.subrange(lo as int, hi as int), c),
{
    let mut i: usize = lo;
    while i < hi && buf[i] != c
        invariant
            lo <= i <= hi <= buf@.len(),
            first_index(buf@.subrange(lo as int, hi as int), c) == (i - lo) + first_index(
                buf@.subrange(i as int, hi as int),
                c,
            ),
        decreases hi - i,
    {
        assert(buf@.subrange(i as int, hi as int).drop_first() =~= buf@.subrange(
            i as int + 1,
            hi as int,
        ));
        i += 1;
    }
    i
}

/// The bounds of `buf[lo..hi]` trimmed, as indices into `buf`.
pub fn trim_bounds(buf: &Vec<char>, lo: usize, hi: usize) -> (r: (usize, usize))
    requires
        lo <= hi <= buf@.len(),
    ensures
        lo <= r.0 <= r.1 <= hi,
        buf@.subrange(r.0 as int, r.1 as int) == trim(buf@.subrange(lo as int, hi as int)),
{
    let mut a: usize = lo;
    while a < hi && is_whitespace(buf[a])
        invariant
            lo <= a <= hi <= buf@.len(),
            trim_start(buf@.subrange(lo as int, hi as int)) == trim_start(
                buf@.subrange(a as int, hi as int),
            ),
        decreases hi - a,
    {
        assert(buf@.subrange(a as int, hi as int).drop_first() =~= buf@.subrange(
            a as int + 1,
            hi as int,
        ));
        a += 1;
    }
    let mut b: usize = hi;
    while a < b && is_whitespace(buf[b - 1])
        invariant
            a <= b <= hi <= buf@.len(),
            trim_end(buf@.subrange(a as int, hi as int)) == trim_end(
                buf@.subrange(a as int, b as int),
            ),
        decreases b - a,
    {
        assert(buf@.subrange(a as int, b as int).drop_last() =~= buf@.subrange(
            a as int,
            b as int - 1,
        ));
        b -= 1;
    }
    (a, b)
}

} // verus!

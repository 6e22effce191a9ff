//! A file's worth of environment variables.
use crate::env_var::{is_variable_line, parse_line, EnvVar, EnvVarView, Fields};
use crate::text::{chars_of, find_char, lemma_first_index, lines, strip_cr};
use vstd::prelude::*;

verus! {

/// The parser of one line, as a function to map over the lines of a text.
pub open spec fn line_parser(parse_comments: bool) -> spec_fn(Seq<char>) -> Option<Fields> {
    |line: Seq<char>| parse_line(line, parse_comments)
}

/// What a text parses to: the fields of its variable lines, in the order of
/// the lines. Other lines leave no trace.
pub open spec fn parse_text(text: Seq<char>, parse_comments: bool) -> Seq<Fields> {
    lines(text).filter_map(line_parser(parse_comments))
}

/// The lines of a text that declare a variable.
pub open spec fn variable_lines(text: Seq<char>) -> Seq<Seq<char>> {
    lines(text).filter(|line: Seq<char>| is_variable_line(line))
}

/// The fields of each record of a sequence.
pub open spec fn fields_of_all(records: Seq<EnvVarView>) -> Seq<Fields> {
    records.map_values(|v: EnvVarView| v.fields())
}

/// The records of a vector as mathematical values.
pub open spec fn views_of(vars: Seq<EnvVar>) -> Seq<EnvVarView> {
    vars.map_values(|v: EnvVar| v@)
}

/// Parsing keeps one record for each variable line and none for any other.
pub proof fn lemma_one_record_per_variable_line(all: Seq<Seq<char>>, parse_comments: bool)
    ensures
        all.filter_map(line_parser(parse_comments)).len() == all.filter(
            |line: Seq<char>| is_variable_line(line),
        ).len(),
    decreases all.len(),
{
    reveal(Seq::filter);
    if all.len() > 0 {
        lemma_one_record_per_variable_line(all.drop_last(), parse_comments);
    }
}

/// A text has as many records as it has lines that declare a variable.
pub proof fn lemma_record_count(text: Seq<char>, parse_comments: bool)
    ensures
        parse_text(text, parse_comments).len() == variable_lines(text).len(),
{
    lemma_one_record_per_variable_line(lines(text), parse_comments);
}

/// The empty text has no lines, and so no records.
pub proof fn lemma_empty_text(parse_comments: bool)
    ensures
        lines(Seq::<char>::empty()) == Seq::<Seq<char>>::empty(),
        parse_text(Seq::<char>::empty(), parse_comments) == Seq::<Fields>::empty(),
{
}

/// Two parses of one text under one setting agree record by record in key,
/// value and comment. Only the identifiers may differ.
pub proof fn lemma_parse_is_repeatable(
    first: DotEnvFile,
    second: DotEnvFile,
    text: Seq<char>,
    parse_comments: bool,
)
    requires
        first.fields() == parse_text(text, parse_comments),
        second.fields() == parse_text(text, parse_comments),
    ensures
        first@.len() == second@.len(),
        forall|i: int|
            0 <= i < first@.len() ==> {
                &&& (#[trigger] first@[i]).key == second@[i].key
                &&& first@[i].value == second@[i].value
                &&& first@[i].comment == second@[i].comment
            },
{
    assert(first.fields().len() == first@.len());
    assert(second.fields().len() == second@.len());
    assert forall|i: int| 0 <= i < first@.len() implies {
        &&& (#[trigger] first@[i]).key == second@[i].key
        &&& first@[i].value == second@[i].value
        &&& first@[i].comment == second@[i].comment
    } by {
        assert(first.fields()[i] == first@[i].fields());
        assert(second.fields()[i] == second@[i].fields());
    }
}

/// The variables of a `.env` file, in the order of their lines. A key that
/// occurs twice is kept twice.
#[derive(Debug)]
pub struct DotEnvFile(Vec<EnvVar>);

impl View for DotEnvFile {
    type V = Seq<EnvVarView>;

    closed spec fn view(&self) -> Seq<EnvVarView> {
        views_of(self.0@)
    }
}

impl DotEnvFile {
    /// The fields of the records, without their identifiers.
    pub open spec fn fields(&self) -> Seq<Fields> {
        fields_of_all(self@)
    }

    /// The file that holds `vars`, in their order.
    pub fn new(vars: Vec<EnvVar>) -> (r: Self)
        ensures
            r@ == views_of(vars@),
    {
        DotEnvFile(vars)
    }

    /// Parses the variables of a text in the format of a `.env` file.
    ///
    /// Each line is parsed on its own, as [`EnvVar::parse_from_str`] does it.
    /// A line that declares no variable is passed over in silence, so every
    /// text parses. Each record gets an identifier drawn at random.
    pub fn parse_from_str(input: &str, parse_comments: bool) -> (r: Self)
        ensures
            r.fields() == parse_text(input@, parse_comments),
            r@.len() == variable_lines(input@).len(),
    {
        let buf = chars_of(input);
        let n = buf.len();
        let mut vars: Vec<EnvVar> = Vec::new();
        let mut pos: usize = 0;
        let ghost mut done: Seq<Seq<char>> = Seq::empty();
        assert(buf@.skip(0) =~= buf@);
        while pos < n
            invariant
                pos <= n == buf@.len(),
                lines(buf@) == done + lines(buf@.skip(pos as int)),
                fields_of_all(views_of(vars@)) == done.filter_map(line_parser(parse_comments)),
            decreases n - pos,
        {
            let ghost rest = buf@.skip(pos as int);
            assert(buf@.subrange(pos as int, n as int) =~= rest);
            let nl = find_char(&buf, pos, n, '\n');
            let end = if nl < n && pos < nl && buf[nl - 1] == '\r' {
                nl - 1
            } else {
                nl
            };
            let ghost line = buf@.subrange(pos as int, end as int);
            let next = if nl < n {
                nl + 1
            } else {
                n
            };
            proof {
                lemma_first_index(rest, '\n');
                if nl < n {
                    assert(rest.take(nl - pos) =~= buf@.subrange(pos as int, nl as int));
                    assert(strip_cr(rest.take(nl - pos)) =~= line);
                    assert(rest.skip(nl - pos + 1) =~= buf@.skip(next as int));
                } else {
                    assert(line =~= rest);
                    assert(lines(buf@.skip(next as int)) =~= Seq::<Seq<char>>::empty());
                }
                assert(lines(rest) =~= seq![line] + lines(buf@.skip(next as int)));
                assert(done + lines(rest) =~= done.push(line) + lines(buf@.skip(next as int)));
                assert(done.push(line).drop_last() =~= done);
            }
            let parsed = EnvVar::parse_span(&buf, pos, end, parse_comments);
            let ghost before = vars@;
            match parsed {
                Some(v) => {
                    vars.push(v);
                    assert(fields_of_all(views_of(vars@)) =~= fields_of_all(
                        views_of(before),
                    ).push(v@.fields()));
                },
                None => {},
            }
            proof {
                done = done.push(line);
            }
            pos = next;
        }
        proof {
            assert(done + lines(buf@.skip(pos as int)) =~= done);
            lemma_one_record_per_variable_line(lines(input@), parse_comments);
        }
        DotEnvFile(vars)
    }
}

impl Clone for DotEnvFile {
    fn clone(&self) -> (r: Self)
        ensures
            r@ == self@,
    {
        let mut vars: Vec<EnvVar> = Vec::new();
        let mut i: usize = 0;
        while i < self.0.len()
            invariant
                i <= self.0@.len(),
                views_of(vars@) == views_of(self.0@).take(i as int),
            decreases self.0@.len() - i,
        {
            let ghost before = vars@;
            let v = self.0[i].clone();
            vars.push(v);
            assert(views_of(vars@) =~= views_of(before).push(v@));
            assert(views_of(self.0@).take(i as int + 1) =~= views_of(self.0@).take(i as int).push(
                self.0@[i as int]@,
            ));
            i += 1;
        }
        assert(views_of(self.0@).take(i as int) =~= views_of(self.0@));
        DotEnvFile(vars)
    }
}

/// Lets a [`DotEnvFile`] be read like the vector of its records.
impl std::ops::Deref for DotEnvFile {
    type Target = Vec<EnvVar>;

    fn deref(&self) -> (r: &Vec<EnvVar>)
        ensures
            views_of(r@) == self@,
    {
        &self.0
    }
}

} // verus!

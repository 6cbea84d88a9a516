//! The lines of an environment file: `NAME = value`, with `#` in front of a
//! comment.

use vstd::prelude::*;
use vstd::string::*;

verus! {

/// Whether a character is white space, as Unicode defines it.
pub uninterp spec fn is_whitespace(c: char) -> bool;

/// `char::is_whitespace`: whether the character is white space, as Unicode defines it.
#[verifier::external_body]
fn char_is_whitespace(c: char) -> (white: bool)
    ensures
        white == is_whitespace(c),
{
    c.is_whitespace()
}

/// The text without the white space in front of it.
pub open spec fn trimmed_start(text: Seq<char>) -> Seq<char>
    decreases text.len(),
{
    if text.len() > 0 && is_whitespace(text.first()) {
        trimmed_start(text.drop_first())
    } else {
        text
    }
}

/// The text without the white space behind it.
pub open spec fn trimmed_end(text: Seq<char>) -> Seq<char>
    decreases text.len(),
{
    if text.len() > 0 && is_whitespace(text.last()) {
        trimmed_end(text.drop_last())
    } else {
        text
    }
}

/// The text without the white space at its ends.
pub open spec fn trimmed(text: Seq<char>) -> Seq<char> {
    trimmed_end(trimmed_start(text))
}

/// Whether `index` is where the first `=` of the line stands.
pub open spec fn first_equals_at(line: Seq<char>, index: int) -> bool {
    &&& 0 <= index < line.len()
    &&& line[index] == '='
    &&& forall|j: int| 0 <= j < index ==> line[j] != '='
}

/// Where the first `=` of the line stands; meaningful where there is one.
pub open spec fn first_equals(line: Seq<char>) -> int {
    choose|index: int| first_equals_at(line, index)
}

/// What a line of an environment file says.
#[derive(Debug, PartialEq, Eq)]
pub enum EnvLine {
    /// Nothing: the line is blank or a comment.
    Skipped,
    /// That the variable `name` has the value `value`.
    Variable { name: String, value: String },
    /// Nothing that can be read: the line names a variable without `=`.
    Malformed,
}

/// What an `EnvLine` is, as mathematics.
pub enum EnvLineView {
    Skipped,
    Variable { name: Seq<char>, value: Seq<char> },
    Malformed,
}

impl View for EnvLine {
    type V = EnvLineView;

    open spec fn view(&self) -> EnvLineView {
        match self {
            EnvLine::Skipped => EnvLineView::Skipped,
            EnvLine::Variable { name, value } => EnvLineView::Variable { name: name@, value: value@ },
            EnvLine::Malformed => EnvLineView::Malformed,
        }
    }
}

/// What a line says. A line that is blank once trimmed, or that begins
/// with `#` then, says nothing. Any other line is split at its first `=`:
/// the name stands in front and the value behind, both trimmed. Without
/// `=` the line cannot be read.
pub open spec fn env_line(line: Seq<char>) -> EnvLineView {
    let content = trimmed(line);
    if content.len() == 0 || content.first() == '#' {
        EnvLineView::Skipped
    } else if !line.contains('=') {
        EnvLineView::Malformed
    } else {
        EnvLineView::Variable {
            name: trimmed(line.take(first_equals(line))),
            value: trimmed(line.skip(first_equals(line) + 1)),
        }
    }
}

/// Where the part of the line from `from` up to `to` begins and ends once
/// trimmed.
fn trim_bounds(line: &str, from: usize, to: usize) -> (bounds: (usize, usize))
    requires
        from <= to <= line@.len(),
    ensures
        from <= bounds.0 <= bounds.1 <= to,
        line@.subrange(bounds.0 as int, bounds.1 as int) == trimmed(
            line@.subrange(from as int, to as int),
        ),
{
    let mut begin: usize = from;
    while begin < to && char_is_whitespace(line.get_char(begin))
        invariant
            from <= begin <= to <= line@.len(),
            trimmed_start(line@.subrange(from as int, to as int)) == trimmed_start(
                line@.subrange(begin as int, to as int),
            ),
        decreases to - begin,
    {
        assert(line@.subrange(begin as int, to as int).drop_first() == line@.subrange(
            begin + 1,
            to as int,
        ));
        begin += 1;
    }
    let mut end: usize = to;
    while end > begin && char_is_whitespace(line.get_char(end - 1))
        invariant
            begin <= end <= to <= line@.len(),
            trimmed_end(line@.subrange(begin as int, to as int)) == trimmed_end(
                line@.subrange(begin as int, end as int),
            ),
        decreases end,
    {
        assert(line@.subrange(begin as int, end as int).drop_last() == line@.subrange(
            begin as int,
            end - 1,
        ));
        end -= 1;
    }
    (begin, end)
}

/// Where the first `=` of the line stands, if there is one.
fn find_equals(line: &str) -> (found: Option<usize>)
    ensures
        match found {
            Some(index) => first_equals_at(line@, index as int),
            None => !line@.contains('='),
        },
{
    let length: usize = line.unicode_len();
    let mut i: usize = 0;
    while i < length
        invariant
            i <= length,
            length == line@.len(),
            forall|j: int| 0 <= j < i ==> line@[j] != '=',
        decreases length - i,
    {
        if line.get_char(i) == '=' {
            return Some(i);
        }
        i += 1;
    }
    None
}

/// Reads one line of an environment file.
pub fn parse_env_line(line: &str) -> (parsed: EnvLine)
    ensures
        parsed@ == env_line(line@),
{
    let length: usize = line.unicode_len();
    assert(line@.subrange(0, length as int) == line@);
    let (begin, end) = trim_bounds(line, 0, length);
    if begin == end || line.get_char(begin) == '#' {
        return EnvLine::Skipped;
    }
    match find_equals(line) {
        None => EnvLine::Malformed,
        Some(at) => {
            let (name_begin, name_end) = trim_bounds(line, 0, at);
            let (value_begin, value_end) = trim_bounds(line, at + 1, length);
            EnvLine::Variable {
                name: String::from_str(line.substring_char(name_begin, name_end)),
                value: String::from_str(line.substring_char(value_begin, value_end)),
            }
        },
    }
}

} // verus!

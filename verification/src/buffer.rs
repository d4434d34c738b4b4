//! The text buffer: the lines of one source, in order.

use crate::text::{chars_of, string_of, texts};
use vstd::prelude::*;

verus! {

/// Why a source could not be read.
#[derive(Clone, Copy, Debug, PartialEq, Eq, Structural)]
pub enum LoadError {
    /// The named source does not exist.
    NotFound,
    /// The source exists and reading it failed.
    IoError,
}

/// The index of the line feed that ends the line starting at `from`, or the
/// length of `text` when no line feed follows.
pub open spec fn line_end(text: Seq<char>, from: int) -> int
    decreases text.len() - from,
{
    if from < 0 || from >= text.len() || text[from] == '\n' {
        from
    } else {
        line_end(text, from + 1)
    }
}

/// The content of the line that occupies `text[from..end]`, where `end` is
/// its [`line_end`]: the characters before the terminator. The terminator
/// is the line feed at `end`, together with a carriage return right before
/// it; a carriage return at the very end of the text, with no line feed
/// after it, belongs to the line.
pub open spec fn line_content(text: Seq<char>, from: int, end: int) -> Seq<char> {
    if end < text.len() && from < end && text[end - 1] == '\r' {
        text.subrange(from, end - 1)
    } else {
        text.subrange(from, end)
    }
}

/// The lines of `text` from index `from` on.
pub open spec fn lines_from(text: Seq<char>, from: int) -> Seq<Seq<char>>
    decreases text.len() + 1 - from,
    via lines_from_decreases
{
    if from < 0 || from >= text.len() {
        Seq::empty()
    } else {
        let end = line_end(text, from);
        seq![line_content(text, from, end)] + lines_from(text, end + 1)
    }
}

#[via_fn]
proof fn lines_from_decreases(text: Seq<char>, from: int) {
    if 0 <= from < text.len() {
        lemma_line_end_bounds(text, from);
    }
}

/// The lines of `text`. A line ends at a line feed or at the end of the
/// text; the line feed, and a carriage return right before it, are not part
/// of the line. Text that ends in a line feed has no empty line after it,
/// and empty text has no line at all.
pub open spec fn split_lines(text: Seq<char>) -> Seq<Seq<char>> {
    lines_from(text, 0)
}

/// A line ends at or after its start and within the text, at the first line
/// feed from its start on or, where there is none, at the end of the text.
pub proof fn lemma_line_end_bounds(text: Seq<char>, from: int)
    requires
        0 <= from <= text.len(),
    ensures
        from <= line_end(text, from) <= text.len(),
        line_end(text, from) < text.len() ==> text[line_end(text, from)] == '\n',
        forall|i: int| from <= i < line_end(text, from) ==> text[i] != '\n',
    decreases text.len() - from,
{
    if from < text.len() && text[from] != '\n' {
        lemma_line_end_bounds(text, from + 1);
    }
}

proof fn lemma_lines_from_feedless(text: Seq<char>, from: int)
    requires
        0 <= from <= text.len(),
    ensures
        forall|k: int, i: int|
            0 <= k < lines_from(text, from).len() && 0 <= i < lines_from(text, from)[k].len()
                ==> lines_from(text, from)[k][i] != '\n',
    decreases text.len() + 1 - from,
{
    if from < text.len() {
        let end = line_end(text, from);
        lemma_line_end_bounds(text, from);
        let head = line_content(text, from, end);
        let rest = lines_from(text, end + 1);
        if end < text.len() {
            lemma_lines_from_feedless(text, end + 1);
        }
        assert forall|k: int, i: int|
            0 <= k < lines_from(text, from).len() && 0 <= i < lines_from(text, from)[k].len()
            implies lines_from(text, from)[k][i] != '\n' by {
            if k == 0 {
                assert(lines_from(text, from)[k] == head);
                assert(head[i] == text[from + i]);
            } else {
                assert(lines_from(text, from)[k] == rest[k - 1]);
            }
        }
    }
}

/// No line holds a line feed.
pub proof fn lemma_lines_are_feedless(text: Seq<char>)
    ensures
        forall|k: int, i: int|
            0 <= k < split_lines(text).len() && 0 <= i < split_lines(text)[k].len()
                ==> split_lines(text)[k][i] != '\n',
{
    lemma_lines_from_feedless(text, 0);
}

/// Empty text has no line, and any other text has at least one.
pub proof fn lemma_lines_of_text(text: Seq<char>)
    ensures
        text.len() == 0 <==> split_lines(text).len() == 0,
{
}

/// Whether `line` can come out of splitting a text as it went in: it holds
/// no line feed and does not end in a carriage return.
pub open spec fn is_line(line: Seq<char>) -> bool {
    &&& forall|i: int| 0 <= i < line.len() ==> line[i] != '\n'
    &&& line.len() > 0 ==> line.last() != '\r'
}

/// The text in which each of `lines` is followed by a line feed.
pub open spec fn joined(lines: Seq<Seq<char>>) -> Seq<char>
    decreases lines.len(),
{
    if lines.len() == 0 {
        Seq::empty()
    } else {
        lines.first() + seq!['\n'] + joined(lines.drop_first())
    }
}

proof fn lemma_line_end_at(text: Seq<char>, from: int, end: int)
    requires
        0 <= from <= end <= text.len(),
        forall|i: int| from <= i < end ==> text[i] != '\n',
        end < text.len() ==> text[end] == '\n',
    ensures
        line_end(text, from) == end,
    decreases end - from,
{
    if from < end {
        lemma_line_end_at(text, from + 1, end);
    }
}

proof fn lemma_line_end_shift(prefix: Seq<char>, text: Seq<char>, from: int)
    requires
        0 <= from <= text.len(),
    ensures
        line_end(prefix + text, prefix.len() + from) == prefix.len() + line_end(text, from),
    decreases text.len() - from,
{
    if from < text.len() && text[from] != '\n' {
        lemma_line_end_shift(prefix, text, from + 1);
    }
}

proof fn lemma_lines_from_shift(prefix: Seq<char>, text: Seq<char>, from: int)
    requires
        0 <= from <= text.len(),
    ensures
        lines_from(prefix + text, prefix.len() + from) == lines_from(text, from),
    decreases text.len() - from,
{
    if from < text.len() {
        let whole = prefix + text;
        let shift = prefix.len() as int;
        let end = line_end(text, from);
        lemma_line_end_bounds(text, from);
        lemma_line_end_shift(prefix, text, from);
        assert(whole.subrange(shift + from, shift + end) =~= text.subrange(from, end));
        if from < end {
            assert(whole[shift + end - 1] == text[end - 1]);
            assert(whole.subrange(shift + from, shift + end - 1) =~= text.subrange(from, end - 1));
        }
        assert(line_content(whole, shift + from, shift + end) == line_content(text, from, end));
        if end < text.len() {
            lemma_lines_from_shift(prefix, text, end + 1);
        }
    }
}

proof fn lemma_first_line(line: Seq<char>, rest: Seq<char>)
    requires
        is_line(line),
    ensures
        split_lines(line + seq!['\n'] + rest) == seq![line] + split_lines(rest),
{
    let prefix = line + seq!['\n'];
    let whole = prefix + rest;
    let end = line.len() as int;
    assert(whole[end] == '\n');
    assert forall|i: int| 0 <= i < end implies whole[i] != '\n' by {
        assert(whole[i] == line[i]);
    }
    lemma_line_end_at(whole, 0, end);
    if 0 < end {
        assert(whole[end - 1] == line.last());
    }
    assert(whole.subrange(0, end) =~= line);
    assert(line_content(whole, 0, end) == line);
    lemma_lines_from_shift(prefix, rest, 0);
    assert(lines_from(whole, end + 1) == lines_from(rest, 0));
}

proof fn lemma_only_line(line: Seq<char>)
    requires
        is_line(line),
        line.len() > 0,
    ensures
        split_lines(line) == seq![line],
{
    let end = line.len() as int;
    lemma_line_end_at(line, 0, end);
    assert(line.subrange(0, end) =~= line);
    assert(lines_from(line, end + 1) =~= Seq::<Seq<char>>::empty());
    assert(seq![line] + Seq::<Seq<char>>::empty() =~= seq![line]);
}

/// Splitting gives back the lines that a text was made of. Where each of
/// `lines` is followed by a line feed, the text has exactly those lines: the
/// line feed at the very end does not bring an empty line after it.
pub proof fn lemma_split_joined(lines: Seq<Seq<char>>)
    requires
        forall|i: int| 0 <= i < lines.len() ==> is_line(#[trigger] lines[i]),
    ensures
        split_lines(joined(lines)) == lines,
    decreases lines.len(),
{
    if lines.len() > 0 {
        let rest = lines.drop_first();
        assert forall|i: int| 0 <= i < rest.len() implies is_line(#[trigger] rest[i]) by {
            assert(rest[i] == lines[i + 1]);
        }
        lemma_split_joined(rest);
        lemma_first_line(lines.first(), joined(rest));
        assert(seq![lines.first()] + rest =~= lines);
    }
}

/// Splitting gives back the lines that a text was made of also where the
/// last line has no line feed after it, as long as that line is not empty.
pub proof fn lemma_split_unterminated(lines: Seq<Seq<char>>)
    requires
        lines.len() > 0,
        lines.last().len() > 0,
        forall|i: int| 0 <= i < lines.len() ==> is_line(#[trigger] lines[i]),
    ensures
        joined(lines).len() > 0,
        joined(lines).last() == '\n',
        split_lines(joined(lines).drop_last()) == lines,
    decreases lines.len(),
{
    let first = lines.first();
    let rest = lines.drop_first();
    if rest.len() == 0 {
        assert(joined(rest) =~= Seq::<char>::empty());
        assert(joined(lines).drop_last() =~= first);
        lemma_only_line(first);
        assert(seq![first] =~= lines);
    } else {
        assert forall|i: int| 0 <= i < rest.len() implies is_line(#[trigger] rest[i]) by {
            assert(rest[i] == lines[i + 1]);
        }
        assert(rest.last() == lines.last());
        lemma_split_unterminated(rest);
        let tail = joined(rest).drop_last();
        assert(joined(lines).drop_last() =~= first + seq!['\n'] + tail);
        lemma_first_line(first, tail);
        assert(seq![first] + rest =~= lines);
    }
}

/// An ordered sequence of text lines. An empty buffer stands for "no file
/// loaded".
#[derive(Debug, PartialEq, Eq)]
pub struct Buffer {
    pub lines: Vec<String>,
}

impl View for Buffer {
    type V = Seq<Seq<char>>;

    open spec fn view(&self) -> Seq<Seq<char>> {
        texts(self.lines@)
    }
}

impl Default for Buffer {
    fn default() -> (buffer: Buffer)
        ensures
            buffer@ == Seq::<Seq<char>>::empty(),
    {
        let buffer = Buffer { lines: Vec::new() };
        buffer
    }
}

impl Buffer {
    /// The buffer that holds the lines of `text`.
    pub fn from_text(text: &str) -> (buffer: Buffer)
        ensures
            buffer@ == split_lines(text@),
    {
        let chars = chars_of(text);
        let mut buffer = Buffer { lines: Vec::new() };
        let mut start: usize = 0;
        while start < chars.len()
            invariant
                start <= chars.len(),
                buffer@ + lines_from(chars@, start as int) == split_lines(chars@),
            decreases chars.len() - start,
        {
            let mut end: usize = start;
            while end < chars.len() && chars[end] != '\n'
                invariant
                    start <= end <= chars.len(),
                    line_end(chars@, end as int) == line_end(chars@, start as int),
                decreases chars.len() - end,
            {
                end += 1;
            }
            let terminated = end < chars.len();
            let stop = if terminated && start < end && chars[end - 1] == '\r' {
                end - 1
            } else {
                end
            };
            let line = string_of(&chars, start, stop);
            let ghost before = buffer@;
            let ghost rest = lines_from(chars@, end + 1);
            assert(line@ == line_content(chars@, start as int, end as int));
            assert(lines_from(chars@, start as int) == seq![line@] + rest);
            buffer.lines.push(line);
            assert(buffer@ =~= before.push(line@));
            assert(before.push(line@) + rest =~= before + (seq![line@] + rest));
            if terminated {
                start = end + 1;
            } else {
                start = end;
                assert(rest =~= lines_from(chars@, start as int));
            }
        }
        assert(buffer@ + lines_from(chars@, start as int) =~= buffer@);
        buffer
    }

    /// Builds a buffer from what reading a source gave: its text, or the
    /// reason why it could not be read.
    pub fn load(source: Result<&str, LoadError>) -> (loaded: Result<Buffer, LoadError>)
        ensures
            match source {
                Ok(text) => loaded matches Ok(buffer) && buffer@ == split_lines(text@),
                Err(error) => loaded == Err::<Buffer, LoadError>(error),
            },
    {
        match source {
            Ok(text) => Ok(Buffer::from_text(text)),
            Err(error) => Err(error),
        }
    }

    /// Whether the buffer holds no line.
    pub fn is_empty(&self) -> (empty: bool)
        ensures
            empty == (self@.len() == 0),
    {
        self.lines.len() == 0
    }

    /// The number of lines.
    pub fn len(&self) -> (count: usize)
        ensures
            count == self@.len(),
    {
        self.lines.len()
    }
}

} // verus!

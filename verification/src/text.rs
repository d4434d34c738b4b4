//! Operations on text as sequences of characters: cutting a line to a width,
//! centring a message, trimming blanks.

use vstd::prelude::*;

verus! {

/// `String::push` of the standard library: the string afterwards is the
/// string before with `ch` as one more character at its end.
pub assume_specification[ String::push ](s: &mut String, ch: char)
    ensures
        final(s)@ == old(s)@.push(ch),
;

/// Whether a character counts as blank: the answer of `char::is_whitespace`
/// of the standard library, which goes by the Unicode property `White_Space`.
pub uninterp spec fn white_space(c: char) -> bool;

/// `char::is_whitespace` of the standard library. Its answer depends on the
/// character alone, and is what [`white_space`] names.
pub assume_specification[ char::is_whitespace ](c: char) -> (blank: bool)
    ensures
        blank == white_space(c),
;

/// The character sequences of `lines`, in order.
pub open spec fn texts(lines: Seq<String>) -> Seq<Seq<char>> {
    lines.map_values(|line: String| line@)
}

/// `line` cut to at most `width` characters.
pub open spec fn truncated(line: Seq<char>, width: nat) -> Seq<char> {
    if line.len() <= width {
        line
    } else {
        line.take(width as int)
    }
}

/// `count` spaces.
pub open spec fn spaces(count: nat) -> Seq<char> {
    Seq::new(count, |i: int| ' ')
}

/// `message` in the middle of a field of `columns` characters, padded with
/// spaces on both sides; where the padding is odd the right side gets the
/// extra space. A message that is too long for the field is left as it is.
pub open spec fn centered(message: Seq<char>, columns: nat) -> Seq<char> {
    if columns <= message.len() {
        message
    } else {
        let padding = (columns - message.len()) as nat;
        let left = padding / 2;
        spaces(left) + message + spaces((padding - left) as nat)
    }
}

/// The index of the first `mark` in `text` at or after `from`, or the length
/// of `text` when there is none.
pub open spec fn position_of(text: Seq<char>, mark: char, from: int) -> int
    decreases text.len() - from,
{
    if from < 0 || from >= text.len() || text[from] == mark {
        from
    } else {
        position_of(text, mark, from + 1)
    }
}

/// The characters of `marked`, without their marks.
pub open spec fn letters(marked: Seq<(char, bool)>) -> Seq<char> {
    marked.map_values(|entry: (char, bool)| entry.0)
}

/// The index of the first entry of `marked` at or after `from` that is not
/// marked, or the length of `marked` when there is none.
pub open spec fn solid_start(marked: Seq<(char, bool)>, from: int) -> int
    decreases marked.len() - from,
{
    if from < 0 || from >= marked.len() || !marked[from].1 {
        from
    } else {
        solid_start(marked, from + 1)
    }
}

/// The index just past the last entry of `marked` before `to` that is not
/// marked, or zero when there is none.
pub open spec fn solid_end(marked: Seq<(char, bool)>, to: int) -> int
    decreases to,
{
    if to <= 0 || to > marked.len() || !marked[to - 1].1 {
        to
    } else {
        solid_end(marked, to - 1)
    }
}

/// The characters of `marked` from the first that is not marked to the last
/// that is not marked; none where all are marked.
pub open spec fn stripped(marked: Seq<(char, bool)>) -> Seq<char> {
    let start = solid_start(marked, 0);
    let end = solid_end(marked, marked.len() as int);
    if start < end {
        letters(marked.subrange(start, end))
    } else {
        Seq::empty()
    }
}

/// Each character of `text` with a mark that says whether it is blank.
pub open spec fn blank_marked(text: Seq<char>) -> Seq<(char, bool)> {
    text.map_values(|c: char| (c, white_space(c)))
}

/// `text` without its leading and trailing blanks.
pub open spec fn trimmed(text: Seq<char>) -> Seq<char> {
    stripped(blank_marked(text))
}

/// The part of `text` before the first `mark`; all of it when `mark` does
/// not occur.
pub open spec fn before(text: Seq<char>, mark: char) -> Seq<char> {
    text.take(position_of(text, mark, 0))
}

proof fn lemma_position_of(text: Seq<char>, mark: char, from: int)
    requires
        0 <= from <= text.len(),
    ensures
        from <= position_of(text, mark, from) <= text.len(),
        forall|i: int| from <= i < position_of(text, mark, from) ==> text[i] != mark,
        position_of(text, mark, from) < text.len() ==> text[position_of(text, mark, from)] == mark,
    decreases text.len() - from,
{
    if from < text.len() && text[from] != mark {
        lemma_position_of(text, mark, from + 1);
    }
}

proof fn lemma_solid_start(marked: Seq<(char, bool)>, from: int)
    requires
        0 <= from <= marked.len(),
    ensures
        from <= solid_start(marked, from) <= marked.len(),
        forall|i: int| from <= i < solid_start(marked, from) ==> marked[i].1,
        solid_start(marked, from) < marked.len() ==> !marked[solid_start(marked, from)].1,
    decreases marked.len() - from,
{
    if from < marked.len() && marked[from].1 {
        lemma_solid_start(marked, from + 1);
    }
}

proof fn lemma_solid_end(marked: Seq<(char, bool)>, to: int)
    requires
        0 <= to <= marked.len(),
    ensures
        0 <= solid_end(marked, to) <= to,
        forall|i: int| solid_end(marked, to) <= i < to ==> marked[i].1,
        0 < solid_end(marked, to) ==> !marked[solid_end(marked, to) - 1].1,
    decreases to,
{
    if to > 0 && marked[to - 1].1 {
        lemma_solid_end(marked, to - 1);
    }
}

/// The part before the first `mark` is the longest beginning of `text` that
/// holds no `mark`: there is none in it, and what follows it in `text`, if
/// anything, is a `mark`.
pub proof fn lemma_before_is_markless(text: Seq<char>, mark: char)
    ensures
        before(text, mark).len() <= text.len(),
        before(text, mark) == text.take(before(text, mark).len() as int),
        forall|i: int| 0 <= i < before(text, mark).len() ==> before(text, mark)[i] != mark,
        before(text, mark).len() < text.len() ==> text[before(text, mark).len() as int] == mark,
{
    lemma_position_of(text, mark, 0);
}

/// Stripping cuts marked characters at the ends and nothing else: the
/// characters are marked ones, then the stripped ones, then marked ones, and
/// the stripped ones neither begin nor end with a marked one.
pub proof fn lemma_stripped_is_core(marked: Seq<(char, bool)>)
    ensures
        ({
            let start = solid_start(marked, 0);
            let inner = stripped(marked);
            &&& 0 <= start
            &&& start + inner.len() <= marked.len()
            &&& inner == letters(marked.subrange(start, start + inner.len()))
            &&& forall|i: int| 0 <= i < start ==> marked[i].1
            &&& forall|i: int| start + inner.len() <= i < marked.len() ==> marked[i].1
            &&& inner.len() > 0 ==> !marked[start].1 && !marked[start + inner.len() - 1].1
        }),
{
    let start = solid_start(marked, 0);
    let end = solid_end(marked, marked.len() as int);
    lemma_solid_start(marked, 0);
    lemma_solid_end(marked, marked.len() as int);
    if start < end {
        assert(stripped(marked) =~= letters(marked.subrange(start, end)));
    } else {
        assert(stripped(marked) =~= letters(marked.subrange(start, start)));
    }
}

/// Trimming cuts blanks and nothing else: the text is blanks, then the
/// trimmed text, then blanks, and the trimmed text neither begins nor ends
/// with a blank.
pub proof fn lemma_trimmed_is_core(text: Seq<char>)
    ensures
        ({
            let start = solid_start(blank_marked(text), 0);
            let inner = trimmed(text);
            &&& 0 <= start
            &&& start + inner.len() <= text.len()
            &&& inner == text.subrange(start, start + inner.len())
            &&& forall|i: int| 0 <= i < start ==> white_space(text[i])
            &&& forall|i: int| start + inner.len() <= i < text.len() ==> white_space(text[i])
            &&& inner.len() > 0 ==> !white_space(inner.first()) && !white_space(inner.last())
        }),
{
    let marked = blank_marked(text);
    let start = solid_start(marked, 0);
    let inner = trimmed(text);
    lemma_stripped_is_core(marked);
    assert(letters(marked.subrange(start, start + inner.len())) =~= text.subrange(
        start,
        start + inner.len(),
    ));
    assert forall|i: int| 0 <= i < start implies white_space(text[i]) by {
        assert(marked[i].1);
    }
    assert forall|i: int| start + inner.len() <= i < text.len() implies white_space(text[i]) by {
        assert(marked[i].1);
    }
    if inner.len() > 0 {
        assert(!marked[start].1);
        assert(!marked[start + inner.len() - 1].1);
    }
}

/// The characters of `text`, in order.
pub fn chars_of(text: &str) -> (chars: Vec<char>)
    ensures
        chars@ == text@,
{
    broadcast use vstd::string::axiom_spec_iter;

    let mut chars: Vec<char> = Vec::new();
    let it = text.chars();
    for c in iter: it
        invariant
            iter.seq() == text@,
            chars@ == text@.take(iter.index()),
    {
        assert(text@.take(iter.index() + 1) =~= text@.take(iter.index()).push(c));
        chars.push(c);
    }
    assert(text@.take(text@.len() as int) =~= text@);
    chars
}

/// The string made of the characters `chars[from..to]`.
pub fn string_of(chars: &Vec<char>, from: usize, to: usize) -> (text: String)
    requires
        from <= to <= chars.len(),
    ensures
        text@ == chars@.subrange(from as int, to as int),
{
    let mut text = String::new();
    let mut i: usize = from;
    assert(chars@.subrange(from as int, from as int) =~= Seq::<char>::empty());
    while i < to
        invariant
            from <= i <= to <= chars.len(),
            text@ == chars@.subrange(from as int, i as int),
        decreases to - i,
    {
        text.push(chars[i]);
        assert(chars@.subrange(from as int, i + 1) =~= chars@.subrange(from as int, i as int).push(
            chars@[i as int],
        ));
        i += 1;
    }
    text
}

/// Cuts `line` to at most `width` characters.
pub fn truncate(line: &str, width: usize) -> (cut: String)
    ensures
        cut@ == truncated(line@, width as nat),
{
    if line.unicode_len() <= width {
        line.to_owned()
    } else {
        line.substring_char(0, width).to_owned()
    }
}

/// Centres `message` in a field of `columns` characters.
pub fn center(message: &str, columns: usize) -> (field: String)
    ensures
        field@ == centered(message@, columns as nat),
{
    let length = message.unicode_len();
    if columns <= length {
        return message.to_owned();
    }
    let padding: usize = columns - length;
    let left: usize = padding / 2;
    let right: usize = padding - left;
    let mut field = String::new();
    let mut i: usize = 0;
    while i < left
        invariant
            i <= left,
            field@ == spaces(i as nat),
        decreases left - i,
    {
        field.push(' ');
        i += 1;
        assert(field@ =~= spaces(i as nat));
    }
    field.append(message);
    let mut j: usize = 0;
    while j < right
        invariant
            j <= right,
            field@ == spaces(left as nat) + message@ + spaces(j as nat),
        decreases right - j,
    {
        field.push(' ');
        j += 1;
        assert(field@ =~= spaces(left as nat) + message@ + spaces(j as nat));
    }
    field
}

/// The characters of `marked` from the first that is not marked to the last
/// that is not marked.
pub fn strip(marked: &Vec<(char, bool)>) -> (inner: String)
    ensures
        inner@ == stripped(marked@),
{
    let mut start: usize = 0;
    while start < marked.len() && marked[start].1
        invariant
            start <= marked.len(),
            solid_start(marked@, start as int) == solid_start(marked@, 0),
        decreases marked.len() - start,
    {
        start += 1;
    }
    let mut end: usize = marked.len();
    while end > 0 && marked[end - 1].1
        invariant
            end <= marked.len(),
            solid_end(marked@, end as int) == solid_end(marked@, marked@.len() as int),
        decreases end,
    {
        end -= 1;
    }
    let mut inner = String::new();
    if start < end {
        let mut i: usize = start;
        assert(letters(marked@.subrange(start as int, start as int)) =~= Seq::<char>::empty());
        while i < end
            invariant
                start <= i <= end <= marked.len(),
                inner@ == letters(marked@.subrange(start as int, i as int)),
            decreases end - i,
        {
            inner.push(marked[i].0);
            assert(letters(marked@.subrange(start as int, i + 1)) =~= letters(
                marked@.subrange(start as int, i as int),
            ).push(marked@[i as int].0));
            i += 1;
        }
    }
    inner
}

/// Removes the blanks at both ends of `text`.
pub fn trim(text: &str) -> (inner: String)
    ensures
        inner@ == trimmed(text@),
{
    let chars = chars_of(text);
    let mut marked: Vec<(char, bool)> = Vec::new();
    let mut i: usize = 0;
    assert(marked@ =~= blank_marked(chars@.take(0)));
    while i < chars.len()
        invariant
            i <= chars.len(),
            marked@ == blank_marked(chars@.take(i as int)),
        decreases chars.len() - i,
    {
        let c = chars[i];
        marked.push((c, c.is_whitespace()));
        assert(marked@ =~= blank_marked(chars@.take(i + 1)));
        i += 1;
    }
    assert(chars@.take(chars@.len() as int) =~= chars@);
    strip(&marked)
}

/// The part of `text` before the first `mark`.
pub fn prefix_before(text: &str, mark: char) -> (prefix: String)
    ensures
        prefix@ == before(text@, mark),
{
    let chars = chars_of(text);
    let mut end: usize = 0;
    while end < chars.len() && chars[end] != mark
        invariant
            end <= chars.len(),
            position_of(chars@, mark, end as int) == position_of(chars@, mark, 0),
        decreases chars.len() - end,
    {
        end += 1;
    }
    string_of(&chars, 0, end)
}

} // verus!

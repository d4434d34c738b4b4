//! The grid view: what the terminal shows for a buffer and a size.
//!
//! A frame is a sequence of rows, top row first. With a buffer that holds
//! lines, each row shows the line of the same index cut to the width, or a
//! filler `~` past the last line. With an empty buffer, a four-line welcome
//! block stands a third of the way down, between fillers.

use crate::buffer::{
    is_line, joined, lemma_lines_of_text, lemma_split_joined, split_lines, Buffer, LoadError,
};
use crate::terminal::{cell, row_ops, row_starts, Op, Size, Terminal};
use crate::text::{
    before, center, centered, prefix_before, texts, trim, trimmed, truncate, truncated,
};
use vstd::prelude::*;
// The trait shares its name with the struct of this module; it is brought in
// unnamed, for `@` on strings and buffers.
use vstd::view::View as _;

verus! {

/// The name under which the program presents itself.
pub const NAME: &'static str = "textgrid";

/// The version that the welcome banner shows.
pub const VERSION: &'static str = "0.1.0";

/// The authors, as a name followed by an address in angle brackets.
pub const AUTHORS: &'static str = "The textgrid authors <authors@textgrid.invalid>";

/// The name in an authors entry: what stands before the first `<`, without
/// the blanks around it.
pub open spec fn name_in(authors: Seq<char>) -> Seq<char> {
    trimmed(before(authors, '<'))
}

/// The row that marks a place without content.
pub open spec fn filler() -> Seq<char> {
    seq!['~']
}

/// The first line of the welcome block.
pub open spec fn banner() -> Seq<char> {
    "Welcome to "@ + NAME@ + " editor v"@ + VERSION@
}

/// The second line of the welcome block.
pub open spec fn credit() -> Seq<char> {
    "Written by "@ + name_in(AUTHORS@)
}

/// The last line of the welcome block.
pub open spec fn invitation() -> Seq<char> {
    "Start writing something now!"@
}

/// A welcome line for a grid of `width` columns: a `~` margin, then
/// `message` centred in the `width - 1` columns that remain. A message that
/// would not leave room for the margin gives way to a bare filler.
pub open spec fn fitted(message: Seq<char>, width: nat) -> Seq<char> {
    if width <= message.len() {
        filler()
    } else {
        filler() + centered(message, (width - 1) as nat)
    }
}

/// The welcome block for a grid of `width` columns.
pub open spec fn welcome(width: nat) -> Seq<Seq<char>> {
    if width == 0 {
        seq![seq![' ']]
    } else {
        seq![
            fitted(banner(), width),
            fitted(credit(), width),
            filler(),
            fitted(invitation(), width),
        ]
    }
}

/// The row on which the welcome block starts.
pub open spec fn welcome_top(size: Size) -> int {
    size.height as int / 3
}

/// The number of rows of a frame. A frame covers the grid and one row past
/// it: rows `0..=height` are always there. The welcome block may reach
/// further down.
pub open spec fn frame_len(lines: Seq<Seq<char>>, size: Size) -> nat {
    let bottom = welcome_top(size) + welcome(size.width as nat).len();
    if lines.len() == 0 && bottom > size.height + 1 {
        bottom as nat
    } else {
        (size.height + 1) as nat
    }
}

/// What row `row` of a frame shows: on the grid, the line of that index cut
/// to the width, if the buffer has one; a line of the welcome block, if the
/// buffer is empty and the block covers the row; a filler otherwise.
pub open spec fn row_text(lines: Seq<Seq<char>>, size: Size, row: int) -> Seq<char> {
    let top = welcome_top(size);
    let block = welcome(size.width as nat);
    if 0 <= row < lines.len() && row < size.height {
        truncated(lines[row], size.width as nat)
    } else if lines.len() == 0 && top <= row < top + block.len() {
        block[row - top]
    } else {
        filler()
    }
}

/// The frame for `lines` on a grid of `size`.
pub open spec fn frame(lines: Seq<Seq<char>>, size: Size) -> Seq<Seq<char>> {
    Seq::new(frame_len(lines, size), |row: int| row_text(lines, size, row))
}

/// The terminal operations that draw `rows`, top row first.
pub open spec fn frame_ops(rows: Seq<Seq<char>>) -> Seq<Op>
    decreases rows.len(),
{
    if rows.len() == 0 {
        Seq::empty()
    } else {
        frame_ops(rows.drop_last()) + row_ops(rows.len() - 1, rows.last())
    }
}

proof fn lemma_frame_ops_next(rows: Seq<Seq<char>>, row: int)
    requires
        0 <= row < rows.len(),
    ensures
        frame_ops(rows.take(row + 1)) == frame_ops(rows.take(row)) + row_ops(row, rows[row]),
{
    assert(rows.take(row + 1).drop_last() =~= rows.take(row));
}

/// Drawing a frame takes three operations a row, a caret move, a line clear
/// and a print, and none of them is a flush.
pub proof fn lemma_frame_ops_shape(rows: Seq<Seq<char>>)
    ensures
        frame_ops(rows).len() == 3 * rows.len(),
        forall|row: int|
            0 <= row < rows.len() ==> {
                &&& (#[trigger] frame_ops(rows)[3 * row]) == (Op::MoveCaretTo {
                    col: 0,
                    row: cell(row),
                })
                &&& frame_ops(rows)[3 * row + 1] == Op::ClearLine
                &&& frame_ops(rows)[3 * row + 2] == Op::Print(rows[row])
            },
        forall|i: int| 0 <= i < frame_ops(rows).len() ==> frame_ops(rows)[i] != Op::Flush,
    decreases rows.len(),
{
    if rows.len() > 0 {
        let head = rows.drop_last();
        lemma_frame_ops_shape(head);
        let last = rows.len() - 1;
        assert forall|row: int| 0 <= row < rows.len() implies {
            &&& (#[trigger] frame_ops(rows)[3 * row]) == (Op::MoveCaretTo {
                col: 0,
                row: cell(row),
            })
            &&& frame_ops(rows)[3 * row + 1] == Op::ClearLine
            &&& frame_ops(rows)[3 * row + 2] == Op::Print(rows[row])
        } by {
            if row < last {
                assert(frame_ops(head)[3 * row] == (Op::MoveCaretTo { col: 0, row: cell(row) }));
                assert(head[row] == rows[row]);
            }
        }
        assert forall|i: int| 0 <= i < frame_ops(rows).len() implies frame_ops(rows)[i]
            != Op::Flush by {
            if i < 3 * last {
                assert(frame_ops(rows)[i] == frame_ops(head)[i]);
            }
        }
    }
}

/// In what draws a frame, a row starts at every third operation.
pub proof fn lemma_frame_ops_are_rows(rows: Seq<Seq<char>>, row: int)
    requires
        0 <= row < rows.len(),
    ensures
        row_starts(frame_ops(rows), 3 * row),
{
    lemma_frame_ops_shape(rows);
    assert(frame_ops(rows)[3 * row] == (Op::MoveCaretTo { col: 0, row: cell(row) }));
}

/// A welcome line is as wide as the grid, or a bare filler.
pub proof fn lemma_fitted_width(message: Seq<char>, width: nat)
    ensures
        fitted(message, width).len() == if width <= message.len() {
            1
        } else {
            width
        },
{
}

/// No row of a frame is wider than the grid: on a grid with columns, every
/// row has at most `width` characters. Nothing that is drawn wraps.
pub proof fn lemma_rows_fit_width(lines: Seq<Seq<char>>, size: Size)
    requires
        size.width > 0,
    ensures
        forall|row: int|
            0 <= row < frame(lines, size).len() ==> (#[trigger] frame(lines, size)[row]).len()
                <= size.width,
{
    let width = size.width as nat;
    lemma_fitted_width(banner(), width);
    lemma_fitted_width(credit(), width);
    lemma_fitted_width(invitation(), width);
}

/// The number of buffer lines on show: all of them, or as many as the grid
/// has rows.
pub open spec fn lines_shown(lines: Seq<Seq<char>>, size: Size) -> int {
    if lines.len() <= size.height {
        lines.len() as int
    } else {
        size.height as int
    }
}

/// With a buffer of `n` lines, `n` at least one, on a grid of `height` rows,
/// the frame shows exactly the first `min(n, height)` lines, in their order
/// and each cut to the width, on the rows of the same index, and a filler on
/// every row after them, the row past the grid included.
pub proof fn lemma_content_rows(lines: Seq<Seq<char>>, size: Size)
    requires
        lines.len() > 0,
    ensures
        frame(lines, size).len() == size.height + 1,
        forall|row: int|
            0 <= row < lines_shown(lines, size) ==> #[trigger] frame(lines, size)[row] == truncated(
                lines[row],
                size.width as nat,
            ),
        forall|row: int|
            lines_shown(lines, size) <= row <= size.height ==> #[trigger] frame(lines, size)[row]
                == filler(),
{
}

/// With an empty buffer, the grid shows the welcome block on the rows from a
/// third of the height on, and a filler on every other row.
pub proof fn lemma_welcome_rows(size: Size)
    ensures
        forall|row: int|
            0 <= row < frame(Seq::empty(), size).len() ==> #[trigger] frame(Seq::empty(), size)[row]
                == if welcome_top(size) <= row < welcome_top(size) + welcome(
                size.width as nat,
            ).len() {
                welcome(size.width as nat)[row - welcome_top(size)]
            } else {
                filler()
            },
        size.width > 0 ==> welcome(size.width as nat).len() == 4,
        welcome_top(size) + welcome(size.width as nat).len() <= frame(Seq::empty(), size).len(),
{
}

/// A file of `n` lines, `n` at least one, loaded and shown on a grid of
/// `height` rows, shows exactly its first `min(n, height)` lines, in their
/// order and each cut to the width, and a filler on every row after them.
pub proof fn lemma_file_rows(lines: Seq<Seq<char>>, size: Size)
    requires
        lines.len() > 0,
        forall|i: int| 0 <= i < lines.len() ==> is_line(#[trigger] lines[i]),
    ensures
        frame(split_lines(joined(lines)), size).len() == size.height + 1,
        forall|row: int|
            0 <= row < lines_shown(lines, size) ==> #[trigger] frame(
                split_lines(joined(lines)),
                size,
            )[row] == truncated(lines[row], size.width as nat),
        forall|row: int|
            lines_shown(lines, size) <= row <= size.height ==> #[trigger] frame(
                split_lines(joined(lines)),
                size,
            )[row] == filler(),
{
    lemma_split_joined(lines);
    lemma_content_rows(lines, size);
}

/// The welcome block shows only while the buffer is empty: with any text
/// loaded that has a line, be it an empty one, every row is a line of that
/// text or a filler.
pub proof fn lemma_loaded_text_shows(text: Seq<char>, size: Size)
    requires
        text.len() > 0,
    ensures
        split_lines(text).len() > 0,
        forall|row: int|
            0 <= row <= size.height ==> #[trigger] frame(split_lines(text), size)[row] == if row
                < lines_shown(split_lines(text), size) {
                truncated(split_lines(text)[row], size.width as nat)
            } else {
                filler()
            },
{
    lemma_lines_of_text(text);
    lemma_content_rows(split_lines(text), size);
}

/// The state of a [`View`] as contracts see it.
pub struct ViewState {
    /// The lines of the buffer.
    pub lines: Seq<Seq<char>>,
    /// Whether what is on screen may differ from what the state asks for.
    pub needs_redraw: bool,
    /// The size of the grid, as last reported.
    pub size: Size,
}

impl ViewState {
    /// Whether a render call draws: the screen is stale and the grid has
    /// cells.
    pub open spec fn draws(self) -> bool {
        self.needs_redraw && self.size.height > 0 && self.size.width > 0
    }

    /// What a render call appends to the terminal's transcript.
    pub open spec fn render_ops(self) -> Seq<Op> {
        if self.draws() {
            frame_ops(frame(self.lines, self.size))
        } else {
            Seq::empty()
        }
    }

    /// The state after a render call: fresh if the call drew, the same
    /// otherwise.
    pub open spec fn rendered(self) -> ViewState {
        if self.draws() {
            ViewState { needs_redraw: false, ..self }
        } else {
            self
        }
    }
}

/// A buffer, the size of the grid it is shown on, and a flag that says
/// whether the screen is stale.
pub struct View {
    buffer: Buffer,
    needs_redraw: bool,
    size: Size,
}

impl vstd::view::View for View {
    type V = ViewState;

    closed spec fn view(&self) -> ViewState {
        ViewState { lines: self.buffer@, needs_redraw: self.needs_redraw, size: self.size }
    }
}

/// The name of the first author.
pub fn author_name() -> (name: String)
    ensures
        name@ == name_in(AUTHORS@),
{
    let prefix = prefix_before(AUTHORS, '<');
    trim(prefix.as_str())
}

fn filler_row() -> (row: String)
    ensures
        row@ == filler(),
{
    proof {
        reveal_strlit("~");
    }
    let row = "~".to_owned();
    row
}

impl View {
    /// A view of an empty buffer on a grid of `size`, not yet drawn.
    pub fn new(size: Size) -> (view: View)
        ensures
            view@ == (ViewState { lines: Seq::empty(), needs_redraw: true, size }),
    {
        View { buffer: Buffer::default(), needs_redraw: true, size }
    }

    /// Whether the screen is stale.
    pub fn needs_redraw(&self) -> (stale: bool)
        ensures
            stale == self@.needs_redraw,
    {
        self.needs_redraw
    }

    /// The size of the grid, as last reported.
    pub fn size(&self) -> (size: Size)
        ensures
            size == self@.size,
    {
        self.size
    }

    /// The buffer on show.
    pub fn buffer(&self) -> (buffer: &Buffer)
        ensures
            buffer@ == self@.lines,
    {
        &self.buffer
    }

    /// Takes over a new grid size and marks the screen stale.
    pub fn resize(&mut self, to: Size)
        ensures
            final(self)@ == (ViewState { needs_redraw: true, size: to, ..old(self)@ }),
    {
        self.size = to;
        self.needs_redraw = true;
    }

    fn render_line(terminal: &mut Terminal, at: usize, line: &str)
        ensures
            final(terminal)@ == old(terminal)@ + row_ops(at as int, line@),
    {
        terminal.print_row(at, line);
    }

    /// Draws the frame if the screen is stale and the grid has cells, and
    /// then marks the screen fresh. Does nothing otherwise.
    pub fn render(&mut self, terminal: &mut Terminal)
        ensures
            final(self)@ == old(self)@.rendered(),
            final(terminal)@ == old(terminal)@ + old(self)@.render_ops(),
    {
        if !self.needs_redraw {
            return ;
        }
        let Size { height, width } = self.size;
        if height == 0 || width == 0 {
            return ;
        }
        let ghost rows = frame(self@.lines, self.size);
        let ghost start = terminal@;
        assert(rows.take(0) =~= Seq::<Seq<char>>::empty());
        assert(terminal@ =~= start + frame_ops(rows.take(0)));
        let tilde = filler_row();
        if self.buffer.is_empty() {
            let top: usize = height / 3;
            let block = Self::build_welcome_msg(width);
            let mut row: usize = 0;
            while row < top
                invariant
                    row <= top,
                    top == welcome_top(self.size),
                    rows == frame(self@.lines, self.size),
                    self@.lines.len() == 0,
                    top + 4 <= rows.len(),
                    tilde@ == filler(),
                    terminal@ == start + frame_ops(rows.take(row as int)),
                decreases top - row,
            {
                Self::render_line(terminal, row, tilde.as_str());
                proof {
                    lemma_frame_ops_next(rows, row as int);
                }
                row += 1;
            }
            let mut shown: usize = 0;
            while shown < block.len()
                invariant
                    shown <= block.len() == 4,
                    top == welcome_top(self.size),
                    top + 4 <= usize::MAX,
                    rows == frame(self@.lines, self.size),
                    self@.lines.len() == 0,
                    top + 4 <= rows.len(),
                    texts(block@) == welcome(self.size.width as nat),
                    terminal@ == start + frame_ops(rows.take(top + shown)),
                decreases block.len() - shown,
            {
                Self::render_line(terminal, top + shown, block[shown].as_str());
                proof {
                    lemma_frame_ops_next(rows, top + shown);
                }
                shown += 1;
            }
            let mut row: usize = top + 4;
            if row <= height {
                while row < height
                    invariant
                        top + 4 <= row <= height,
                        top == welcome_top(self.size),
                        height == self.size.height,
                        rows == frame(self@.lines, self.size),
                        rows.len() == height + 1,
                        self@.lines.len() == 0,
                        tilde@ == filler(),
                        terminal@ == start + frame_ops(rows.take(row as int)),
                    decreases height - row,
                {
                    Self::render_line(terminal, row, tilde.as_str());
                    proof {
                        lemma_frame_ops_next(rows, row as int);
                    }
                    row += 1;
                }
                Self::render_line(terminal, height, tilde.as_str());
                proof {
                    lemma_frame_ops_next(rows, height as int);
                }
            }
        } else {
            let mut row: usize = 0;
            while row < height
                invariant
                    row <= height,
                    height == self.size.height,
                    width == self.size.width,
                    rows == frame(self@.lines, self.size),
                    rows.len() == height + 1,
                    self@.lines.len() > 0,
                    tilde@ == filler(),
                    terminal@ == start + frame_ops(rows.take(row as int)),
                decreases height - row,
            {
                self.render_content(terminal, row, &tilde);
                proof {
                    lemma_frame_ops_next(rows, row as int);
                }
                row += 1;
            }
            self.render_content(terminal, height, &tilde);
            proof {
                lemma_frame_ops_next(rows, height as int);
            }
        }
        assert(rows.take(rows.len() as int) =~= rows);
        self.needs_redraw = false;
    }

    fn render_content(&self, terminal: &mut Terminal, row: usize, tilde: &String)
        requires
            self@.lines.len() > 0,
            tilde@ == filler(),
        ensures
            final(terminal)@ == old(terminal)@ + row_ops(
                row as int,
                row_text(self@.lines, self@.size, row as int),
            ),
    {
        if row < self.buffer.lines.len() && row < self.size.height {
            let cut = truncate(self.buffer.lines[row].as_str(), self.size.width);
            Self::render_line(terminal, row, cut.as_str());
        } else {
            Self::render_line(terminal, row, tilde.as_str());
        }
    }

    /// Shows the text that reading a source gave, and marks the screen
    /// stale. Where the source could not be read, nothing changes.
    pub fn load(&mut self, source: Result<&str, LoadError>)
        ensures
            match source {
                Ok(text) => final(self)@ == (ViewState {
                    lines: split_lines(text@),
                    needs_redraw: true,
                    ..old(self)@
                }),
                Err(_) => final(self)@ == old(self)@,
            },
    {
        if let Ok(buffer) = Buffer::load(source) {
            self.buffer = buffer;
            self.needs_redraw = true;
        }
    }

    /// Appends the welcome line for `msg` on a grid of `width` columns.
    pub fn push_if_fits(vec: &mut Vec<String>, msg: &str, width: usize)
        ensures
            texts(final(vec)@) == texts(old(vec)@).push(fitted(msg@, width as nat)),
    {
        let cols = width.saturating_sub(1);
        let len = msg.unicode_len();
        let mut line = filler_row();
        if len < width {
            let field = center(msg, cols);
            line.append(field.as_str());
        }
        vec.push(line);
    }

    /// The lines of the welcome block for a grid of `width` columns.
    pub fn build_welcome_msg(width: usize) -> (block: Vec<String>)
        ensures
            texts(block@) == welcome(width as nat),
    {
        let mut ret_list: Vec<String> = Vec::new();
        if width == 0 {
            proof {
                reveal_strlit(" ");
            }
            let blank = " ".to_owned();
            assert(blank@ =~= seq![' ']);
            ret_list.push(blank);
            assert(texts(ret_list@) =~= welcome(width as nat));
            return ret_list;
        }

        let mut msg = "Welcome to ".to_owned();
        msg.append(NAME);
        msg.append(" editor v");
        msg.append(VERSION);
        Self::push_if_fits(&mut ret_list, msg.as_str(), width);

        let mut msg = "Written by ".to_owned();
        msg.append(author_name().as_str());
        Self::push_if_fits(&mut ret_list, msg.as_str(), width);

        let ghost two = texts(ret_list@);
        ret_list.push(filler_row());
        assert(texts(ret_list@) =~= two.push(filler()));

        Self::push_if_fits(&mut ret_list, "Start writing something now!", width);
        assert(texts(ret_list@) =~= welcome(width as nat));
        ret_list
    }
}

} // verus!

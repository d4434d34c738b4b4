//! The terminal as an ordered transcript of operations.
//!
//! Every operation of the terminal driver appends one or more [`Command`]s to
//! the transcript held by a [`Terminal`]. Nothing is sent anywhere: whoever
//! owns the real device takes the transcript with [`Terminal::take`] and
//! performs its commands in order. A [`Command::Flush`] marks the points at
//! which queued output must reach the screen.

use vstd::prelude::*;

verus! {

/// Character-cell dimensions of the visible terminal area.
#[derive(Clone, Copy, Debug, PartialEq, Eq, Structural)]
pub struct Size {
    pub height: usize,
    pub width: usize,
}

impl Default for Size {
    fn default() -> (size: Size)
        ensures
            size == (Size { height: 0, width: 0 }),
    {
        Size { height: 0, width: 0 }
    }
}

/// Zero-based caret coordinates.
#[derive(Clone, Copy, Debug, PartialEq, Eq, Structural)]
pub struct Position {
    pub col: usize,
    pub row: usize,
}

impl Default for Position {
    fn default() -> (position: Position)
        ensures
            position == (Position { col: 0, row: 0 }),
    {
        Position { col: 0, row: 0 }
    }
}

/// One operation on the terminal device.
#[derive(Debug, PartialEq, Eq)]
pub enum Command {
    /// Switch the input side to raw mode. Takes effect at once.
    EnableRawMode,
    /// Switch the input side back to cooked mode. Takes effect at once.
    DisableRawMode,
    /// Queue a switch to the alternate screen.
    EnterAlternateScreen,
    /// Queue a switch back to the main screen.
    LeaveAlternateScreen,
    /// Queue a clear of the whole screen.
    ClearScreen,
    /// Queue a clear of the line the caret is on.
    ClearLine,
    /// Queue a caret move to the given cell.
    MoveCaretTo { col: u16, row: u16 },
    /// Queue hiding the caret.
    HideCaret,
    /// Queue showing the caret.
    ShowCaret,
    /// Queue text at the caret, neither wrapped nor clipped.
    Print(String),
    /// Send everything queued so far to the device.
    Flush,
}

/// The mathematical value of a [`Command`]: the same operation, with printed
/// text as a sequence of characters.
pub enum Op {
    EnableRawMode,
    DisableRawMode,
    EnterAlternateScreen,
    LeaveAlternateScreen,
    ClearScreen,
    ClearLine,
    MoveCaretTo { col: u16, row: u16 },
    HideCaret,
    ShowCaret,
    Print(Seq<char>),
    Flush,
}

impl View for Command {
    type V = Op;

    open spec fn view(&self) -> Op {
        match *self {
            Command::EnableRawMode => Op::EnableRawMode,
            Command::DisableRawMode => Op::DisableRawMode,
            Command::EnterAlternateScreen => Op::EnterAlternateScreen,
            Command::LeaveAlternateScreen => Op::LeaveAlternateScreen,
            Command::ClearScreen => Op::ClearScreen,
            Command::ClearLine => Op::ClearLine,
            Command::MoveCaretTo { col, row } => Op::MoveCaretTo { col, row },
            Command::HideCaret => Op::HideCaret,
            Command::ShowCaret => Op::ShowCaret,
            Command::Print(text) => Op::Print(text@),
            Command::Flush => Op::Flush,
        }
    }
}

/// A coordinate as the terminal protocol carries it: clamped to the range of
/// sixteen bits, so that what lies beyond 65535 goes to 65535.
pub open spec fn cell(coordinate: int) -> u16 {
    if coordinate < 0 {
        0
    } else if coordinate > 0xFFFF {
        0xFFFF
    } else {
        coordinate as u16
    }
}

/// The caret move to `position`, with both coordinates clamped to sixteen
/// bits.
pub open spec fn caret_move(position: Position) -> Op {
    Op::MoveCaretTo { col: cell(position.col as int), row: cell(position.row as int) }
}

/// What printing `text` on row `row` appends: a move to the start of the
/// row, a clear of that line, and the text.
pub open spec fn row_ops(row: int, text: Seq<char>) -> Seq<Op> {
    seq![Op::MoveCaretTo { col: 0, row: cell(row) }, Op::ClearLine, Op::Print(text)]
}

/// Whether a row starts at index `at` of `ops`: a caret move to column 0, a
/// line clear and a print, one after the other. The three belong together;
/// where one of them fails on the device, the rest of the row is void.
pub open spec fn row_starts(ops: Seq<Op>, at: int) -> bool {
    &&& 0 <= at
    &&& at + 3 <= ops.len()
    &&& ops[at] is MoveCaretTo
    &&& ops[at]->col == 0
    &&& ops[at + 1] is ClearLine
    &&& ops[at + 2] is Print
}

/// What entering the interactive session appends.
pub open spec fn startup_ops() -> Seq<Op> {
    seq![
        Op::EnableRawMode,
        Op::EnterAlternateScreen,
        Op::ClearScreen,
        Op::MoveCaretTo { col: 0, row: 0 },
        Op::Flush,
    ]
}

/// What leaving the interactive session appends.
pub open spec fn shutdown_ops() -> Seq<Op> {
    seq![Op::LeaveAlternateScreen, Op::ShowCaret, Op::Flush, Op::DisableRawMode]
}

/// The size that a size query stands for: the reported `(columns, rows)`, or
/// the empty grid when the query failed.
pub open spec fn reported_size(reported: Option<(u16, u16)>) -> Size {
    match reported {
        Some((columns, rows)) => Size { height: rows as usize, width: columns as usize },
        None => Size { height: 0, width: 0 },
    }
}

/// The operations that `commands` stand for, in order.
pub open spec fn ops_of(commands: Seq<Command>) -> Seq<Op> {
    commands.map_values(|command: Command| command@)
}

/// The transcript of terminal operations that have been asked for and not yet
/// taken by the driver.
pub struct Terminal {
    transcript: Vec<Command>,
}

impl View for Terminal {
    type V = Seq<Op>;

    closed spec fn view(&self) -> Seq<Op> {
        ops_of(self.transcript@)
    }
}

impl Terminal {
    /// A terminal with an empty transcript.
    pub fn new() -> (terminal: Terminal)
        ensures
            terminal@ == Seq::<Op>::empty(),
    {
        let terminal = Terminal { transcript: Vec::new() };
        terminal
    }

    /// Appends one command to the transcript.
    fn queue_cmd(&mut self, command: Command)
        ensures
            final(self)@ == old(self)@.push(command@),
    {
        self.transcript.push(command);
    }

    /// Leaves the session: back to the main screen, caret shown, output
    /// flushed, raw mode off.
    pub fn terminate(&mut self)
        ensures
            final(self)@ == old(self)@ + shutdown_ops(),
    {
        self.leave_alternate_screen();
        self.show_caret();
        self.execute();
        self.queue_cmd(Command::DisableRawMode);
    }

    /// Enters the session: raw mode on, alternate screen, screen cleared,
    /// caret at the origin, output flushed.
    pub fn initialize(&mut self)
        ensures
            final(self)@ == old(self)@ + startup_ops(),
    {
        self.queue_cmd(Command::EnableRawMode);
        self.enter_alternate_screen();
        self.clear_screen();
        self.move_caret_to(Position { col: 0, row: 0 });
        self.execute();
    }

    /// Queues a clear of the whole screen.
    pub fn clear_screen(&mut self)
        ensures
            final(self)@ == old(self)@.push(Op::ClearScreen),
    {
        self.queue_cmd(Command::ClearScreen);
    }

    /// Queues a clear of the line the caret is on.
    pub fn clear_line(&mut self)
        ensures
            final(self)@ == old(self)@.push(Op::ClearLine),
    {
        self.queue_cmd(Command::ClearLine);
    }

    /// Queues a caret move. A coordinate beyond the sixteen bits of the
    /// protocol goes to 65535; nothing wraps around.
    pub fn move_caret_to(&mut self, pos: Position)
        ensures
            final(self)@ == old(self)@.push(caret_move(pos)),
    {
        let col: u16 = if pos.col > 0xFFFF { 0xFFFF } else { pos.col as u16 };
        let row: u16 = if pos.row > 0xFFFF { 0xFFFF } else { pos.row as u16 };
        self.queue_cmd(Command::MoveCaretTo { col, row });
    }

    /// Queues the switch to the alternate screen.
    pub fn enter_alternate_screen(&mut self)
        ensures
            final(self)@ == old(self)@.push(Op::EnterAlternateScreen),
    {
        self.queue_cmd(Command::EnterAlternateScreen);
    }

    /// Queues the switch back to the main screen.
    pub fn leave_alternate_screen(&mut self)
        ensures
            final(self)@ == old(self)@.push(Op::LeaveAlternateScreen),
    {
        self.queue_cmd(Command::LeaveAlternateScreen);
    }

    /// Queues hiding the caret.
    pub fn hide_caret(&mut self)
        ensures
            final(self)@ == old(self)@.push(Op::HideCaret),
    {
        self.queue_cmd(Command::HideCaret);
    }

    /// Queues showing the caret.
    pub fn show_caret(&mut self)
        ensures
            final(self)@ == old(self)@.push(Op::ShowCaret),
    {
        self.queue_cmd(Command::ShowCaret);
    }

    /// Queues `string` at the caret, as it is.
    pub fn print(&mut self, string: &str)
        ensures
            final(self)@ == old(self)@.push(Op::Print(string@)),
    {
        self.queue_cmd(Command::Print(string.to_owned()));
    }

    /// Queues one output line: `line` alone on row `row`.
    pub fn print_row(&mut self, row: usize, line: &str)
        ensures
            final(self)@ == old(self)@ + row_ops(row as int, line@),
    {
        self.move_caret_to(Position { row, col: 0 });
        self.clear_line();
        self.print(line);
    }

    /// Turns the answer of a size query, `(columns, rows)` or nothing when
    /// the query failed, into a [`Size`].
    pub fn size(reported: Option<(u16, u16)>) -> (size: Size)
        ensures
            size == reported_size(reported),
    {
        match reported {
            Some((columns, rows)) => Size { height: rows as usize, width: columns as usize },
            None => Size { height: 0, width: 0 },
        }
    }

    /// Marks the point at which everything queued so far is sent.
    pub fn execute(&mut self)
        ensures
            final(self)@ == old(self)@.push(Op::Flush),
    {
        self.queue_cmd(Command::Flush);
    }

    /// The number of commands in the transcript.
    pub fn len(&self) -> (n: usize)
        ensures
            n == self@.len(),
    {
        self.transcript.len()
    }

    /// The commands recorded so far, oldest first.
    pub fn transcript(&self) -> (commands: &Vec<Command>)
        ensures
            ops_of(commands@) == self@,
    {
        &self.transcript
    }

    /// Whether a row, as [`Terminal::print_row`] records it, starts at index
    /// `at` of `commands`.
    pub fn is_row_start(commands: &Vec<Command>, at: usize) -> (starts: bool)
        ensures
            starts == row_starts(ops_of(commands@), at as int),
    {
        if at >= commands.len() || commands.len() - at < 3 {
            return false;
        }
        let to_margin = match &commands[at] {
            Command::MoveCaretTo { col, .. } => *col == 0,
            _ => false,
        };
        let clears = match &commands[at + 1] {
            Command::ClearLine => true,
            _ => false,
        };
        let prints = match &commands[at + 2] {
            Command::Print(_) => true,
            _ => false,
        };
        to_margin && clears && prints
    }

    /// Hands the transcript to the caller and starts an empty one.
    pub fn take(&mut self) -> (commands: Vec<Command>)
        ensures
            ops_of(commands@) == old(self)@,
            final(self)@ == Seq::<Op>::empty(),
    {
        let mut commands = Vec::new();
        std::mem::swap(&mut commands, &mut self.transcript);
        commands
    }
}

} // verus!

//! The navigation controller: the caret, the quit flag, and the view.
//!
//! The editor is a state machine. An input event, together with the size that
//! the terminal reports at that moment, takes it to its next state; a refresh
//! writes the frame and the caret to the terminal's transcript.

use crate::buffer::{split_lines, LoadError};
use crate::event::{Event, KeyCode, KeyEvent, KeyEventKind, KeyModifiers};
use crate::terminal::{caret_move, shutdown_ops, Op, Position, Size, Terminal};
use crate::view::{frame, lemma_frame_ops_shape, ViewState};
use vstd::prelude::*;

verus! {

/// The index of the last cell along a dimension of `extent` cells; zero for
/// an empty dimension.
pub open spec fn last_index(extent: usize) -> usize {
    if extent > 0 {
        (extent - 1) as usize
    } else {
        0
    }
}

/// Whether `code` is one of the eight keys that move the caret.
pub open spec fn is_move_key(code: KeyCode) -> bool {
    code is Up || code is Down || code is Left || code is Right || code is PageUp
        || code is PageDown || code is Home || code is End
}

/// Whether a pressed key asks to quit: `q` with Control and no other
/// modifier.
pub open spec fn is_quit_key(code: KeyCode, modifiers: KeyModifiers) -> bool {
    code == KeyCode::Char('q') && modifiers == KeyModifiers::spec_control()
}

/// Whether `event` asks to quit: it is a press of the quit key.
pub open spec fn is_quit_event(event: Event) -> bool {
    event matches Event::Key(KeyEvent { code, modifiers, kind: KeyEventKind::Press })
        && is_quit_key(code, modifiers)
}

/// `target` brought into the range of indices along a dimension of `extent`
/// cells: not below zero and not beyond the last index.
pub open spec fn clamped(target: int, extent: usize) -> usize {
    if target < 0 {
        0
    } else if target > last_index(extent) {
        last_index(extent)
    } else {
        target as usize
    }
}

/// Where the caret goes from `at` when `key` is pressed on a grid of `size`.
/// A step goes one cell on and is then brought into the grid: it stops at
/// row and column 0 and at the last row and column, and from outside the
/// grid it lands on the nearest edge. Nothing wraps around.
pub open spec fn moved(at: Position, key: KeyCode, size: Size) -> Position {
    match key {
        KeyCode::Up => Position { row: clamped(at.row - 1, size.height), ..at },
        KeyCode::Down => Position { row: clamped(at.row + 1, size.height), ..at },
        KeyCode::Left => Position { col: clamped(at.col - 1, size.width), ..at },
        KeyCode::Right => Position { col: clamped(at.col + 1, size.width), ..at },
        KeyCode::PageUp => Position { row: 0, ..at },
        KeyCode::PageDown => Position { row: last_index(size.height), ..at },
        KeyCode::Home => Position { col: 0, ..at },
        KeyCode::End => Position { col: last_index(size.width), ..at },
        _ => at,
    }
}

/// The state of an [`Editor`] as contracts see it.
pub struct EditorState {
    /// Whether a quit was asked for.
    pub should_quit: bool,
    /// Where the caret is.
    pub location: Position,
    /// The state of the view.
    pub view: ViewState,
}

/// The state after `event`, when the terminal reports `size` at that moment.
/// A pressed quit key sets the quit flag, a pressed move key moves the caret
/// within `size`, a resize goes to the view, and nothing else has an effect.
pub open spec fn after_event(state: EditorState, event: Event, size: Size) -> EditorState {
    match event {
        Event::Key(KeyEvent { code, modifiers, kind: KeyEventKind::Press }) => {
            if is_quit_key(code, modifiers) {
                EditorState { should_quit: true, ..state }
            } else if is_move_key(code) {
                EditorState { location: moved(state.location, code, size), ..state }
            } else {
                state
            }
        },
        Event::Resize(columns, rows) => EditorState {
            view: ViewState {
                needs_redraw: true,
                size: Size { height: rows as usize, width: columns as usize },
                ..state.view
            },
            ..state
        },
        _ => state,
    }
}

/// What a refresh appends to the terminal's transcript: the caret hidden,
/// the frame if the view draws one, the caret placed and shown, and one
/// flush at the end.
pub open spec fn refresh_ops(state: EditorState) -> Seq<Op> {
    seq![Op::HideCaret] + state.view.render_ops() + seq![
        caret_move(state.location),
        Op::ShowCaret,
        Op::Flush,
    ]
}

/// The state after a refresh.
pub open spec fn refreshed(state: EditorState) -> EditorState {
    EditorState { view: state.view.rendered(), ..state }
}

/// The state in which a step refreshes the screen: the state after the
/// input, if there is one.
pub open spec fn after_input(state: EditorState, input: Option<(Event, Size)>) -> EditorState {
    match input {
        Some((event, size)) => after_event(state, event, size),
        None => state,
    }
}

/// What closing the editor appends to the terminal's transcript: the
/// shutdown of the session and, after a quit, a farewell.
pub open spec fn close_ops(state: EditorState) -> Seq<Op> {
    if state.should_quit {
        shutdown_ops().push(Op::Print("Goodbye!\r\n"@))
    } else {
        shutdown_ops()
    }
}

/// The state after an input: the event of it, taken at the size of it.
pub open spec fn after_turn(state: EditorState, input: (Event, Size)) -> EditorState {
    after_event(state, input.0, input.1)
}

/// The state at the end of a run over `inputs`, oldest first. A run
/// refreshes the screen and then, unless a quit was asked for or no input is
/// left, takes the next input and runs on.
pub open spec fn run_end(state: EditorState, inputs: Seq<(Event, Size)>) -> EditorState
    decreases inputs.len(),
{
    if state.should_quit || inputs.len() == 0 {
        refreshed(state)
    } else {
        run_end(after_turn(refreshed(state), inputs.first()), inputs.drop_first())
    }
}

/// What a run over `inputs` appends to the terminal's transcript: one
/// refresh at the start and one after every input taken.
pub open spec fn run_ops(state: EditorState, inputs: Seq<(Event, Size)>) -> Seq<Op>
    decreases inputs.len(),
{
    if state.should_quit || inputs.len() == 0 {
        refresh_ops(state)
    } else {
        refresh_ops(state) + run_ops(
            after_turn(refreshed(state), inputs.first()),
            inputs.drop_first(),
        )
    }
}

/// The number of inputs that a run over `inputs` takes: all of them, or those
/// up to the first that asks to quit.
pub open spec fn run_taken(state: EditorState, inputs: Seq<(Event, Size)>) -> nat
    decreases inputs.len(),
{
    if state.should_quit || inputs.len() == 0 {
        0
    } else {
        1 + run_taken(after_turn(refreshed(state), inputs.first()), inputs.drop_first())
    }
}

/// Whether `at` is a cell of a grid of `size`.
pub open spec fn in_grid(at: Position, size: Size) -> bool {
    at.row < size.height && at.col < size.width
}

/// The state after the events of `events`, oldest first, while the terminal
/// reports `size` throughout.
pub open spec fn after_events(state: EditorState, events: Seq<Event>, size: Size) -> EditorState
    decreases events.len(),
{
    if events.len() == 0 {
        state
    } else {
        after_event(after_events(state, events.drop_last(), size), events.last(), size)
    }
}

/// Where the caret is after `key` was pressed `times` times on a grid of
/// `size`.
pub open spec fn pressed(at: Position, key: KeyCode, times: nat, size: Size) -> Position
    decreases times,
{
    if times == 0 {
        at
    } else {
        moved(pressed(at, key, (times - 1) as nat, size), key, size)
    }
}

/// A key press never takes the caret off the grid: from a cell of the grid,
/// every key leads to a cell of the grid.
pub proof fn lemma_move_stays_in_grid(at: Position, key: KeyCode, size: Size)
    requires
        in_grid(at, size),
    ensures
        in_grid(moved(at, key, size), size),
{
}

/// On a grid with cells, whatever the events and however many, a caret that
/// starts on the grid is on the grid after them: its row is below the height
/// and its column below the width.
pub proof fn lemma_caret_stays_in_grid(state: EditorState, events: Seq<Event>, size: Size)
    requires
        in_grid(state.location, size),
    ensures
        in_grid(after_events(state, events, size).location, size),
    decreases events.len(),
{
    if events.len() > 0 {
        lemma_caret_stays_in_grid(state, events.drop_last(), size);
        let before = after_events(state, events.drop_last(), size);
        if let Event::Key(KeyEvent { code, modifiers, kind: KeyEventKind::Press }) = events.last() {
            lemma_move_stays_in_grid(before.location, code, size);
        }
    }
}

/// On a grid with cells, a caret that starts at the origin, as that of a new
/// editor does, is on the grid after any sequence of events.
pub proof fn lemma_caret_on_grid_from_origin(state: EditorState, events: Seq<Event>, size: Size)
    requires
        size.height > 0,
        size.width > 0,
        state.location == (Position { col: 0, row: 0 }),
    ensures
        in_grid(after_events(state, events, size).location, size),
{
    lemma_caret_stays_in_grid(state, events, size);
}

/// The smaller of two numbers.
pub open spec fn lesser(a: int, b: int) -> int {
    if a <= b {
        a
    } else {
        b
    }
}

/// A press of a key that moves along the rows puts the caret on a row of the
/// grid, wherever it was, as long as the grid has rows; a press of a key that
/// moves along the columns does the same for the column.
pub proof fn lemma_move_lands_in_grid(at: Position, key: KeyCode, size: Size)
    ensures
        (key is Up || key is Down || key is PageUp || key is PageDown) && size.height > 0 ==> moved(
            at,
            key,
            size,
        ).row < size.height,
        (key is Left || key is Right || key is Home || key is End) && size.width > 0 ==> moved(
            at,
            key,
            size,
        ).col < size.width,
{
}

/// Pressing Up `times` times, at least once, takes the caret up by `times`
/// rows and no further than row 0, where it stays. A caret below the grid
/// counts as standing one row past the last. The column does not change.
pub proof fn lemma_up_settles(at: Position, times: nat, size: Size)
    requires
        times > 0,
    ensures
        pressed(at, KeyCode::Up, times, size).col == at.col,
        pressed(at, KeyCode::Up, times, size).row == if lesser(
            at.row as int,
            last_index(size.height) + 1,
        ) >= times {
            lesser(at.row as int, last_index(size.height) + 1) - times
        } else {
            0
        },
        times >= at.row ==> pressed(at, KeyCode::Up, times, size).row == 0,
    decreases times,
{
    if times > 1 {
        lemma_up_settles(at, (times - 1) as nat, size);
    } else {
        assert(pressed(at, KeyCode::Up, 0, size) == at);
    }
}

/// Pressing Down `times` times, at least once, takes the caret down by
/// `times` rows and no further than the last row, where it stays. A caret
/// below the last row is on the last row after the first press. The column
/// does not change.
pub proof fn lemma_down_settles(at: Position, times: nat, size: Size)
    requires
        times > 0,
    ensures
        pressed(at, KeyCode::Down, times, size).col == at.col,
        pressed(at, KeyCode::Down, times, size).row == if at.row + times < last_index(size.height) {
            at.row + times
        } else {
            last_index(size.height) as int
        },
    decreases times,
{
    if times > 1 {
        lemma_down_settles(at, (times - 1) as nat, size);
    } else {
        assert(pressed(at, KeyCode::Down, 0, size) == at);
    }
}

/// Pressing Left `times` times, at least once, takes the caret left by
/// `times` columns and no further than column 0, where it stays. A caret
/// right of the grid counts as standing one column past the last. The row
/// does not change.
pub proof fn lemma_left_settles(at: Position, times: nat, size: Size)
    requires
        times > 0,
    ensures
        pressed(at, KeyCode::Left, times, size).row == at.row,
        pressed(at, KeyCode::Left, times, size).col == if lesser(
            at.col as int,
            last_index(size.width) + 1,
        ) >= times {
            lesser(at.col as int, last_index(size.width) + 1) - times
        } else {
            0
        },
        times >= at.col ==> pressed(at, KeyCode::Left, times, size).col == 0,
    decreases times,
{
    if times > 1 {
        lemma_left_settles(at, (times - 1) as nat, size);
    } else {
        assert(pressed(at, KeyCode::Left, 0, size) == at);
    }
}

/// Pressing Right `times` times, at least once, takes the caret right by
/// `times` columns and no further than the last column, where it stays. The
/// row does not change.
pub proof fn lemma_right_settles(at: Position, times: nat, size: Size)
    requires
        times > 0,
    ensures
        pressed(at, KeyCode::Right, times, size).row == at.row,
        pressed(at, KeyCode::Right, times, size).col == if at.col + times < last_index(size.width) {
            at.col + times
        } else {
            last_index(size.width) as int
        },
    decreases times,
{
    if times > 1 {
        lemma_right_settles(at, (times - 1) as nat, size);
    } else {
        assert(pressed(at, KeyCode::Right, 0, size) == at);
    }
}

/// Page Up, Page Down, Home and End reach their place with the first press
/// and stay there: row 0, the last row, column 0, the last column.
pub proof fn lemma_jump_settles(at: Position, key: KeyCode, times: nat, size: Size)
    requires
        times > 0,
        key is PageUp || key is PageDown || key is Home || key is End,
    ensures
        pressed(at, key, times, size) == moved(at, key, size),
        key is PageUp ==> pressed(at, key, times, size) == (Position { row: 0, ..at }),
        key is PageDown ==> pressed(at, key, times, size) == (Position {
            row: last_index(size.height),
            ..at
        }),
        key is Home ==> pressed(at, key, times, size) == (Position { col: 0, ..at }),
        key is End ==> pressed(at, key, times, size) == (Position {
            col: last_index(size.width),
            ..at
        }),
    decreases times,
{
    if times > 1 {
        lemma_jump_settles(at, key, (times - 1) as nat, size);
    } else {
        assert(pressed(at, key, 0, size) == at);
    }
}

/// Neither an event nor a refresh changes the lines on show: what a load put
/// there stays until the next load. And no event marks a stale screen fresh;
/// only a refresh that draws does.
pub proof fn lemma_lines_outlast_events(state: EditorState, event: Event, size: Size)
    ensures
        after_event(state, event, size).view.lines == state.view.lines,
        refreshed(state).view.lines == state.view.lines,
        state.view.needs_redraw ==> after_event(state, event, size).view.needs_redraw,
        refreshed(state).view.needs_redraw ==> state.view.needs_redraw && !state.view.draws(),
{
}

/// A refresh flushes exactly once, and that is the last thing it does.
pub proof fn lemma_refresh_flushes_once(state: EditorState)
    ensures
        refresh_ops(state).len() > 0,
        refresh_ops(state).last() == Op::Flush,
        forall|i: int| 0 <= i < refresh_ops(state).len() - 1 ==> refresh_ops(state)[i] != Op::Flush,
{
    let drawn = state.view.render_ops();
    if state.view.draws() {
        lemma_frame_ops_shape(frame(state.view.lines, state.view.size));
    }
    assert forall|i: int| 0 <= i < refresh_ops(state).len() - 1 implies refresh_ops(state)[i]
        != Op::Flush by {
        if 1 <= i < 1 + drawn.len() {
            assert(refresh_ops(state)[i] == drawn[i - 1]);
        }
    }
}

/// The quit flag is set by a quit event and by nothing else, and nothing
/// clears it.
pub proof fn lemma_quit_is_final(state: EditorState, event: Event, size: Size)
    ensures
        after_event(state, event, size).should_quit == (state.should_quit || is_quit_event(event)),
{
}

/// A run ends with the first quit. It takes the inputs up to the one that
/// asks to quit and none after it; it writes a refresh at the start and one
/// after each input taken, so that one last refresh follows the quit; and it
/// ends with the quit flag set.
pub proof fn lemma_run_stops_at_quit(
    state: EditorState,
    before: Seq<(Event, Size)>,
    quit: (Event, Size),
    after: Seq<(Event, Size)>,
)
    requires
        !state.should_quit,
        forall|i: int| 0 <= i < before.len() ==> !is_quit_event(#[trigger] before[i].0),
        is_quit_event(quit.0),
    ensures
        run_taken(state, before + seq![quit] + after) == before.len() + 1,
        run_end(state, before + seq![quit] + after).should_quit,
        run_end(state, before + seq![quit] + after) == run_end(state, before + seq![quit]),
        run_ops(state, before + seq![quit] + after) == run_ops(state, before + seq![quit]),
        run_ops(state, before + seq![quit]) == run_ops(state, before) + refresh_ops(
            after_turn(run_end(state, before), quit),
        ),
    decreases before.len(),
{
    let inputs = before + seq![quit] + after;
    let short = before + seq![quit];
    if before.len() == 0 {
        let quitting = after_turn(refreshed(state), quit);
        assert(quitting.should_quit);
        assert(inputs.first() == quit);
        assert(inputs.drop_first() =~= after);
        assert(short.first() == quit);
        assert(short.drop_first() =~= Seq::<(Event, Size)>::empty());
        assert(run_taken(quitting, after) == 0);
        assert(run_end(quitting, after) == refreshed(quitting));
        assert(run_end(quitting, short.drop_first()) == refreshed(quitting));
        assert(run_ops(quitting, after) == refresh_ops(quitting));
        assert(run_ops(quitting, short.drop_first()) == refresh_ops(quitting));
        assert(run_ops(state, before) == refresh_ops(state));
        assert(run_end(state, before) == refreshed(state));
    } else {
        let next = after_turn(refreshed(state), before.first());
        let rest = before.drop_first();
        assert(!is_quit_event(before[0].0));
        assert forall|i: int| 0 <= i < rest.len() implies !is_quit_event(#[trigger] rest[i].0) by {
            assert(rest[i] == before[i + 1]);
        }
        lemma_quit_is_final(refreshed(state), before.first().0, before.first().1);
        assert(!next.should_quit);
        lemma_run_stops_at_quit(next, rest, quit, after);
        assert(inputs.first() == before.first());
        assert(inputs.drop_first() =~= rest + seq![quit] + after);
        assert(short.first() == before.first());
        assert(short.drop_first() =~= rest + seq![quit]);
        assert(run_ops(state, before) == refresh_ops(state) + run_ops(next, rest));
        assert(run_end(state, before) == run_end(next, rest));
        assert(refresh_ops(state) + (run_ops(next, rest) + refresh_ops(
            after_turn(run_end(next, rest), quit),
        )) =~= refresh_ops(state) + run_ops(next, rest) + refresh_ops(
            after_turn(run_end(next, rest), quit),
        ));
    }
}

/// The caret, the quit flag, and the view.
pub struct Editor {
    should_quit: bool,
    location: Position,
    view: crate::view::View,
}

impl View for Editor {
    type V = EditorState;

    closed spec fn view(&self) -> EditorState {
        EditorState {
            should_quit: self.should_quit,
            location: self.location,
            view: self.view@,
        }
    }
}

impl Editor {
    /// An editor on a grid of `size`, with the caret at the origin. `source`
    /// is what reading the file named at startup gave, if one was named;
    /// where it could not be read, the editor starts empty.
    pub fn new(size: Size, source: Option<Result<&str, LoadError>>) -> (editor: Editor)
        ensures
            editor@ == (EditorState {
                should_quit: false,
                location: Position { col: 0, row: 0 },
                view: ViewState {
                    lines: match source {
                        Some(Ok(text)) => split_lines(text@),
                        _ => Seq::empty(),
                    },
                    needs_redraw: true,
                    size,
                },
            }),
    {
        let mut view = crate::view::View::new(size);
        if let Some(read) = source {
            view.load(read);
        }
        Editor { should_quit: false, location: Position { col: 0, row: 0 }, view }
    }

    /// Whether a quit was asked for.
    pub fn should_quit(&self) -> (quit: bool)
        ensures
            quit == self@.should_quit,
    {
        self.should_quit
    }

    /// Where the caret is.
    pub fn location(&self) -> (location: Position)
        ensures
            location == self@.location,
    {
        self.location
    }

    /// The view.
    pub fn view_ref(&self) -> (view: &crate::view::View)
        ensures
            view@ == self@.view,
    {
        &self.view
    }

    /// Moves the caret for `key_code` on a grid of `size`: one cell on, and
    /// into the grid if that is outside it.
    pub fn move_point(&mut self, key_code: KeyCode, size: Size)
        ensures
            final(self)@ == (EditorState {
                location: moved(old(self)@.location, key_code, size),
                ..old(self)@
            }),
    {
        let Position { col: mut x, row: mut y } = self.location;
        let Size { height, width } = size;
        match key_code {
            KeyCode::Up => {
                let above = y.saturating_sub(1);
                let last = height.saturating_sub(1);
                y = if last < above { last } else { above };
            },
            KeyCode::Down => {
                let below = y.saturating_add(1);
                let last = height.saturating_sub(1);
                y = if last < below { last } else { below };
            },
            KeyCode::Left => {
                let before = x.saturating_sub(1);
                let last = width.saturating_sub(1);
                x = if last < before { last } else { before };
            },
            KeyCode::Right => {
                let beside = x.saturating_add(1);
                let last = width.saturating_sub(1);
                x = if last < beside { last } else { beside };
            },
            KeyCode::PageUp => {
                y = 0;
            },
            KeyCode::PageDown => {
                y = height.saturating_sub(1);
            },
            KeyCode::Home => {
                x = 0;
            },
            KeyCode::End => {
                x = width.saturating_sub(1);
            },
            _ => (),
        }
        self.location = Position { col: x, row: y };
    }

    /// Takes one input event, with the size that the terminal reports now.
    pub fn eval_event(&mut self, event: Event, size: Size)
        ensures
            final(self)@ == after_event(old(self)@, event, size),
    {
        match event {
            Event::Key(KeyEvent { code, modifiers, kind: KeyEventKind::Press }) => {
                match code {
                    KeyCode::Char(c) => {
                        if c == 'q' && modifiers.control && !modifiers.shift && !modifiers.alt
                            && !modifiers.super_key && !modifiers.hyper && !modifiers.meta {
                            self.should_quit = true;
                        }
                    },
                    KeyCode::Up
                    | KeyCode::Down
                    | KeyCode::Left
                    | KeyCode::Right
                    | KeyCode::PageUp
                    | KeyCode::PageDown
                    | KeyCode::End
                    | KeyCode::Home => {
                        self.move_point(code, size);
                    },
                    KeyCode::Other => {},
                }
            },
            Event::Resize(columns, rows) => {
                self.view.resize(Size { height: rows as usize, width: columns as usize });
            },
            _ => {},
        }
    }

    /// Writes one screen update to the terminal: caret hidden, frame drawn if
    /// it is stale, caret placed and shown, everything flushed once.
    pub fn refresh_screen(&mut self, terminal: &mut Terminal)
        ensures
            final(self)@ == refreshed(old(self)@),
            final(terminal)@ == old(terminal)@ + refresh_ops(old(self)@),
    {
        terminal.hide_caret();
        self.view.render(terminal);
        terminal.move_caret_to(self.location);
        terminal.show_caret();
        terminal.execute();
    }

    /// One turn of the control loop: takes the input, if there is one, and
    /// refreshes the screen. The answer says whether the loop goes on; after
    /// a quit it does not, and the refresh just written is the last.
    pub fn step(
        &mut self,
        terminal: &mut Terminal,
        input: Option<(Event, Size)>,
    ) -> (running: bool)
        ensures
            final(self)@ == refreshed(after_input(old(self)@, input)),
            final(terminal)@ == old(terminal)@ + refresh_ops(after_input(old(self)@, input)),
            running == !after_input(old(self)@, input).should_quit,
    {
        if let Some((event, size)) = input {
            self.eval_event(event, size);
        }
        self.refresh_screen(terminal);
        !self.should_quit
    }

    /// Runs the control loop over recorded inputs, oldest first: refresh,
    /// stop after a quit or when no input is left, take the next input. The
    /// answer is the number of inputs taken.
    pub fn run(&mut self, terminal: &mut Terminal, inputs: &Vec<(Event, Size)>) -> (taken: usize)
        ensures
            final(self)@ == run_end(old(self)@, inputs@),
            final(terminal)@ == old(terminal)@ + run_ops(old(self)@, inputs@),
            taken == run_taken(old(self)@, inputs@),
    {
        let ghost end = run_end(self@, inputs@);
        let ghost ops = terminal@ + run_ops(self@, inputs@);
        let ghost all = run_taken(self@, inputs@);
        let mut taken: usize = 0;
        assert(inputs@.skip(0) =~= inputs@);
        loop
            invariant_except_break
                taken <= inputs.len(),
                run_end(self@, inputs@.skip(taken as int)) == end,
                terminal@ + run_ops(self@, inputs@.skip(taken as int)) == ops,
                taken + run_taken(self@, inputs@.skip(taken as int)) == all,
            ensures
                self@ == end,
                terminal@ == ops,
                taken == all,
            decreases inputs.len() - taken,
        {
            let ghost before = self@;
            let ghost written = terminal@;
            let ghost rest = inputs@.skip(taken as int);
            self.refresh_screen(terminal);
            if self.should_quit || taken == inputs.len() {
                assert(written + refresh_ops(before) == ops);
                break ;
            }
            let (event, size) = inputs[taken];
            self.eval_event(event, size);
            taken += 1;
            proof {
                assert(rest.first() == (event, size));
                assert(rest.drop_first() =~= inputs@.skip(taken as int));
                assert(written + (refresh_ops(before) + run_ops(self@, rest.drop_first()))
                    =~= written + refresh_ops(before) + run_ops(self@, rest.drop_first()));
            }
        }
        taken
    }

    /// Ends the session on the terminal and, after a quit, says goodbye.
    pub fn close(&self, terminal: &mut Terminal)
        ensures
            final(terminal)@ == old(terminal)@ + close_ops(self@),
    {
        terminal.terminate();
        if self.should_quit {
            terminal.print("Goodbye!\r\n");
        }
    }
}

} // verus!

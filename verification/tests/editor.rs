use textgrid::{
    Command, Editor, Event, KeyCode, KeyEvent, KeyEventKind, KeyModifiers, LoadError, Position,
    Size, Terminal,
};

const GRID: Size = Size { height: 4, width: 6 };

fn press(code: KeyCode) -> Event {
    Event::Key(KeyEvent { code, modifiers: KeyModifiers::none(), kind: KeyEventKind::Press })
}

fn quit() -> Event {
    Event::Key(KeyEvent {
        code: KeyCode::Char('q'),
        modifiers: KeyModifiers::control(),
        kind: KeyEventKind::Press,
    })
}

fn editor_at(at: Position, size: Size) -> Editor {
    let mut editor = Editor::new(size, None);
    let reach = Size { height: at.row + 1, width: at.col + 1 };
    editor.move_point(KeyCode::PageDown, reach);
    editor.move_point(KeyCode::End, reach);
    assert_eq!(editor.location(), at);
    editor
}

fn after(at: Position, key: KeyCode, times: usize, size: Size) -> Position {
    let mut editor = editor_at(at, size);
    for _ in 0..times {
        editor.move_point(key, size);
    }
    editor.location()
}

#[test]
fn new_editor_starts_at_origin_with_welcome() {
    let editor = Editor::new(GRID, None);
    assert!(!editor.should_quit());
    assert_eq!(editor.location(), Position { col: 0, row: 0 });
    assert_eq!(editor.view_ref().size(), GRID);
    assert!(editor.view_ref().needs_redraw());
    assert!(editor.view_ref().buffer().is_empty());
}

#[test]
fn new_editor_loads_the_text_it_is_given() {
    let editor = Editor::new(GRID, Some(Ok("a\nb\n")));
    assert_eq!(editor.view_ref().buffer().lines, vec!["a", "b"]);
    assert!(editor.view_ref().needs_redraw());
    assert_eq!(editor.location(), Position { col: 0, row: 0 });
}

#[test]
fn new_editor_starts_empty_when_the_file_cannot_be_read() {
    for error in [LoadError::NotFound, LoadError::IoError] {
        let editor = Editor::new(GRID, Some(Err(error)));
        assert!(editor.view_ref().buffer().is_empty());
        assert!(editor.view_ref().needs_redraw());
        assert!(!editor.should_quit());
    }
}

#[test]
fn each_move_key_moves_by_its_rule() {
    let at = Position { col: 2, row: 1 };
    assert_eq!(after(at, KeyCode::Up, 1, GRID), Position { col: 2, row: 0 });
    assert_eq!(after(at, KeyCode::Down, 1, GRID), Position { col: 2, row: 2 });
    assert_eq!(after(at, KeyCode::Left, 1, GRID), Position { col: 1, row: 1 });
    assert_eq!(after(at, KeyCode::Right, 1, GRID), Position { col: 3, row: 1 });
    assert_eq!(after(at, KeyCode::PageUp, 1, GRID), Position { col: 2, row: 0 });
    assert_eq!(after(at, KeyCode::PageDown, 1, GRID), Position { col: 2, row: 3 });
    assert_eq!(after(at, KeyCode::Home, 1, GRID), Position { col: 0, row: 1 });
    assert_eq!(after(at, KeyCode::End, 1, GRID), Position { col: 5, row: 1 });
}

#[test]
fn other_keys_do_not_move() {
    let at = Position { col: 2, row: 1 };
    assert_eq!(after(at, KeyCode::Other, 3, GRID), at);
    assert_eq!(after(at, KeyCode::Char('j'), 3, GRID), at);
    assert_eq!(after(at, KeyCode::Char('q'), 3, GRID), at);
}

#[test]
fn up_settles_on_row_zero() {
    let at = Position { col: 3, row: 3 };
    assert_eq!(after(at, KeyCode::Up, 2, GRID), Position { col: 3, row: 1 });
    assert_eq!(after(at, KeyCode::Up, 3, GRID), Position { col: 3, row: 0 });
    assert_eq!(after(at, KeyCode::Up, 4, GRID), Position { col: 3, row: 0 });
    assert_eq!(after(at, KeyCode::Up, 50, GRID), Position { col: 3, row: 0 });
}

#[test]
fn down_settles_on_last_row() {
    let at = Position { col: 3, row: 0 };
    assert_eq!(after(at, KeyCode::Down, 2, GRID), Position { col: 3, row: 2 });
    assert_eq!(after(at, KeyCode::Down, 3, GRID), Position { col: 3, row: 3 });
    assert_eq!(after(at, KeyCode::Down, 4, GRID), Position { col: 3, row: 3 });
    assert_eq!(after(at, KeyCode::Down, 50, GRID), Position { col: 3, row: 3 });
}

#[test]
fn left_settles_on_column_zero() {
    let at = Position { col: 5, row: 2 };
    assert_eq!(after(at, KeyCode::Left, 4, GRID), Position { col: 1, row: 2 });
    assert_eq!(after(at, KeyCode::Left, 5, GRID), Position { col: 0, row: 2 });
    assert_eq!(after(at, KeyCode::Left, 60, GRID), Position { col: 0, row: 2 });
}

#[test]
fn right_settles_on_last_column() {
    let at = Position { col: 0, row: 2 };
    assert_eq!(after(at, KeyCode::Right, 4, GRID), Position { col: 4, row: 2 });
    assert_eq!(after(at, KeyCode::Right, 5, GRID), Position { col: 5, row: 2 });
    assert_eq!(after(at, KeyCode::Right, 60, GRID), Position { col: 5, row: 2 });
}

#[test]
fn jumps_stay_where_they_land() {
    let at = Position { col: 2, row: 1 };
    assert_eq!(after(at, KeyCode::PageUp, 3, GRID), Position { col: 2, row: 0 });
    assert_eq!(after(at, KeyCode::PageDown, 3, GRID), Position { col: 2, row: 3 });
    assert_eq!(after(at, KeyCode::Home, 3, GRID), Position { col: 0, row: 1 });
    assert_eq!(after(at, KeyCode::End, 3, GRID), Position { col: 5, row: 1 });
}

#[test]
fn caret_outside_a_shrunken_grid_comes_back_in_one_step() {
    let at = Position { col: 50, row: 40 };
    assert_eq!(after(at, KeyCode::Down, 1, GRID), Position { col: 50, row: 3 });
    assert_eq!(after(at, KeyCode::Right, 1, GRID), Position { col: 5, row: 40 });
    assert_eq!(after(at, KeyCode::Up, 1, GRID), Position { col: 50, row: 3 });
    assert_eq!(after(at, KeyCode::Left, 1, GRID), Position { col: 5, row: 40 });
    assert_eq!(after(at, KeyCode::Up, 2, GRID), Position { col: 50, row: 2 });
    assert_eq!(after(at, KeyCode::Left, 3, GRID), Position { col: 3, row: 40 });
}

#[test]
fn up_from_row_thirty_on_ten_rows_lands_on_the_last_row() {
    let size = Size { height: 10, width: 40 };
    let at = Position { col: 0, row: 30 };
    assert_eq!(after(at, KeyCode::Up, 1, size), Position { col: 0, row: 9 });
    assert_eq!(after(at, KeyCode::Up, 2, size), Position { col: 0, row: 8 });
    assert_eq!(after(at, KeyCode::Up, 10, size), Position { col: 0, row: 0 });
    assert_eq!(after(at, KeyCode::Up, 11, size), Position { col: 0, row: 0 });
}

#[test]
fn step_from_just_past_the_edge_lands_on_the_edge() {
    let at = Position { col: 6, row: 4 };
    assert_eq!(after(at, KeyCode::Up, 1, GRID), Position { col: 6, row: 3 });
    assert_eq!(after(at, KeyCode::Left, 1, GRID), Position { col: 5, row: 4 });
    let next = Position { col: 7, row: 5 };
    assert_eq!(after(next, KeyCode::Up, 1, GRID), Position { col: 7, row: 3 });
    assert_eq!(after(next, KeyCode::Left, 1, GRID), Position { col: 5, row: 5 });
}

#[test]
fn up_and_left_on_a_grid_without_cells_go_to_zero() {
    let empty = Size { height: 0, width: 0 };
    let at = Position { col: 7, row: 9 };
    assert_eq!(after(at, KeyCode::Up, 1, empty), Position { col: 7, row: 0 });
    assert_eq!(after(at, KeyCode::Left, 1, empty), Position { col: 0, row: 9 });
}

#[test]
fn grid_without_cells_keeps_the_caret_at_zero() {
    let empty = Size { height: 0, width: 0 };
    let origin = Position { col: 0, row: 0 };
    for key in [
        KeyCode::Up,
        KeyCode::Down,
        KeyCode::Left,
        KeyCode::Right,
        KeyCode::PageUp,
        KeyCode::PageDown,
        KeyCode::Home,
        KeyCode::End,
    ] {
        assert_eq!(after(origin, key, 3, empty), origin);
    }
}

#[test]
fn moves_do_not_overflow_at_the_largest_grid() {
    let huge = Size { height: usize::MAX, width: usize::MAX };
    let corner = Position { col: usize::MAX - 1, row: usize::MAX - 1 };
    let origin = Position { col: 0, row: 0 };
    assert_eq!(after(origin, KeyCode::PageDown, 1, huge).row, usize::MAX - 1);
    assert_eq!(after(origin, KeyCode::End, 1, huge).col, usize::MAX - 1);
    assert_eq!(after(corner, KeyCode::Down, 2, huge), corner);
    assert_eq!(after(corner, KeyCode::Right, 2, huge), corner);
}

#[test]
fn any_walk_stays_on_the_grid() {
    let keys = [
        KeyCode::Down,
        KeyCode::Right,
        KeyCode::End,
        KeyCode::PageDown,
        KeyCode::Up,
        KeyCode::Left,
        KeyCode::Home,
        KeyCode::PageUp,
        KeyCode::Other,
    ];
    for size in [GRID, Size { height: 1, width: 1 }, Size { height: 2, width: 9 }] {
        let mut editor = Editor::new(size, None);
        let mut seed: usize = 12345;
        for _ in 0..2000 {
            seed = seed.wrapping_mul(1103515245).wrapping_add(12345);
            let key = keys[(seed >> 16) % keys.len()];
            editor.eval_event(press(key), size);
            let at = editor.location();
            assert!(at.row < size.height && at.col < size.width, "{at:?} in {size:?}");
        }
    }
}

#[test]
fn control_q_asks_to_quit() {
    let mut editor = Editor::new(GRID, None);
    editor.eval_event(quit(), GRID);
    assert!(editor.should_quit());
    assert_eq!(editor.location(), Position { col: 0, row: 0 });
}

#[test]
fn q_needs_control_and_nothing_else() {
    let none = KeyModifiers::none();
    let control = KeyModifiers::control();
    let others = [
        none,
        KeyModifiers { shift: true, ..control },
        KeyModifiers { alt: true, ..control },
        KeyModifiers { super_key: true, ..control },
        KeyModifiers { hyper: true, ..control },
        KeyModifiers { meta: true, ..control },
        KeyModifiers { alt: true, ..none },
    ];
    for modifiers in others {
        let mut editor = Editor::new(GRID, None);
        editor.eval_event(
            Event::Key(KeyEvent { code: KeyCode::Char('q'), modifiers, kind: KeyEventKind::Press }),
            GRID,
        );
        assert!(!editor.should_quit(), "{modifiers:?}");
    }
    let mut editor = Editor::new(GRID, None);
    for code in [KeyCode::Char('Q'), KeyCode::Char('w'), KeyCode::Other, KeyCode::Up] {
        editor.eval_event(
            Event::Key(KeyEvent { code, modifiers: control, kind: KeyEventKind::Press }),
            GRID,
        );
        assert!(!editor.should_quit(), "{code:?}");
    }
}

#[test]
fn only_presses_count() {
    for kind in [KeyEventKind::Release, KeyEventKind::Repeat] {
        let mut editor = Editor::new(GRID, None);
        editor.eval_event(
            Event::Key(KeyEvent {
                code: KeyCode::Char('q'),
                modifiers: KeyModifiers::control(),
                kind,
            }),
            GRID,
        );
        editor.eval_event(
            Event::Key(KeyEvent { code: KeyCode::Down, modifiers: KeyModifiers::none(), kind }),
            GRID,
        );
        assert!(!editor.should_quit());
        assert_eq!(editor.location(), Position { col: 0, row: 0 });
    }
}

#[test]
fn move_keys_work_with_any_modifiers() {
    let mut editor = Editor::new(GRID, None);
    let modifiers = KeyModifiers { shift: true, ..KeyModifiers::control() };
    editor.eval_event(
        Event::Key(KeyEvent { code: KeyCode::Down, modifiers, kind: KeyEventKind::Press }),
        GRID,
    );
    editor.eval_event(
        Event::Key(KeyEvent { code: KeyCode::End, modifiers, kind: KeyEventKind::Press }),
        GRID,
    );
    assert_eq!(editor.location(), Position { col: 5, row: 1 });
}

#[test]
fn moves_go_by_the_size_reported_now() {
    let mut editor = Editor::new(Size { height: 2, width: 2 }, None);
    editor.eval_event(press(KeyCode::PageDown), Size { height: 30, width: 100 });
    editor.eval_event(press(KeyCode::End), Size { height: 30, width: 100 });
    assert_eq!(editor.location(), Position { col: 99, row: 29 });
    assert_eq!(editor.view_ref().size(), Size { height: 2, width: 2 });
}

#[test]
fn resize_event_goes_to_the_view() {
    let mut editor = Editor::new(Size { height: 24, width: 80 }, Some(Ok("text")));
    let mut terminal = Terminal::new();
    editor.refresh_screen(&mut terminal);
    assert!(!editor.view_ref().needs_redraw());
    editor.eval_event(Event::Resize(20, 10), Size { height: 99, width: 99 });
    assert_eq!(editor.view_ref().size(), Size { height: 10, width: 20 });
    assert!(editor.view_ref().needs_redraw());
    assert_eq!(editor.location(), Position { col: 0, row: 0 });
    assert!(!editor.should_quit());
}

#[test]
fn other_events_change_nothing() {
    let mut editor = Editor::new(GRID, Some(Ok("text")));
    let mut terminal = Terminal::new();
    editor.refresh_screen(&mut terminal);
    editor.eval_event(Event::Other, GRID);
    editor.eval_event(press(KeyCode::Other), GRID);
    editor.eval_event(press(KeyCode::Char('x')), GRID);
    assert!(!editor.should_quit());
    assert!(!editor.view_ref().needs_redraw());
    assert_eq!(editor.location(), Position { col: 0, row: 0 });
    assert_eq!(editor.view_ref().size(), GRID);
}

#[test]
fn refresh_hides_draws_places_shows_and_flushes() {
    let mut editor = Editor::new(Size { height: 1, width: 8 }, Some(Ok("hello world")));
    editor.eval_event(press(KeyCode::Right), Size { height: 1, width: 8 });
    let mut terminal = Terminal::new();
    editor.refresh_screen(&mut terminal);
    assert_eq!(terminal.take(), vec![
        Command::HideCaret,
        Command::MoveCaretTo { col: 0, row: 0 },
        Command::ClearLine,
        Command::Print("hello wo".to_string()),
        Command::MoveCaretTo { col: 0, row: 1 },
        Command::ClearLine,
        Command::Print("~".to_string()),
        Command::MoveCaretTo { col: 1, row: 0 },
        Command::ShowCaret,
        Command::Flush,
    ]);
    assert!(!editor.view_ref().needs_redraw());
}

#[test]
fn refresh_of_fresh_screen_only_places_the_caret() {
    let mut editor = Editor::new(GRID, Some(Ok("text")));
    let mut terminal = Terminal::new();
    editor.refresh_screen(&mut terminal);
    terminal.take();
    editor.eval_event(press(KeyCode::Down), GRID);
    editor.eval_event(press(KeyCode::End), GRID);
    editor.refresh_screen(&mut terminal);
    assert_eq!(terminal.take(), vec![
        Command::HideCaret,
        Command::MoveCaretTo { col: 5, row: 1 },
        Command::ShowCaret,
        Command::Flush,
    ]);
}

#[test]
fn refresh_flushes_once_and_last() {
    for source in [None, Some(Ok("a\nb\nc"))] {
        let mut editor = Editor::new(Size { height: 12, width: 50 }, source);
        let mut terminal = Terminal::new();
        editor.refresh_screen(&mut terminal);
        let commands = terminal.take();
        let flushes = commands.iter().filter(|command| **command == Command::Flush).count();
        assert_eq!(flushes, 1);
        assert_eq!(commands.last(), Some(&Command::Flush));
        assert_eq!(commands.first(), Some(&Command::HideCaret));
    }
}

#[test]
fn step_without_input_refreshes_and_goes_on() {
    let mut editor = Editor::new(Size { height: 1, width: 3 }, Some(Ok("abcdef")));
    let mut terminal = Terminal::new();
    assert!(editor.step(&mut terminal, None));
    assert_eq!(terminal.len(), 10);
    assert_eq!(terminal.transcript()[3], Command::Print("abc".to_string()));
    assert!(!editor.view_ref().needs_redraw());
}

#[test]
fn step_takes_the_input_before_it_refreshes() {
    let size = Size { height: 5, width: 5 };
    let mut editor = Editor::new(size, Some(Ok("abcdef")));
    let mut terminal = Terminal::new();
    editor.step(&mut terminal, None);
    terminal.take();
    assert!(editor.step(&mut terminal, Some((press(KeyCode::PageDown), size))));
    assert_eq!(terminal.take(), vec![
        Command::HideCaret,
        Command::MoveCaretTo { col: 0, row: 4 },
        Command::ShowCaret,
        Command::Flush,
    ]);
    assert!(editor.step(&mut terminal, Some((Event::Resize(2, 1), size))));
    assert_eq!(terminal.take(), vec![
        Command::HideCaret,
        Command::MoveCaretTo { col: 0, row: 0 },
        Command::ClearLine,
        Command::Print("ab".to_string()),
        Command::MoveCaretTo { col: 0, row: 1 },
        Command::ClearLine,
        Command::Print("~".to_string()),
        Command::MoveCaretTo { col: 0, row: 4 },
        Command::ShowCaret,
        Command::Flush,
    ]);
}

#[test]
fn quit_step_writes_a_last_frame_and_stops() {
    let size = Size { height: 2, width: 4 };
    let mut editor = Editor::new(size, Some(Ok("abcdef")));
    let mut terminal = Terminal::new();
    assert!(!editor.step(&mut terminal, Some((quit(), size))));
    assert!(editor.should_quit());
    let commands = terminal.take();
    assert_eq!(commands.len(), 13);
    assert_eq!(commands.last(), Some(&Command::Flush));
    assert!(!editor.step(&mut terminal, None));
    assert!(!editor.step(&mut terminal, Some((press(KeyCode::Down), size))));
}

#[test]
fn close_after_quit_says_goodbye() {
    let mut editor = Editor::new(GRID, None);
    editor.eval_event(quit(), GRID);
    let mut terminal = Terminal::new();
    editor.close(&mut terminal);
    assert_eq!(terminal.take(), vec![
        Command::LeaveAlternateScreen,
        Command::ShowCaret,
        Command::Flush,
        Command::DisableRawMode,
        Command::Print("Goodbye!\r\n".to_string()),
    ]);
}

#[test]
fn close_without_quit_only_ends_the_session() {
    let editor = Editor::new(GRID, None);
    let mut terminal = Terminal::new();
    editor.close(&mut terminal);
    assert_eq!(terminal.take(), vec![
        Command::LeaveAlternateScreen,
        Command::ShowCaret,
        Command::Flush,
        Command::DisableRawMode,
    ]);
}

#[test]
fn modifier_constructors_differ_only_in_control() {
    let none = KeyModifiers::none();
    assert!(!none.shift && !none.control && !none.alt);
    assert!(!none.super_key && !none.hyper && !none.meta);
    assert_eq!(KeyModifiers::control(), KeyModifiers { control: true, ..none });
}

#[test]
fn run_without_inputs_refreshes_once() {
    let mut editor = Editor::new(Size { height: 1, width: 3 }, Some(Ok("abcdef")));
    let mut terminal = Terminal::new();
    assert_eq!(editor.run(&mut terminal, &Vec::new()), 0);
    assert_eq!(terminal.take(), vec![
        Command::HideCaret,
        Command::MoveCaretTo { col: 0, row: 0 },
        Command::ClearLine,
        Command::Print("abc".to_string()),
        Command::MoveCaretTo { col: 0, row: 1 },
        Command::ClearLine,
        Command::Print("~".to_string()),
        Command::MoveCaretTo { col: 0, row: 0 },
        Command::ShowCaret,
        Command::Flush,
    ]);
    assert!(!editor.should_quit());
}

#[test]
fn run_takes_inputs_up_to_the_quit() {
    let inputs = vec![
        (press(KeyCode::Down), GRID),
        (press(KeyCode::Right), GRID),
        (quit(), GRID),
        (press(KeyCode::Down), GRID),
        (press(KeyCode::End), GRID),
    ];
    let mut editor = Editor::new(GRID, Some(Ok("text")));
    let mut terminal = Terminal::new();
    assert_eq!(editor.run(&mut terminal, &inputs), 3);
    assert!(editor.should_quit());
    assert_eq!(editor.location(), Position { col: 1, row: 1 });

    let commands = terminal.take();
    let flushes = commands.iter().filter(|command| **command == Command::Flush).count();
    assert_eq!(flushes, 4);
    let tail = &commands[commands.len() - 4..];
    assert_eq!(tail, &[
        Command::HideCaret,
        Command::MoveCaretTo { col: 1, row: 1 },
        Command::ShowCaret,
        Command::Flush,
    ]);
}

#[test]
fn run_takes_all_inputs_when_none_quits() {
    let inputs = vec![
        (press(KeyCode::PageDown), GRID),
        (Event::Resize(3, 2), GRID),
        (Event::Other, GRID),
    ];
    let mut editor = Editor::new(GRID, None);
    let mut terminal = Terminal::new();
    assert_eq!(editor.run(&mut terminal, &inputs), 3);
    assert!(!editor.should_quit());
    assert_eq!(editor.location(), Position { col: 0, row: 3 });
    assert_eq!(editor.view_ref().size(), Size { height: 2, width: 3 });
    assert!(!editor.view_ref().needs_redraw());
}

#[test]
fn run_after_a_quit_only_refreshes() {
    let mut editor = Editor::new(GRID, None);
    editor.eval_event(quit(), GRID);
    let mut terminal = Terminal::new();
    let inputs = vec![(press(KeyCode::Down), GRID)];
    assert_eq!(editor.run(&mut terminal, &inputs), 0);
    assert_eq!(editor.location(), Position { col: 0, row: 0 });
    assert_eq!(terminal.take().last(), Some(&Command::Flush));
}

#[test]
fn run_writes_what_the_steps_write() {
    let inputs = vec![
        (press(KeyCode::Down), GRID),
        (Event::Resize(9, 2), GRID),
        (press(KeyCode::End), Size { height: 2, width: 9 }),
        (quit(), GRID),
        (press(KeyCode::Up), GRID),
    ];
    let mut ran = Editor::new(GRID, Some(Ok("one\ntwo\nthree")));
    let mut ran_terminal = Terminal::new();
    let taken = ran.run(&mut ran_terminal, &inputs);

    let mut stepped = Editor::new(GRID, Some(Ok("one\ntwo\nthree")));
    let mut stepped_terminal = Terminal::new();
    let mut running = stepped.step(&mut stepped_terminal, None);
    let mut steps = 0;
    while running && steps < inputs.len() {
        running = stepped.step(&mut stepped_terminal, Some(inputs[steps]));
        steps += 1;
    }

    assert_eq!(taken, 4);
    assert_eq!(steps, taken);
    assert_eq!(ran_terminal.take(), stepped_terminal.take());
    assert_eq!(ran.location(), stepped.location());
    assert_eq!(ran.should_quit(), stepped.should_quit());
}

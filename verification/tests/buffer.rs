use textgrid::{Buffer, LoadError};

fn lines_of(text: &str) -> Vec<String> {
    Buffer::from_text(text).lines
}

fn strings(lines: &[&str]) -> Vec<String> {
    lines.iter().map(|line| line.to_string()).collect()
}

#[test]
fn load_three_lines_without_trailing_newline() {
    let buffer = Buffer::load(Ok("a\nb\nc")).unwrap();
    assert_eq!(buffer.lines, strings(&["a", "b", "c"]));
    assert_eq!(buffer.len(), 3);
}

#[test]
fn load_trailing_newline_adds_no_fourth_line() {
    let buffer = Buffer::load(Ok("a\nb\nc\n")).unwrap();
    assert_eq!(buffer.lines, strings(&["a", "b", "c"]));
    assert_eq!(buffer.len(), 3);
}

#[test]
fn load_empty_text_gives_empty_buffer() {
    let buffer = Buffer::load(Ok("")).unwrap();
    assert!(buffer.is_empty());
    assert_eq!(buffer.len(), 0);
    assert_eq!(buffer, Buffer::default());
}

#[test]
fn load_single_newline_gives_one_empty_line() {
    let buffer = Buffer::load(Ok("\n")).unwrap();
    assert!(!buffer.is_empty());
    assert_eq!(buffer.lines, strings(&[""]));
}

#[test]
fn load_keeps_blank_lines_in_the_middle() {
    assert_eq!(lines_of("a\n\nb"), strings(&["a", "", "b"]));
    assert_eq!(lines_of("\n\n"), strings(&["", ""]));
}

#[test]
fn load_strips_carriage_return_before_line_feed() {
    assert_eq!(lines_of("a\r\nb\r\n"), strings(&["a", "b"]));
    assert_eq!(lines_of("\r\n"), strings(&[""]));
    assert_eq!(lines_of("a\r\r\nb"), strings(&["a\r", "b"]));
}

#[test]
fn load_keeps_carriage_return_without_line_feed() {
    assert_eq!(lines_of("a\rb"), strings(&["a\rb"]));
    assert_eq!(lines_of("a\r"), strings(&["a\r"]));
    assert_eq!(lines_of("a\nb\r"), strings(&["a", "b\r"]));
}

#[test]
fn load_keeps_content_of_lines() {
    assert_eq!(lines_of("  indented\t\nh\u{e9}llo w\u{f6}rld \n~"), strings(&[
        "  indented\t",
        "h\u{e9}llo w\u{f6}rld ",
        "~",
    ]));
}

#[test]
fn load_agrees_with_std_lines() {
    let samples = [
        "",
        "\n",
        "\r",
        "\r\n",
        "a",
        "a\n",
        "a\r\n",
        "a\n\r",
        "a\r\nb",
        "one\ntwo\nthree",
        "one\ntwo\nthree\n",
        "one\n\n\nfour\n\n",
        "\n\nx",
        "\r\r\n\r",
        "tab\there\r\n\u{4e2d}\u{6587}\n",
    ];
    for text in samples {
        let expected: Vec<String> = text.lines().map(String::from).collect();
        assert_eq!(lines_of(text), expected, "text {text:?}");
    }
}

#[test]
fn load_passes_not_found_on() {
    assert_eq!(Buffer::load(Err(LoadError::NotFound)), Err(LoadError::NotFound));
}

#[test]
fn load_passes_io_error_on() {
    assert_eq!(Buffer::load(Err(LoadError::IoError)), Err(LoadError::IoError));
}

#[test]
fn is_empty_tells_zero_lines() {
    assert!(Buffer::default().is_empty());
    assert!(Buffer { lines: Vec::new() }.is_empty());
    assert!(!Buffer { lines: vec![String::new()] }.is_empty());
    assert!(!Buffer::from_text("x").is_empty());
}

#[test]
fn joined_lines_come_back() {
    let lines = strings(&["alpha", "", "b c", "\rd"]);
    let mut terminated = String::new();
    for line in &lines {
        terminated.push_str(line);
        terminated.push('\n');
    }
    assert_eq!(lines_of(&terminated), lines);
    let open = &terminated[..terminated.len() - 1];
    assert_eq!(lines_of(open), lines);
}

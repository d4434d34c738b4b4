use textgrid::text::{center, chars_of, prefix_before, string_of, strip, trim, truncate};

#[test]
fn truncate_cuts_to_width() {
    assert_eq!(truncate("hello", 3), "hel");
    assert_eq!(truncate("hello", 4), "hell");
    assert_eq!(truncate("hello", 0), "");
}

#[test]
fn truncate_leaves_short_lines_alone() {
    assert_eq!(truncate("hello", 5), "hello");
    assert_eq!(truncate("hello", 6), "hello");
    assert_eq!(truncate("", 0), "");
    assert_eq!(truncate("", 7), "");
    assert_eq!(truncate("hello", usize::MAX), "hello");
}

#[test]
fn truncate_counts_characters_not_bytes() {
    assert_eq!(truncate("h\u{e9}llo", 2), "h\u{e9}");
    assert_eq!(truncate("\u{4e2d}\u{6587}\u{5b57}", 1), "\u{4e2d}");
    assert_eq!(truncate("\u{4e2d}\u{6587}\u{5b57}", 3), "\u{4e2d}\u{6587}\u{5b57}");
}

#[test]
fn center_pads_both_sides() {
    assert_eq!(center("ab", 6), "  ab  ");
    assert_eq!(center("ab", 2), "ab");
    assert_eq!(center("", 3), "   ");
    assert_eq!(center("", 0), "");
}

#[test]
fn center_puts_odd_space_on_the_right() {
    assert_eq!(center("ab", 5), " ab  ");
    assert_eq!(center("ab", 3), "ab ");
    assert_eq!(center("abc", 8), "  abc   ");
}

#[test]
fn center_leaves_long_messages_alone() {
    assert_eq!(center("abcdef", 3), "abcdef");
    assert_eq!(center("abcdef", 0), "abcdef");
}

#[test]
fn center_agrees_with_std_formatting() {
    let messages = ["", "a", "ab", "abc", "hello world", "h\u{e9}"];
    for message in messages {
        for columns in 0..16usize {
            assert_eq!(center(message, columns), format!("{message:^columns$}"));
        }
    }
}

#[test]
fn trim_removes_blanks_at_both_ends() {
    assert_eq!(trim("  a b \t\n"), "a b");
    assert_eq!(trim("a"), "a");
    assert_eq!(trim(" a"), "a");
    assert_eq!(trim("a "), "a");
    assert_eq!(trim("\u{a0}\u{2003}x\u{3000}"), "x");
}

#[test]
fn trim_of_blank_text_is_empty() {
    assert_eq!(trim(""), "");
    assert_eq!(trim(" "), "");
    assert_eq!(trim(" \t\r\n "), "");
}

#[test]
fn trim_agrees_with_std_trim() {
    let samples =
        ["", " ", "x", " x", "x ", " x y ", "\tx\n", "\u{85}x\u{1680}", "_ x _", "\u{200b}x"];
    for text in samples {
        assert_eq!(trim(text), text.trim(), "text {text:?}");
    }
}

#[test]
fn prefix_before_stops_at_first_mark() {
    assert_eq!(prefix_before("Jane Doe <jane@example.org>", '<'), "Jane Doe ");
    assert_eq!(prefix_before("a<b<c", '<'), "a");
    assert_eq!(prefix_before("<a", '<'), "");
}

#[test]
fn prefix_before_without_mark_is_whole_text() {
    assert_eq!(prefix_before("Jane Doe", '<'), "Jane Doe");
    assert_eq!(prefix_before("", '<'), "");
}

#[test]
fn chars_and_strings_convert_both_ways() {
    let chars = chars_of("h\u{e9}llo");
    assert_eq!(chars, vec!['h', '\u{e9}', 'l', 'l', 'o']);
    assert_eq!(string_of(&chars, 0, 5), "h\u{e9}llo");
    assert_eq!(string_of(&chars, 1, 3), "\u{e9}l");
    assert_eq!(string_of(&chars, 2, 2), "");
    assert_eq!(chars_of(""), Vec::<char>::new());
}

#[test]
fn strip_cuts_marked_ends_only() {
    let marked =
        vec![('x', true), ('a', false), ('y', true), ('b', false), ('z', true), ('w', true)];
    assert_eq!(strip(&marked), "ayb");
    assert_eq!(strip(&vec![('a', false)]), "a");
    assert_eq!(strip(&vec![('a', false), ('b', true)]), "a");
    assert_eq!(strip(&vec![('a', true), ('b', false)]), "b");
}

#[test]
fn strip_of_all_marked_is_empty() {
    assert_eq!(strip(&Vec::new()), "");
    assert_eq!(strip(&vec![('a', true)]), "");
    assert_eq!(strip(&vec![('a', true), ('b', true), ('c', true)]), "");
}

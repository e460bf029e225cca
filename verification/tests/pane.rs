use remux::pane::{PaneError, WezTerminalPane};
use remux::style::Color;

fn pane(width: usize, height: usize) -> WezTerminalPane {
    WezTerminalPane::new(width, height).unwrap()
}

fn texts(line: &[(String, Color)]) -> Vec<(&str, Color)> {
    line.iter().map(|(text, color)| (text.as_str(), *color)).collect()
}

#[test]
fn red_text_then_reset() {
    let mut pane = pane(80, 24);
    pane.append(b"\x1b[31mHi\x1b[0m");
    let lines = pane.read_colored_lines();
    assert_eq!(lines.len(), 24);
    assert_eq!(lines[0][0], ("Hi".to_string(), Color::Palette(1)));
    assert_eq!(lines[0][1], (" ".repeat(78), Color::Default));
    assert_eq!(lines[0].len(), 2);
    assert_eq!(pane.cursor(), (0, 2));
}

#[test]
fn new_pane_is_blank_with_cursor_at_origin() {
    let pane = pane(3, 2);
    assert_eq!(pane.read(), "   \n   \n");
    assert_eq!(pane.cursor(), (0, 0));
    let lines = pane.read_colored_lines();
    assert_eq!(texts(&lines[0]), vec![("   ", Color::Default)]);
    assert_eq!(texts(&lines[1]), vec![("   ", Color::Default)]);
}

#[test]
fn new_refuses_a_pane_without_cells() {
    assert!(matches!(WezTerminalPane::new(0, 24), Err(PaneError::EmptyGrid)));
    assert!(matches!(WezTerminalPane::new(80, 0), Err(PaneError::EmptyGrid)));
    assert!(matches!(WezTerminalPane::new(0, 0), Err(PaneError::EmptyGrid)));
    assert!(WezTerminalPane::new(1, 1).is_ok());
}

#[test]
fn input_cut_anywhere_gives_the_same_pane() {
    let input: &[u8] = b"ab\x1b[32mc\x1b[2;3Hd\xe2\x82\xac\x1b]0;title\x07e\r\nf\x1b[1Jg\x1b[0mh";
    let mut whole = pane(10, 4);
    whole.append(input);
    for cut in 0..=input.len() {
        let mut parts = pane(10, 4);
        parts.append(&input[..cut]);
        parts.append(&input[cut..]);
        assert_eq!(parts.read(), whole.read(), "cut at {}", cut);
        assert_eq!(parts.cursor(), whole.cursor(), "cut at {}", cut);
        assert_eq!(parts.read_colored_lines(), whole.read_colored_lines(), "cut at {}", cut);
    }
}

#[test]
fn input_given_byte_by_byte_gives_the_same_pane() {
    let input: &[u8] = b"\x1b[31mred\x1b[10;10Hx\x1b[2Jy";
    let mut whole = pane(20, 5);
    whole.append(input);
    let mut bytes = pane(20, 5);
    for byte in input {
        bytes.append(&[*byte]);
    }
    assert_eq!(bytes.read(), whole.read());
    assert_eq!(bytes.cursor(), whole.cursor());
}

#[test]
fn printing_advances_the_cursor() {
    let mut pane = pane(5, 3);
    pane.append(b"abc");
    assert_eq!(pane.cursor(), (0, 3));
    assert_eq!(pane.read(), "abc  \n     \n     \n");
}

#[test]
fn printing_wraps_to_the_next_row() {
    let mut pane = pane(5, 3);
    pane.append(b"abcdefg");
    assert_eq!(pane.cursor(), (1, 2));
    assert_eq!(pane.read(), "abcde\nfg   \n     \n");
}

#[test]
fn printing_a_full_row_puts_the_cursor_on_the_next() {
    let mut pane = pane(5, 3);
    pane.append(b"abcde");
    assert_eq!(pane.cursor(), (1, 0));
}

#[test]
fn printing_past_the_last_cell_stays_on_the_last_row() {
    let mut pane = pane(3, 2);
    pane.append(b"abcdef");
    assert_eq!(pane.cursor(), (1, 0));
    assert_eq!(pane.read(), "abc\ndef\n");
    pane.append(b"g");
    assert_eq!(pane.cursor(), (1, 1));
    assert_eq!(pane.read(), "abc\ngef\n");
}

#[test]
fn printed_text_keeps_the_style_of_its_time() {
    let mut pane = pane(6, 1);
    pane.append(b"a\x1b[31mb\x1b[32mc\x1b[0md");
    let lines = pane.read_colored_lines();
    assert_eq!(
        texts(&lines[0]),
        vec![
            ("a", Color::Default),
            ("b", Color::Palette(1)),
            ("c", Color::Palette(2)),
            ("d  ", Color::Default),
        ]
    );
}

#[test]
fn erase_display_blanks_everything_and_homes_the_cursor() {
    let mut pane = pane(4, 3);
    pane.append(b"\x1b[31mabcdefgh");
    pane.append(b"\x1b[2J");
    assert_eq!(pane.cursor(), (0, 0));
    assert_eq!(pane.read(), "    \n    \n    \n");
    for line in pane.read_colored_lines() {
        assert_eq!(texts(&line), vec![("    ", Color::Default)]);
    }
}

#[test]
fn erase_display_keeps_the_current_style() {
    let mut pane = pane(4, 1);
    pane.append(b"\x1b[34m\x1b[2Jx");
    let lines = pane.read_colored_lines();
    assert_eq!(texts(&lines[0]), vec![("x", Color::Palette(4)), ("   ", Color::Default)]);
}

#[test]
fn erase_display_works_in_the_middle_of_another_sequence() {
    let mut pane = pane(4, 2);
    pane.append(b"abcd\x1b]0;tit");
    pane.append(b"\x1b[2J");
    assert_eq!(pane.read(), "    \n    \n");
    assert_eq!(pane.cursor(), (0, 0));
}

#[test]
fn erase_from_the_cursor_to_the_end() {
    let mut pane = pane(3, 3);
    pane.append(b"abcdefghi\x1b[2;2H\x1b[0J");
    assert_eq!(pane.read(), "abc\nd  \n   \n");
    assert_eq!(pane.cursor(), (1, 1));
}

#[test]
fn erase_without_a_parameter_is_from_the_cursor_to_the_end() {
    let mut pane = pane(3, 3);
    pane.append(b"abcdefghi\x1b[2;2H\x1b[J");
    assert_eq!(pane.read(), "abc\nd  \n   \n");
    assert_eq!(pane.cursor(), (1, 1));
}

#[test]
fn erase_from_the_start_to_the_cursor() {
    let mut pane = pane(3, 3);
    pane.append(b"abcdefghi\x1b[2;2H\x1b[1J");
    assert_eq!(pane.read(), "   \n  f\nghi\n");
    assert_eq!(pane.cursor(), (1, 1));
}

#[test]
fn erase_with_an_unknown_mode_does_nothing() {
    let mut pane = pane(3, 2);
    pane.append(b"abcdef\x1b[1;2H\x1b[3J\x1b[7J");
    assert_eq!(pane.read(), "abc\ndef\n");
    assert_eq!(pane.cursor(), (0, 1));
}

#[test]
fn cursor_position_counts_from_one() {
    let mut pane = pane(80, 24);
    pane.append(b"\x1b[5;10H");
    assert_eq!(pane.cursor(), (4, 9));
    pane.append(b"\x1b[1;1H");
    assert_eq!(pane.cursor(), (0, 0));
    pane.append(b"\x1b[24;80H");
    assert_eq!(pane.cursor(), (23, 79));
}

#[test]
fn cursor_position_is_kept_inside_the_grid() {
    let mut pane = pane(80, 24);
    pane.append(b"\x1b[999;999H");
    assert_eq!(pane.cursor(), (23, 79));
    pane.append(b"\x1b[25;81H");
    assert_eq!(pane.cursor(), (23, 79));
    pane.append(b"\x1b[0;0H");
    assert_eq!(pane.cursor(), (0, 0));
    pane.append(b"\x1b[99999999;3H");
    assert_eq!(pane.cursor(), (23, 2));
}

#[test]
fn cursor_position_defaults_to_one() {
    let mut pane = pane(80, 24);
    pane.append(b"\x1b[5;10H\x1b[H");
    assert_eq!(pane.cursor(), (0, 0));
    pane.append(b"\x1b[5;10H\x1b[;7H");
    assert_eq!(pane.cursor(), (0, 6));
    pane.append(b"\x1b[5;10H\x1b[3H");
    assert_eq!(pane.cursor(), (2, 0));
    pane.append(b"\x1b[5;10H\x1b[3;H");
    assert_eq!(pane.cursor(), (2, 0));
}

#[test]
fn cursor_position_leaves_the_cells_alone() {
    let mut pane = pane(3, 2);
    pane.append(b"abcdef\x1b[1;2H");
    assert_eq!(pane.read(), "abc\ndef\n");
    pane.append(b"X");
    assert_eq!(pane.read(), "aXc\ndef\n");
}

#[test]
fn carriage_return_and_line_feed_move_without_erasing() {
    let mut pane = pane(4, 3);
    pane.append(b"ab\r");
    assert_eq!(pane.cursor(), (0, 0));
    pane.append(b"\n");
    assert_eq!(pane.cursor(), (1, 0));
    pane.append(b"cd\n");
    assert_eq!(pane.cursor(), (2, 2));
    assert_eq!(pane.read(), "ab  \ncd  \n    \n");
}

#[test]
fn line_feed_on_the_last_row_stays_there() {
    let mut pane = pane(4, 2);
    pane.append(b"a\nb\n\n\n");
    assert_eq!(pane.cursor(), (1, 2));
    assert_eq!(pane.read(), "a   \n b  \n");
}

#[test]
fn other_control_bytes_do_nothing() {
    let mut pane = pane(4, 1);
    pane.append(b"a\x07\x08\x09\x00\x7fb");
    assert_eq!(pane.read(), "ab  \n");
    assert_eq!(pane.cursor(), (0, 2));
}

#[test]
fn style_parameters_select_the_eight_colours() {
    for index in 0u8..8 {
        let mut pane = pane(2, 1);
        pane.append(format!("\x1b[{}mx", 30 + index).as_bytes());
        let lines = pane.read_colored_lines();
        assert_eq!(lines[0][0], ("x".to_string(), Color::Palette(index)));
    }
}

#[test]
fn background_colour_does_not_split_runs() {
    let mut pane = pane(4, 1);
    pane.append(b"a\x1b[41mb\x1b[45mc");
    let lines = pane.read_colored_lines();
    assert_eq!(texts(&lines[0]), vec![("abc ", Color::Default)]);
}

#[test]
fn unknown_style_parameters_are_ignored() {
    let mut pane = pane(4, 1);
    pane.append(b"\x1b[31m\x1b[1;4;38;99;48mx");
    let lines = pane.read_colored_lines();
    assert_eq!(lines[0][0], ("x".to_string(), Color::Palette(1)));
}

#[test]
fn several_style_parameters_apply_in_order() {
    let mut pane = pane(4, 1);
    pane.append(b"\x1b[31;32;0;35mx\x1b[33;0my");
    let lines = pane.read_colored_lines();
    assert_eq!(
        texts(&lines[0]),
        vec![("x", Color::Palette(5)), ("y  ", Color::Default)]
    );
}

#[test]
fn style_without_a_parameter_resets() {
    let mut pane = pane(3, 1);
    pane.append(b"\x1b[31ma\x1b[mb");
    let lines = pane.read_colored_lines();
    assert_eq!(
        texts(&lines[0]),
        vec![("a", Color::Palette(1)), ("b ", Color::Default)]
    );
}

#[test]
fn style_changes_do_not_touch_what_is_written() {
    let mut pane = pane(3, 1);
    pane.append(b"ab\x1b[31m");
    let lines = pane.read_colored_lines();
    assert_eq!(texts(&lines[0]), vec![("ab ", Color::Default)]);
}

#[test]
fn neighbours_of_one_colour_are_one_run() {
    let mut pane = pane(6, 1);
    pane.append(b"\x1b[31ma\x1b[31mb\x1b[0;31mc\x1b[32md\x1b[31me");
    let lines = pane.read_colored_lines();
    assert_eq!(
        texts(&lines[0]),
        vec![
            ("abc", Color::Palette(1)),
            ("d", Color::Palette(2)),
            ("e", Color::Palette(1)),
            (" ", Color::Default),
        ]
    );
}

#[test]
fn text_of_several_bytes_is_one_character_each() {
    let mut pane = pane(5, 1);
    pane.append("é€😀".as_bytes());
    assert_eq!(pane.cursor(), (0, 3));
    assert_eq!(pane.read(), "é€😀  \n");
}

#[test]
fn append_raw_takes_text() {
    let mut pane = pane(6, 1);
    assert!(pane.append_raw("añb\x1b[1;1Hz").is_ok());
    assert_eq!(pane.read(), "zñb   \n");
    assert_eq!(pane.cursor(), (0, 1));
}

#[test]
fn broken_characters_are_passed_over() {
    let mut pane = pane(8, 1);
    // a stray continuation byte, a cut-short character, an overlong form,
    // a surrogate, a code beyond the last one, and bytes that begin nothing
    pane.append(b"a\x80b\xe2\x82c\xe0\x80\x80d\xed\xa0\x80e\xf4\x90\x80\x80f\xc0\xff\xf5g");
    assert_eq!(pane.read(), "abcdefg \n");
    assert_eq!(pane.cursor(), (0, 7));
}

#[test]
fn a_cut_short_character_does_not_swallow_an_escape() {
    let mut pane = pane(4, 2);
    pane.append(b"ab\xe2\x1b[2Jc");
    assert_eq!(pane.read(), "c   \n    \n");
}

#[test]
fn strings_are_not_shown() {
    let mut pane = pane(6, 1);
    pane.append(b"a\x1b]0;window title\x07b\x1bPdata\x1b\\c\x1b_x\x18d");
    assert_eq!(pane.read(), "abcd  \n");
}

#[test]
fn unknown_sequences_are_ignored() {
    let mut pane = pane(6, 1);
    pane.append(b"a\x1b[?25hb\x1b[3Ac\x1b(Bd\x1b=e\x1b[1;2;3zf");
    assert_eq!(pane.read(), "abcdef\n");
    assert_eq!(pane.cursor(), (0, 0));
}

#[test]
fn a_cancel_byte_ends_a_sequence() {
    let mut pane = pane(6, 1);
    pane.append(b"a\x1b[3\x18;5Hb\x1b[2\x1aJ");
    assert_eq!(pane.read(), "a;5HbJ\n");
}

#[test]
fn control_bytes_inside_a_sequence_are_carried_out() {
    let mut pane = pane(6, 2);
    pane.append(b"ab\x1b[2\r;3Hc");
    assert_eq!(pane.cursor(), (1, 3));
    assert_eq!(pane.read(), "ab    \n  c   \n");
}

#[test]
fn an_escape_inside_a_sequence_starts_anew() {
    let mut pane = pane(6, 3);
    pane.append(b"\x1b[3;3\x1b[2;2Hx");
    assert_eq!(pane.read(), "      \n x    \n      \n");
}

#[test]
fn parameters_stop_at_their_limit() {
    let mut pane = pane(6, 3);
    pane.append(b"\x1b[65535;65536H");
    assert_eq!(pane.cursor(), (2, 5));
    pane.append(b"\x1b[2;00000000000000000002H");
    assert_eq!(pane.cursor(), (1, 1));
}

#[test]
fn parameters_beyond_the_thirty_second_are_dropped() {
    let mut pane = pane(3, 1);
    let mut input = String::from("\x1b[");
    for _ in 0..32 {
        input.push_str("31;");
    }
    input.push_str("32mx");
    pane.append(input.as_bytes());
    let lines = pane.read_colored_lines();
    assert_eq!(lines[0][0], ("x".to_string(), Color::Palette(1)));
}

#[test]
fn subparameters_count_as_parameters() {
    let mut pane = pane(9, 9);
    pane.append(b"\x1b[4:7H");
    assert_eq!(pane.cursor(), (3, 6));
}

#[test]
fn move_cursor_keeps_the_cursor_inside() {
    let mut pane = pane(80, 24);
    pane.move_cursor(3, 7);
    assert_eq!(pane.cursor(), (3, 7));
    pane.move_cursor(24, 80);
    assert_eq!(pane.cursor(), (23, 79));
    pane.move_cursor(usize::MAX, 0);
    assert_eq!(pane.cursor(), (23, 0));
    pane.move_cursor(0, usize::MAX);
    assert_eq!(pane.cursor(), (0, 79));
}

#[test]
fn clear_blanks_everything_and_homes_the_cursor() {
    let mut pane = pane(3, 2);
    pane.append(b"\x1b[31mabcd");
    pane.clear();
    assert_eq!(pane.read(), "   \n   \n");
    assert_eq!(pane.cursor(), (0, 0));
    pane.append(b"x");
    let lines = pane.read_colored_lines();
    assert_eq!(lines[0][0], ("x".to_string(), Color::Palette(1)));
}

#[test]
fn reading_does_not_change_the_pane() {
    let mut pane = pane(4, 2);
    pane.append(b"ab\x1b[3");
    let first = (pane.read(), pane.cursor(), pane.read_colored_lines());
    let second = (pane.read(), pane.cursor(), pane.read_colored_lines());
    assert_eq!(first, second);
    pane.append(b"1mc");
    let lines = pane.read_colored_lines();
    assert_eq!(
        texts(&lines[0]),
        vec![("ab", Color::Default), ("c", Color::Palette(1)), (" ", Color::Default)]
    );
}

use remux::records::{is_whitespace, restore_commands};

#[test]
fn each_record_restores_its_window_and_layout() {
    let saved = "0 editor abcd,80x24,0,0,0\n1 shell ef01,80x24,0,0,1\n";
    assert_eq!(
        restore_commands(saved),
        vec![
            "new-window -n editor",
            "select-layout abcd,80x24,0,0,0",
            "new-window -n shell",
            "select-layout ef01,80x24,0,0,1",
        ]
    );
}

#[test]
fn lines_that_are_no_records_are_passed_over() {
    let saved = "%begin 1 2\n0 editor tiled\ngarbage\n\n   \nonly two\n1 shell even-horizontal\n";
    assert_eq!(
        restore_commands(saved),
        vec![
            "new-window -n 1",
            "select-layout 2",
            "new-window -n editor",
            "select-layout tiled",
            "new-window -n shell",
            "select-layout even-horizontal",
        ]
    );
}

#[test]
fn a_file_without_records_restores_nothing() {
    assert_eq!(restore_commands(""), Vec::<String>::new());
    assert_eq!(restore_commands("\n\n"), Vec::<String>::new());
    assert_eq!(restore_commands("one\ntwo words\n"), Vec::<String>::new());
    assert_eq!(restore_commands("a b\nc\n"), Vec::<String>::new());
}

#[test]
fn words_beyond_the_third_are_ignored() {
    assert_eq!(
        restore_commands("0 editor tiled extra words here\n"),
        vec!["new-window -n editor", "select-layout tiled"]
    );
}

#[test]
fn any_white_space_separates_words() {
    assert_eq!(
        restore_commands("  0\t editor \u{a0}\u{3000} tiled  \r\n\t1\u{2003}shell\u{85}wide"),
        vec![
            "new-window -n editor",
            "select-layout tiled",
            "new-window -n shell",
            "select-layout wide",
        ]
    );
}

#[test]
fn the_last_line_needs_no_line_feed() {
    assert_eq!(
        restore_commands("0 a b\n1 c d"),
        vec!["new-window -n a", "select-layout b", "new-window -n c", "select-layout d"]
    );
}

#[test]
fn restoring_agrees_with_splitting_by_lines_and_white_space() {
    let saved = "0 α β\n\nx\n 1  two\tthree four \r\n%end\n2 c d";
    let mut expected = Vec::new();
    for line in saved.lines() {
        let parts: Vec<&str> = line.split_whitespace().collect();
        if parts.len() >= 3 {
            expected.push(format!("new-window -n {}", parts[1]));
            expected.push(format!("select-layout {}", parts[2]));
        }
    }
    assert_eq!(restore_commands(saved), expected);
    assert_eq!(expected.len(), 6);
}

#[test]
fn white_space_is_what_unicode_calls_so() {
    let mut code = 0u32;
    while code <= 0x3100 {
        if let Some(c) = char::from_u32(code) {
            assert_eq!(is_whitespace(c), c.is_whitespace(), "U+{:04X}", code);
        }
        code += 1;
    }
    assert!(!is_whitespace('a'));
    assert!(!is_whitespace('\u{200b}'));
    assert!(!is_whitespace('\u{10ffff}'));
}

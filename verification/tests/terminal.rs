use remux::pane::WezTerminalPane;
use remux::terminal::{TerminalPane, COLUMNS, ROWS};

fn blank_line() -> String {
    let mut line = " ".repeat(80);
    line.push('\n');
    line
}

fn first_line(pane: &TerminalPane) -> String {
    pane.read().lines().next().unwrap().to_string()
}

#[test]
fn terminal_pane_has_the_usual_size() {
    assert_eq!(COLUMNS, 80);
    assert_eq!(ROWS, 24);
    let pane = TerminalPane::new();
    assert_eq!(*pane.read(), blank_line().repeat(24));
    assert_eq!(pane.cursor(), (0, 0));
}

#[test]
fn terminal_pane_shows_coloured_text() {
    let mut pane = TerminalPane::new();
    pane.append_raw("\x1b[31mHi\x1b[0m");
    assert_eq!(first_line(&pane), format!("Hi{}", " ".repeat(78)));
    assert_eq!(pane.cursor(), (0, 2));
}

#[test]
fn terminal_pane_places_the_cursor() {
    let mut pane = TerminalPane::new();
    pane.append_raw("\x1b[5;10H");
    assert_eq!(pane.cursor(), (4, 9));
    pane.append_raw("\x1b[H");
    assert_eq!(pane.cursor(), (0, 0));
    pane.append_raw("\x1b[999;999H");
    assert_eq!(pane.cursor(), (23, 79));
    pane.append_raw("\x1b[;7H");
    assert_eq!(pane.cursor(), (0, 6));
    pane.append_raw("\x1b[4:7H");
    assert_eq!(pane.cursor(), (3, 6));
}

#[test]
fn terminal_pane_erases_the_display() {
    let mut pane = TerminalPane::new();
    pane.append_raw("some text\r\nmore text");
    pane.append_raw("\x1b[2J");
    assert_eq!(*pane.read(), blank_line().repeat(24));
    assert_eq!(pane.cursor(), (0, 0));
}

#[test]
fn terminal_pane_moves_on_line_feed_and_carriage_return() {
    let mut pane = TerminalPane::new();
    pane.append_raw("ab\r\ncd\n");
    assert_eq!(pane.cursor(), (2, 2));
    let text = pane.read();
    let mut lines = text.lines();
    assert_eq!(lines.next().unwrap().trim_end(), "ab");
    assert_eq!(lines.next().unwrap().trim_end(), "cd");
}

#[test]
fn terminal_pane_decodes_text_of_several_bytes() {
    let mut pane = TerminalPane::new();
    pane.append_raw("é€😀");
    assert_eq!(pane.cursor(), (0, 3));
    assert_eq!(first_line(&pane), format!("é€😀{}", " ".repeat(77)));
}

#[test]
fn terminal_pane_carries_a_sequence_from_call_to_call() {
    let input: &[u8] = b"ab\x1b[32mc\x1b[2;3Hd\xe2\x82\xace\r\nf\x1b[1Jg";
    let mut whole = TerminalPane::new();
    whole.append(input);
    for cut in 0..=input.len() {
        let mut parts = TerminalPane::new();
        parts.append(&input[..cut]);
        parts.append(&input[cut..]);
        assert_eq!(parts.read(), whole.read(), "cut at {}", cut);
        assert_eq!(parts.cursor(), whole.cursor(), "cut at {}", cut);
    }
}

#[test]
fn terminal_pane_ignores_what_it_does_not_know() {
    let mut pane = TerminalPane::new();
    pane.append_raw("a\x1b[?25hb\x1b]0;title\x07c\x1b[3Ad\x07");
    assert_eq!(first_line(&pane), format!("abcd{}", " ".repeat(76)));
    assert_eq!(pane.cursor(), (0, 4));
}

#[test]
fn terminal_pane_handlers_act_on_the_screen() {
    let mut pane = TerminalPane::new();
    pane.print('x');
    pane.print('y');
    assert_eq!(pane.cursor(), (0, 2));
    pane.execute(b'\r');
    assert_eq!(pane.cursor(), (0, 0));
    pane.execute(b'\n');
    assert_eq!(pane.cursor(), (1, 0));
    pane.execute(0x07);
    assert_eq!(pane.cursor(), (1, 0));
    pane.csi_dispatch(&[3, 4], &[], false, 'H');
    assert_eq!(pane.cursor(), (2, 3));
    pane.csi_dispatch(&[], &[], false, 'H');
    assert_eq!(pane.cursor(), (0, 0));
    pane.csi_dispatch(&[7], &[b'?'], true, 'H');
    assert_eq!(pane.cursor(), (6, 0));
    pane.csi_dispatch(&[1, 1], &[], false, 'z');
    assert_eq!(pane.cursor(), (6, 0));
    assert_eq!(first_line(&pane), format!("xy{}", " ".repeat(78)));
    pane.csi_dispatch(&[2], &[], false, 'J');
    assert_eq!(*pane.read(), blank_line().repeat(24));
    assert_eq!(pane.cursor(), (0, 0));
}

#[test]
fn both_panes_show_the_same_for_plain_sequences() {
    let input = "one\r\n\x1b[31mtwo\x1b[0m\x1b[5;5Hthree\x1b[1J\x1b[10;1Hfour é€\x1b[0Jfive";
    let mut first = TerminalPane::new();
    first.append_raw(input);
    let mut second = WezTerminalPane::new(80, 24).unwrap();
    second.append_raw(input).unwrap();
    assert_eq!(*first.read(), second.read());
    assert_eq!(first.cursor(), second.cursor());
}

#[test]
fn terminal_pane_by_default_is_a_new_one() {
    let pane = TerminalPane::default();
    assert_eq!(*pane.read(), blank_line().repeat(24));
    assert_eq!(pane.cursor(), (0, 0));
}

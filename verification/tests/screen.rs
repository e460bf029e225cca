use remux::event::Event;
use remux::grid::Cell;
use remux::screen::Screen;
use remux::style::{Color, Style};

#[test]
fn a_screen_needs_at_least_one_cell() {
    assert!(Screen::new(0, 5).is_none());
    assert!(Screen::new(5, 0).is_none());
    let screen = Screen::new(2, 3).unwrap();
    assert_eq!(screen.rows(), 2);
    assert_eq!(screen.cols(), 3);
    assert_eq!(screen.cursor(), (0, 0));
    assert_eq!(screen.style(), Style::plain());
    assert_eq!(screen.cell(1, 2), Cell { ch: ' ', style: Style::plain() });
    assert_eq!(screen.text(), "   \n   \n");
}

#[test]
fn put_writes_in_the_current_style() {
    let mut screen = Screen::new(2, 2).unwrap();
    screen.restyle(&[32, 41]);
    screen.put('a');
    let style = Style { fg: Color::Palette(2), bg: Color::Palette(1), bold: false, underline: false };
    assert_eq!(screen.style(), style);
    assert_eq!(screen.cell(0, 0), Cell { ch: 'a', style });
    assert_eq!(screen.cell(0, 1), Cell { ch: ' ', style: Style::plain() });
    assert_eq!(screen.cursor(), (0, 1));
    screen.put('b');
    assert_eq!(screen.cursor(), (1, 0));
    screen.put('c');
    screen.put('d');
    assert_eq!(screen.cursor(), (1, 0));
    assert_eq!(screen.text(), "ab\ncd\n");
}

#[test]
fn restyle_with_no_parameter_changes_nothing() {
    let mut screen = Screen::new(1, 1).unwrap();
    screen.restyle(&[35]);
    screen.restyle(&[]);
    assert_eq!(screen.style().fg, Color::Palette(5));
    screen.restyle(&[29, 38, 39, 48, 100]);
    assert_eq!(screen.style().fg, Color::Palette(5));
    assert_eq!(screen.style().bg, Color::Default);
    screen.restyle(&[47, 30]);
    assert_eq!(screen.style().fg, Color::Palette(0));
    assert_eq!(screen.style().bg, Color::Palette(7));
    screen.restyle(&[0]);
    assert_eq!(screen.style(), Style::plain());
}

#[test]
fn position_reads_row_then_column() {
    let mut screen = Screen::new(10, 20).unwrap();
    screen.position(&[3, 7]);
    assert_eq!(screen.cursor(), (2, 6));
    screen.position(&[3, 7, 9]);
    assert_eq!(screen.cursor(), (2, 6));
    screen.position(&[11, 21]);
    assert_eq!(screen.cursor(), (9, 19));
    screen.position(&[65535, 65535]);
    assert_eq!(screen.cursor(), (9, 19));
    screen.position(&[]);
    assert_eq!(screen.cursor(), (0, 0));
}

#[test]
fn events_are_applied_in_order() {
    let mut screen = Screen::new(3, 4).unwrap();
    let events = vec![
        Event::Print('a'),
        Event::Csi(vec![31], 'm'),
        Event::Print('b'),
        Event::Execute(b'\n'),
        Event::Execute(b'\r'),
        Event::Print('c'),
        Event::Csi(vec![3, 4], 'H'),
        Event::Print('d'),
        Event::Csi(vec![1, 2], 'H'),
        Event::Csi(vec![1], 'J'),
        Event::Csi(vec![9], 'J'),
        Event::Csi(vec![1, 1], 'q'),
        Event::Execute(0x07),
    ];
    screen.apply_all(&events);
    assert_eq!(screen.text(), "    \nc   \n   d\n");
    assert_eq!(screen.cursor(), (0, 1));
    let segments = screen.segments();
    assert_eq!(segments[0], vec![("    ".to_string(), Color::Default)]);
    assert_eq!(segments[1], vec![("c".to_string(), Color::Palette(1)), ("   ".to_string(), Color::Default)]);
    assert_eq!(segments[2], vec![("   ".to_string(), Color::Default), ("d".to_string(), Color::Palette(1))]);
    screen.apply(&Event::Csi(vec![], 'J'));
    assert_eq!(screen.text(), "    \nc   \n   d\n".replace('c', " ").replace("   d", "    "));
}

#[test]
fn erase_modes_take_the_cursor_cell_with_them() {
    let mut screen = Screen::new(1, 5).unwrap();
    for c in "abcd".chars() {
        screen.put(c);
    }
    screen.put('e');
    screen.move_to(0, 2);
    screen.erase(1);
    assert_eq!(screen.text(), "   de\n");
    screen.move_to(0, 4);
    screen.erase(0);
    assert_eq!(screen.text(), "   d \n");
    assert_eq!(screen.cursor(), (0, 4));
    screen.erase(2);
    assert_eq!(screen.text(), "     \n");
    assert_eq!(screen.cursor(), (0, 0));
}

use remux::style::{color_to_rgba, Color, Rgba, Style};

fn rgb(r: u8, g: u8, b: u8) -> Rgba {
    Rgba { r, g, b, a: 255 }
}

#[test]
fn default_colour_shows_as_white() {
    assert_eq!(color_to_rgba(Color::Default), rgb(255, 255, 255));
}

#[test]
fn palette_entries_have_their_colours() {
    let expected = [
        rgb(0, 0, 0),
        rgb(128, 0, 0),
        rgb(0, 128, 0),
        rgb(128, 128, 0),
        rgb(0, 0, 128),
        rgb(128, 0, 128),
        rgb(0, 128, 128),
        rgb(220, 220, 220),
        rgb(160, 160, 160),
        rgb(255, 0, 0),
        rgb(0, 255, 0),
        rgb(255, 255, 0),
        rgb(0, 0, 255),
        rgb(255, 0, 255),
        rgb(0, 255, 255),
        rgb(255, 255, 255),
    ];
    for (index, colour) in expected.iter().enumerate() {
        assert_eq!(color_to_rgba(Color::Palette(index as u8)), *colour, "entry {}", index);
    }
}

#[test]
fn palette_entries_beyond_the_sixteenth_show_as_white() {
    assert_eq!(color_to_rgba(Color::Palette(16)), rgb(255, 255, 255));
    assert_eq!(color_to_rgba(Color::Palette(200)), rgb(255, 255, 255));
    assert_eq!(color_to_rgba(Color::Palette(255)), rgb(255, 255, 255));
}

#[test]
fn plain_style_has_default_colours_and_no_flags() {
    let style = Style::plain();
    assert_eq!(style.fg, Color::Default);
    assert_eq!(style.bg, Color::Default);
    assert!(!style.bold);
    assert!(!style.underline);
}

#[test]
fn colour_from_three_channels_is_opaque() {
    assert_eq!(Rgba::from_rgb(1, 2, 3), Rgba { r: 1, g: 2, b: 3, a: 255 });
}

//! A terminal pane that interprets escape sequences into a grid of styled cells, and the
//! command protocol of a terminal multiplexer's control mode.

pub mod client;
pub mod command;
pub mod event;
pub mod grid;
pub mod manager;
pub mod pane;
pub mod recognizer;
pub mod records;
pub mod screen;
pub mod sequences;
pub mod strings;
pub mod style;
pub mod terminal;
pub mod text;
pub mod tokenizer;

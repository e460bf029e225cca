//! A pane of the usual size that leaves the recognition of escape sequences to the `vte`
//! crate and keeps the screen that its events describe.

use vstd::prelude::*;
use vstd::string::StringSliceAdditionalSpecFns;
use crate::event::views_of;
use crate::grid::{lemma_apply_all_concat, lemma_apply_all_wf, EventView, Grid};
use crate::screen::Screen;
use crate::tokenizer::{advance, consumed, new_parser, recognized_all};

verus! {

/// The number of columns of a pane.
pub const COLUMNS: usize = 80;

/// The number of rows of a pane.
pub const ROWS: usize = 24;

/// A pane as the model sees it: what it shows, and the bytes it has been given.
pub struct TerminalView {
    pub grid: Grid,
    pub consumed: Seq<u8>,
}

impl TerminalView {
    /// The pane after a run of bytes: the events that the recogniser reports for them are
    /// applied to the grid, in order.
    pub open spec fn feed_all(self, bytes: Seq<u8>) -> TerminalView {
        TerminalView {
            grid: self.grid.apply_all(recognized_all(self.consumed, bytes)),
            consumed: self.consumed + bytes,
        }
    }
}

/// A terminal pane of 24 rows and 80 columns.
pub struct TerminalPane {
    screen: Screen,
    parser: vte::Parser<1024>,
    buffer: String,
}

impl View for TerminalPane {
    type V = TerminalView;

    closed spec fn view(&self) -> TerminalView {
        TerminalView { grid: self.screen@, consumed: consumed(self.parser) }
    }
}

impl TerminalPane {
    /// The screen is well-formed, and the text kept for readers is the text on it.
    pub closed spec fn wf(&self) -> bool {
        &&& self.screen.wf()
        &&& self@.grid.wf()
        &&& self.buffer@ == self@.grid.text()
    }

    /// A well-formed pane shows a well-formed grid.
    pub proof fn lemma_wf(&self)
        requires
            self.wf(),
        ensures
            self@.grid.wf(),
    {
    }

    /// A blank pane that has been given no byte yet.
    pub fn new() -> (pane: TerminalPane)
        ensures
            pane.wf(),
            pane@ == (TerminalView {
                grid: Grid::blank(ROWS as nat, COLUMNS as nat),
                consumed: Seq::empty(),
            }),
    {
        let screen = Screen::new(ROWS, COLUMNS).unwrap();
        proof {
            screen.lemma_wf();
        }
        let buffer = screen.text();
        TerminalPane { screen, parser: new_parser(), buffer }
    }

    /// Interprets the bytes, in order.
    pub fn append(&mut self, bytes: &[u8])
        requires
            old(self).wf(),
        ensures
            final(self).wf(),
            final(self)@ == old(self)@.feed_all(bytes@),
            final(self)@.grid.rows == old(self)@.grid.rows,
            final(self)@.grid.cols == old(self)@.grid.cols,
    {
        proof {
            lemma_feed_all_wf(old(self)@, bytes@);
        }
        let mut i: usize = 0;
        proof {
            assert(old(self)@.consumed + bytes@.take(0) =~= old(self)@.consumed);
        }
        while i < bytes.len()
            invariant
                i <= bytes.len(),
                self.screen.wf(),
                self@.grid.wf(),
                self@ == old(self)@.feed_all(bytes@.take(i as int)),
            decreases bytes.len() - i,
        {
            let events = advance(&mut self.parser, bytes[i]);
            self.screen.apply_all(&events);
            proof {
                let done = bytes@.take(i as int);
                let next = bytes@.take(i + 1);
                assert(next.drop_last() =~= done);
                assert(old(self)@.consumed + next =~= (old(self)@.consumed + done).push(
                    bytes@[i as int],
                ));
                lemma_apply_all_concat(
                    old(self)@.grid,
                    recognized_all(old(self)@.consumed, done),
                    views_of(events@),
                );
                self.screen.lemma_wf();
            }
            i += 1;
        }
        proof {
            assert(bytes@.take(i as int) =~= bytes@);
        }
        self.buffer = self.screen.text();
    }

    /// Interprets the bytes of a piece of text.
    pub fn append_raw(&mut self, raw_input: &str)
        requires
            old(self).wf(),
        ensures
            final(self).wf(),
            final(self)@ == old(self)@.feed_all(raw_input.spec_bytes()),
            final(self)@.grid.rows == old(self)@.grid.rows,
            final(self)@.grid.cols == old(self)@.grid.cols,
    {
        self.append(raw_input.as_bytes());
    }

    /// The text on the screen: the characters of each row, each row followed by a line
    /// feed.
    pub fn read(&self) -> (text: &String)
        requires
            self.wf(),
        ensures
            text@ == self@.grid.text(),
    {
        &self.buffer
    }

    /// The cursor's row and column, counted from zero; it is always inside the grid.
    pub fn cursor(&self) -> (cursor: (usize, usize))
        requires
            self.wf(),
        ensures
            cursor.0 == self@.grid.row,
            cursor.1 == self@.grid.col,
            cursor.0 < self@.grid.rows,
            cursor.1 < self@.grid.cols,
    {
        self.screen.cursor()
    }

    /// Shows a character at the cursor, in the current style, and moves the cursor on.
    pub fn print(&mut self, c: char)
        requires
            old(self).wf(),
        ensures
            final(self).wf(),
            final(self)@ == (TerminalView { grid: old(self)@.grid.put(c), ..old(self)@ }),
    {
        self.screen.put(c);
        proof {
            self.screen.lemma_wf();
        }
        self.buffer = self.screen.text();
    }

    /// Carries out a control byte: a line feed or a carriage return moves the cursor, and
    /// any other byte does nothing.
    pub fn execute(&mut self, byte: u8)
        requires
            old(self).wf(),
        ensures
            final(self).wf(),
            final(self)@ == (TerminalView { grid: old(self)@.grid.execute(byte), ..old(self)@ }),
    {
        self.screen.execute(byte);
        proof {
            self.screen.lemma_wf();
        }
        self.buffer = self.screen.text();
    }

    /// Carries out a control sequence, given its parameters and its final character: `m`
    /// sets the style, `H` places the cursor, `J` erases, and any other does nothing. The
    /// intermediate bytes and the mark of an overlong sequence play no part.
    pub fn csi_dispatch(
        &mut self,
        params: &[u16],
        _intermediates: &[u8],
        _ignore: bool,
        action: char,
    )
        requires
            old(self).wf(),
        ensures
            final(self).wf(),
            final(self)@ == (TerminalView {
                grid: old(self)@.grid.dispatch(params@, action),
                ..old(self)@
            }),
    {
        self.screen.dispatch(params, action);
        proof {
            self.screen.lemma_wf();
        }
        self.buffer = self.screen.text();
    }
}

impl Default for TerminalPane {
    /// A blank pane that has been given no byte yet.
    fn default() -> (pane: TerminalPane)
        ensures
            pane.wf(),
            pane@ == (TerminalView {
                grid: Grid::blank(ROWS as nat, COLUMNS as nat),
                consumed: Seq::empty(),
            }),
    {
        TerminalPane::new()
    }
}

/// The events reported for a run of bytes are those reported for its first part, followed
/// by those reported for the rest after that part.
pub proof fn lemma_recognized_all_split(before: Seq<u8>, first: Seq<u8>, second: Seq<u8>)
    ensures
        recognized_all(before, first + second) == recognized_all(before, first)
            + recognized_all(before + first, second),
    decreases second.len(),
{
    if second.len() == 0 {
        assert(first + second =~= first);
        assert(recognized_all(before, first) + Seq::<EventView>::empty() =~= recognized_all(
            before,
            first,
        ));
    } else {
        lemma_recognized_all_split(before, first, second.drop_last());
        assert((first + second).drop_last() =~= first + second.drop_last());
        assert(before + (first + second).drop_last() =~= (before + first) + second.drop_last());
        assert(recognized_all(before, first + second) =~= recognized_all(before, first)
            + recognized_all(before + first, second));
    }
}

/// Taking a run of bytes in two parts, cut anywhere, gives the pane that taking it whole
/// gives: the recogniser carries a sequence under way from one part to the next.
pub proof fn lemma_feed_all_split(pane: TerminalView, first: Seq<u8>, second: Seq<u8>)
    ensures
        pane.feed_all(first + second) == pane.feed_all(first).feed_all(second),
{
    lemma_recognized_all_split(pane.consumed, first, second);
    lemma_apply_all_concat(
        pane.grid,
        recognized_all(pane.consumed, first),
        recognized_all(pane.consumed + first, second),
    );
    assert(pane.consumed + (first + second) =~= (pane.consumed + first) + second);
}

/// Any run of bytes keeps a well-formed grid well-formed, with the dimensions it had.
pub proof fn lemma_feed_all_wf(pane: TerminalView, bytes: Seq<u8>)
    requires
        pane.grid.wf(),
    ensures
        pane.feed_all(bytes).grid.wf(),
        pane.feed_all(bytes).grid.rows == pane.grid.rows,
        pane.feed_all(bytes).grid.cols == pane.grid.cols,
{
    lemma_apply_all_wf(pane.grid, recognized_all(pane.consumed, bytes));
}

} // verus!

//! A pane with a recogniser of its own: bytes go in, and the screen follows them.

use vstd::prelude::*;
use vstd::string::StringSliceAdditionalSpecFns;
use crate::grid::{runs, Grid};
use crate::recognizer::{resting, step, ParserState, ParserView, Phase};
use crate::screen::{segment_views, Screen};
use crate::style::Color;

verus! {

/// Why a pane could not be made.
#[derive(Clone, Copy, Debug, PartialEq, Eq, Structural)]
pub enum PaneError {
    /// The pane would have no cell: its width or its height is zero.
    EmptyGrid,
}

/// A pane as the model sees it: what it shows, and where its recogniser stands.
pub struct PaneView {
    pub grid: Grid,
    pub parser: ParserView,
}

impl PaneView {
    /// Both parts are well-formed.
    pub open spec fn wf(self) -> bool {
        self.grid.wf() && self.parser.wf()
    }

    /// The pane after one byte: the recogniser takes the byte, and the event that the byte
    /// completes, if any, is applied to the grid.
    pub open spec fn feed(self, byte: u8) -> PaneView {
        let (parser, event) = step(self.parser, byte);
        PaneView {
            grid: match event {
                Some(e) => self.grid.apply(e),
                None => self.grid,
            },
            parser,
        }
    }

    /// The pane after a run of bytes, taken in order.
    pub open spec fn feed_all(self, bytes: Seq<u8>) -> PaneView
        decreases bytes.len(),
    {
        if bytes.len() == 0 {
            self
        } else {
            self.feed_all(bytes.drop_last()).feed(bytes.last())
        }
    }
}

/// A terminal pane of a fixed size. It interprets the bytes appended to it and keeps the
/// grid of cells, the cursor and the current style that result. Each character is written
/// to its cell as soon as its last byte has come, so text never waits behind a control
/// sequence that follows it: the effects on the screen keep the order of the bytes.
pub struct WezTerminalPane {
    screen: Screen,
    parser: ParserState,
}

impl View for WezTerminalPane {
    type V = PaneView;

    closed spec fn view(&self) -> PaneView {
        PaneView { grid: self.screen@, parser: self.parser@ }
    }
}

impl WezTerminalPane {
    /// The pane's state is one that the model calls well-formed.
    pub closed spec fn wf(&self) -> bool {
        self.screen.wf() && self@.wf()
    }

    /// A well-formed pane shows a well-formed state.
    pub proof fn lemma_wf(&self)
        requires
            self.wf(),
        ensures
            self@.wf(),
    {
    }

    /// A blank pane `width` columns wide and `height` rows high, its cursor at the origin
    /// and its recogniser between sequences. A pane without cells is refused.
    pub fn new(width: usize, height: usize) -> (pane: Result<WezTerminalPane, PaneError>)
        ensures
            pane is Ok <==> width > 0 && height > 0,
            pane is Err ==> pane == Err::<WezTerminalPane, PaneError>(PaneError::EmptyGrid),
            pane is Ok ==> pane->Ok_0.wf() && pane->Ok_0@ == (PaneView {
                grid: Grid::blank(height as nat, width as nat),
                parser: resting(Phase::Ground),
            }),
    {
        match Screen::new(height, width) {
            Some(screen) => {
                proof {
                    screen.lemma_wf();
                }
                Ok(WezTerminalPane { screen, parser: ParserState::new() })
            },
            None => Err(PaneError::EmptyGrid),
        }
    }

    /// Interprets the bytes, in order. Nothing in them is an error: what the recogniser
    /// does not know is passed over.
    pub fn append(&mut self, bytes: &[u8])
        requires
            old(self).wf(),
        ensures
            final(self).wf(),
            final(self)@ == old(self)@.feed_all(bytes@),
            final(self)@.grid.rows == old(self)@.grid.rows,
            final(self)@.grid.cols == old(self)@.grid.cols,
    {
        proof {
            lemma_feed_all_wf(old(self)@, bytes@);
        }
        let mut i: usize = 0;
        while i < bytes.len()
            invariant
                i <= bytes.len(),
                self.wf(),
                self@ == old(self)@.feed_all(bytes@.take(i as int)),
            decreases bytes.len() - i,
        {
            proof {
                assert(bytes@.take(i + 1).drop_last() =~= bytes@.take(i as int));
                self.screen.lemma_wf();
            }
            match self.parser.advance(bytes[i]) {
                Some(event) => {
                    self.screen.apply(&event);
                },
                None => {},
            }
            proof {
                self.screen.lemma_wf();
            }
            i += 1;
        }
        proof {
            assert(bytes@.take(i as int) =~= bytes@);
        }
    }

    /// Interprets the bytes of a piece of text. It always succeeds.
    pub fn append_raw(&mut self, raw_input: &str) -> (done: Result<(), PaneError>)
        requires
            old(self).wf(),
        ensures
            done is Ok,
            final(self).wf(),
            final(self)@ == old(self)@.feed_all(raw_input.spec_bytes()),
            final(self)@.grid.rows == old(self)@.grid.rows,
            final(self)@.grid.cols == old(self)@.grid.cols,
    {
        self.append(raw_input.as_bytes());
        Ok(())
    }

    /// The text on the screen: the characters of each row, each row followed by a line
    /// feed.
    pub fn read(&self) -> (text: String)
        requires
            self.wf(),
        ensures
            text@ == self@.grid.text(),
    {
        self.screen.text()
    }

    /// The cursor's row and column, counted from zero; it is always inside the grid.
    pub fn cursor(&self) -> (cursor: (usize, usize))
        requires
            self.wf(),
        ensures
            cursor.0 == self@.grid.row,
            cursor.1 == self@.grid.col,
            cursor.0 < self@.grid.rows,
            cursor.1 < self@.grid.cols,
    {
        proof {
            self.screen.lemma_wf();
        }
        self.screen.cursor()
    }

    /// Moves the cursor to the given row and column, counted from zero and kept inside the
    /// grid.
    pub fn move_cursor(&mut self, row: usize, col: usize)
        requires
            old(self).wf(),
        ensures
            final(self).wf(),
            final(self)@ == (PaneView {
                grid: old(self)@.grid.move_to(row as nat, col as nat),
                ..old(self)@
            }),
    {
        self.screen.move_to(row, col);
        proof {
            self.screen.lemma_wf();
        }
    }

    /// Blanks every cell and returns the cursor to the origin.
    pub fn clear(&mut self)
        requires
            old(self).wf(),
        ensures
            final(self).wf(),
            final(self)@ == (PaneView { grid: old(self)@.grid.erase(2), ..old(self)@ }),
    {
        self.screen.erase(2);
        proof {
            self.screen.lemma_wf();
        }
    }

    /// What a renderer paints: for each row, top to bottom, its runs of one foreground
    /// colour, left to right, each with its text.
    pub fn read_colored_lines(&self) -> (lines: Vec<Vec<(String, Color)>>)
        requires
            self.wf(),
        ensures
            lines@.len() == self@.grid.rows,
            forall|r: int|
                0 <= r < self@.grid.rows ==> segment_views((#[trigger] lines@[r])@) == runs(
                    self@.grid.cells[r],
                ),
    {
        self.screen.segments()
    }
}

/// Taking a run of bytes in two parts, cut anywhere, gives the pane that taking it whole
/// gives: the recogniser carries a sequence under way from one part to the next.
pub proof fn lemma_feed_all_split(pane: PaneView, first: Seq<u8>, second: Seq<u8>)
    ensures
        pane.feed_all(first + second) == pane.feed_all(first).feed_all(second),
    decreases second.len(),
{
    if second.len() == 0 {
        assert(first + second =~= first);
    } else {
        lemma_feed_all_split(pane, first, second.drop_last());
        assert((first + second).drop_last() =~= first + second.drop_last());
        assert((first + second).last() == second.last());
    }
}

/// The pane after a run of bytes and one more byte is the pane after the run, fed the byte.
pub proof fn lemma_feed_all_push(pane: PaneView, bytes: Seq<u8>, byte: u8)
    ensures
        pane.feed_all(bytes.push(byte)) == pane.feed_all(bytes).feed(byte),
{
    assert(bytes.push(byte).drop_last() =~= bytes);
}

/// Any run of bytes keeps a well-formed pane well-formed, with the dimensions it had.
pub proof fn lemma_feed_all_wf(pane: PaneView, bytes: Seq<u8>)
    requires
        pane.wf(),
    ensures
        pane.feed_all(bytes).wf(),
        pane.feed_all(bytes).grid.rows == pane.grid.rows,
        pane.feed_all(bytes).grid.cols == pane.grid.cols,
    decreases bytes.len(),
{
    if bytes.len() > 0 {
        lemma_feed_all_wf(pane, bytes.drop_last());
        let before = pane.feed_all(bytes.drop_last());
        crate::recognizer::lemma_step_wf(before.parser, bytes.last());
        match step(before.parser, bytes.last()).1 {
            Some(e) => {
                crate::grid::lemma_apply_wf(before.grid, e);
            },
            None => {},
        }
    }
}

} // verus!

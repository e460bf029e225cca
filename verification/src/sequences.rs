//! What the pane does with whole control sequences of the byte stream: the sequence that
//! erases the display, and the sequence that places the cursor.

use vstd::prelude::*;
use crate::grid::{
    blank_cell, clamped, lemma_erase_all, lemma_place_cursor, EventView, Grid,
};
use crate::pane::{lemma_feed_all_push, lemma_feed_all_split, PaneView};
use crate::recognizer::{resting, step, with_digit, with_param, ParserView, Phase};

verus! {

/// Whether every byte is a decimal digit.
pub open spec fn digits(bytes: Seq<u8>) -> bool {
    forall|i: int| 0 <= i < bytes.len() ==> 0x30 <= #[trigger] bytes[i] <= 0x39
}

/// The number that decimal digits write; no digit at all writes zero.
pub open spec fn number(bytes: Seq<u8>) -> nat
    decreases bytes.len(),
{
    if bytes.len() == 0 {
        0
    } else {
        (number(bytes.drop_last()) * 10 + (bytes.last() - 0x30)) as nat
    }
}

/// A number as a parameter holds it: itself up to 65535, and 65535 beyond.
pub open spec fn saturated(n: nat) -> u16 {
    if n > 0xffff {
        0xffffu16
    } else {
        n as u16
    }
}

/// The bytes of the sequence that erases the whole display.
pub open spec fn erase_display_sequence() -> Seq<u8> {
    seq![0x1bu8, 0x5bu8, 0x32u8, 0x4au8]
}

/// The bytes of the sequence that places the cursor, with the digits of its row and of its
/// column; either may be left out.
pub open spec fn cursor_sequence(row: Seq<u8>, col: Seq<u8>) -> Seq<u8> {
    seq![0x1bu8, 0x5bu8] + row + seq![0x3bu8] + col + seq![0x48u8]
}

/// The bytes of the sequence that places the cursor with the digits of its row alone.
pub open spec fn row_sequence(row: Seq<u8>) -> Seq<u8> {
    seq![0x1bu8, 0x5bu8] + row + seq![0x48u8]
}

/// An escape byte opens a new sequence wherever the recogniser stands, and shows nothing.
pub proof fn lemma_escape_restarts(state: ParserView)
    ensures
        step(state, 0x1b) == (resting(Phase::Escape), None::<EventView>),
{
}

/// The parameter that is being read, after a run of digits.
pub open spec fn read_digits(current: u16, bytes: Seq<u8>) -> u16
    decreases bytes.len(),
{
    if bytes.len() == 0 {
        current
    } else {
        with_digit(read_digits(current, bytes.drop_last()), (bytes.last() - 0x30) as u8)
    }
}

/// Digits read from nothing give the number they write, as a parameter holds it.
pub proof fn lemma_read_digits(bytes: Seq<u8>)
    requires
        digits(bytes),
    ensures
        read_digits(0, bytes) == saturated(number(bytes)),
    decreases bytes.len(),
{
    if bytes.len() > 0 {
        lemma_read_digits(bytes.drop_last());
    }
}

/// Digits inside a control sequence extend the parameter that is being read and change
/// nothing else.
pub proof fn lemma_feed_digits(pane: PaneView, bytes: Seq<u8>)
    requires
        pane.parser.phase == Phase::Csi,
        digits(bytes),
    ensures
        pane.feed_all(bytes) == (PaneView {
            parser: ParserView { current: read_digits(pane.parser.current, bytes), ..pane.parser },
            ..pane
        }),
    decreases bytes.len(),
{
    if bytes.len() > 0 {
        lemma_feed_digits(pane, bytes.drop_last());
    }
}

/// The pane after the two bytes that open a control sequence: the grid is as it was, and
/// the recogniser is at the start of the sequence.
pub proof fn lemma_feed_introducer(pane: PaneView)
    ensures
        pane.feed_all(seq![0x1bu8, 0x5bu8]) == (PaneView {
            grid: pane.grid,
            parser: resting(Phase::Csi),
        }),
{
    let empty = Seq::<u8>::empty();
    assert(seq![0x1bu8, 0x5bu8] =~= empty.push(0x1b).push(0x5b));
    lemma_feed_all_push(pane, empty.push(0x1b), 0x5b);
    lemma_feed_all_push(pane, empty, 0x1b);
    lemma_escape_restarts(pane.parser);
}

/// The sequence that erases the whole display does so wherever the recogniser stands:
/// afterwards every cell is a space in the plain style, the cursor is at the origin, and
/// the recogniser is between sequences.
pub proof fn lemma_erase_display(pane: PaneView)
    requires
        pane.wf(),
    ensures
        ({
            let after = pane.feed_all(erase_display_sequence());
            &&& after.grid == pane.grid.erase(2)
            &&& after.parser == resting(Phase::Ground)
            &&& after.grid.row == 0
            &&& after.grid.col == 0
            &&& after.grid.cells == Grid::blank(pane.grid.rows, pane.grid.cols).cells
            &&& forall|r: int, c: int|
                0 <= r < pane.grid.rows && 0 <= c < pane.grid.cols
                    ==> #[trigger] after.grid.cells[r][c] == blank_cell()
        }),
{
    let intro = seq![0x1bu8, 0x5bu8];
    lemma_feed_introducer(pane);
    assert(erase_display_sequence() =~= intro.push(0x32).push(0x4a));
    lemma_feed_all_push(pane, intro.push(0x32), 0x4a);
    lemma_feed_all_push(pane, intro, 0x32);
    let opened = pane.feed_all(intro);
    let counted = opened.feed(0x32);
    assert(counted.parser == ParserView { current: 2, ..resting(Phase::Csi) });
    assert(with_param(Seq::<u16>::empty(), 2) =~= seq![2u16]);
    let after = pane.feed_all(erase_display_sequence());
    assert(after.grid == pane.grid.dispatch(seq![2u16], 'J'));
    lemma_erase_all(pane.grid);
}

/// The sequence that places the cursor does so wherever the recogniser stands: the cursor
/// goes to the row and the column that the digits write, each counted from one, taken as
/// one where no digit is given, and kept inside the grid. Nothing else of the grid changes.
pub proof fn lemma_cursor_position(pane: PaneView, row: Seq<u8>, col: Seq<u8>)
    requires
        pane.wf(),
        digits(row),
        digits(col),
        number(row) <= 0xffff,
        number(col) <= 0xffff,
    ensures
        ({
            let after = pane.feed_all(cursor_sequence(row, col));
            &&& after.parser == resting(Phase::Ground)
            &&& after.grid == (Grid {
                row: after.grid.row,
                col: after.grid.col,
                ..pane.grid
            })
            &&& after.grid.row == clamped(number(row) - 1, 0, pane.grid.rows - 1)
            &&& after.grid.col == clamped(number(col) - 1, 0, pane.grid.cols - 1)
        }),
{
    let intro = seq![0x1bu8, 0x5bu8];
    let opened = pane.feed_all(intro);
    lemma_feed_introducer(pane);
    let first = opened.feed_all(row);
    lemma_feed_digits(opened, row);
    lemma_read_digits(row);
    let parted = first.feed(0x3b);
    assert(with_param(Seq::<u16>::empty(), saturated(number(row))) =~= seq![
        saturated(number(row)),
    ]);
    let second = parted.feed_all(col);
    lemma_feed_digits(parted, col);
    lemma_read_digits(col);
    let after = second.feed(0x48);
    let params = seq![saturated(number(row)), saturated(number(col))];
    assert(with_param(seq![saturated(number(row))], saturated(number(col))) =~= params);
    assert(after.grid == pane.grid.dispatch(params, 'H'));
    lemma_place_cursor(pane.grid, params);

    lemma_feed_all_split(pane, intro, row);
    lemma_feed_all_push(pane, intro + row, 0x3b);
    lemma_feed_all_split(pane, (intro + row).push(0x3b), col);
    lemma_feed_all_push(pane, (intro + row).push(0x3b) + col, 0x48);
    assert(cursor_sequence(row, col) =~= ((intro + row).push(0x3b) + col).push(0x48));
}

/// The sequence that places the cursor with a row alone puts it in that row, at the first
/// column.
pub proof fn lemma_cursor_row(pane: PaneView, row: Seq<u8>)
    requires
        pane.wf(),
        digits(row),
        number(row) <= 0xffff,
    ensures
        ({
            let after = pane.feed_all(row_sequence(row));
            &&& after.parser == resting(Phase::Ground)
            &&& after.grid == (Grid { row: after.grid.row, col: 0, ..pane.grid })
            &&& after.grid.row == clamped(number(row) - 1, 0, pane.grid.rows - 1)
        }),
{
    let intro = seq![0x1bu8, 0x5bu8];
    let opened = pane.feed_all(intro);
    lemma_feed_introducer(pane);
    let first = opened.feed_all(row);
    lemma_feed_digits(opened, row);
    lemma_read_digits(row);
    let after = first.feed(0x48);
    let params = seq![saturated(number(row))];
    assert(with_param(Seq::<u16>::empty(), saturated(number(row))) =~= params);
    assert(after.grid == pane.grid.dispatch(params, 'H'));
    lemma_place_cursor(pane.grid, params);

    lemma_feed_all_split(pane, intro, row);
    lemma_feed_all_push(pane, intro + row, 0x48);
    assert(row_sequence(row) =~= (intro + row).push(0x48));
}

} // verus!


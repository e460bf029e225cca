//! What the pane does with text: the bytes of each character, as UTF-8 writes it, show that
//! character, and text printed from the origin fills the grid as it stands.

use vstd::prelude::*;
use vstd::utf8::{encode_scalar, encode_utf8, is_scalar};
use crate::grid::{lemma_apply_all_concat, Cell, EventView, Grid};
use crate::pane::{lemma_feed_all_push, lemma_feed_all_split, PaneView};
use crate::recognizer::{decoding, resting, step, Phase};

verus! {

/// Whether a character is one that is shown: neither a control character nor the delete
/// character.
pub open spec fn shown(c: char) -> bool {
    c as u32 >= 0x20 && c as u32 != 0x7f
}

/// Whether every character of a text is one that is shown.
pub open spec fn all_shown(chars: Seq<char>) -> bool {
    forall|i: int| 0 <= i < chars.len() ==> shown(#[trigger] chars[i])
}

/// The event that shows the character at `index`.
pub open spec fn print_at(chars: Seq<char>, index: int) -> EventView {
    EventView::Print(chars[index])
}

/// The events that show the characters, one after the other.
pub open spec fn prints(chars: Seq<char>) -> Seq<EventView> {
    Seq::new(chars.len(), |i: int| print_at(chars, i))
}

/// Two cells of a grid that lie at the same distance from its start are the same cell.
proof fn lemma_same_cell(cols: int, r1: int, c1: int, r2: int, c2: int)
    requires
        0 <= c1 < cols,
        0 <= c2 < cols,
        r1 * cols + c1 == r2 * cols + c2,
    ensures
        r1 == r2,
        c1 == c2,
{
    assert(r1 == r2) by (nonlinear_arith)
        requires
            0 <= c1 < cols,
            0 <= c2 < cols,
            r1 * cols + c1 == r2 * cols + c2,
    ;
}

/// Text printed from the origin fills the grid row by row. After `n` characters, fewer than
/// the grid has cells, the cursor stands `n` cells from the origin; each of the first `n`
/// cells holds its character in the style that was current; every other cell is as it
/// was; and the style has not changed.
pub proof fn lemma_print_from_origin(grid: Grid, chars: Seq<char>)
    requires
        grid.wf(),
        grid.row == 0,
        grid.col == 0,
        chars.len() < grid.rows * grid.cols,
    ensures
        ({
            let after = grid.apply_all(prints(chars));
            &&& after.wf()
            &&& after.rows == grid.rows
            &&& after.cols == grid.cols
            &&& after.style == grid.style
            &&& after.row * grid.cols + after.col == chars.len()
            &&& after.row == chars.len() / grid.cols
            &&& after.col == chars.len() % grid.cols
            &&& forall|r: int, c: int|
                0 <= r < grid.rows && 0 <= c < grid.cols ==> #[trigger] after.cells[r][c] == (if r
                    * grid.cols + c < chars.len() {
                    Cell { ch: chars[r * grid.cols + c], style: grid.style }
                } else {
                    grid.cells[r][c]
                })
        }),
    decreases chars.len(),
{
    let cols = grid.cols as int;
    let after = grid.apply_all(prints(chars));
    if chars.len() == 0 {
        assert(0 * cols == 0) by (nonlinear_arith);
        assert forall|r: int, c: int|
            0 <= r < grid.rows && 0 <= c < grid.cols implies #[trigger] after.cells[r][c]
            == grid.cells[r][c] && !(r * cols + c < 0) by {
            assert(r * cols >= 0) by (nonlinear_arith)
                requires
                    r >= 0,
                    cols >= 0,
            ;
        }
    } else {
        let front = chars.drop_last();
        let n = chars.len() as int;
        lemma_print_from_origin(grid, front);
        assert(prints(chars).drop_last() =~= prints(front));
        let before = grid.apply_all(prints(front));
        assert(after == before.put(chars.last()));
        let row = before.row as int;
        let col = before.col as int;
        assert((row + 1) * cols == row * cols + cols) by (nonlinear_arith);
        if col + 1 >= cols {
            assert(row + 1 < grid.rows) by {
                if row + 1 >= grid.rows {
                    assert(grid.rows * cols == (row + 1) * cols);
                }
            }
        }
        assert(after.row * cols + after.col == n);
        assert forall|r: int, c: int|
            0 <= r < grid.rows && 0 <= c < grid.cols implies #[trigger] after.cells[r][c] == (if r
                * cols + c < n {
                Cell { ch: chars[r * cols + c], style: grid.style }
            } else {
                grid.cells[r][c]
            }) by {
            if r == row && c == col {
            } else {
                if r * cols + c == n - 1 {
                    lemma_same_cell(cols, r, c, row, col);
                }
                assert(after.cells[r][c] == before.cells[r][c]);
            }
        }
        assert forall|r: int| 0 <= r < after.rows implies (#[trigger] after.cells[r]).len()
            == after.cols by {}
    }
    vstd::arithmetic::div_mod::lemma_fundamental_div_mod_converse(
        chars.len() as int,
        cols,
        after.row as int,
        after.col as int,
    );
}

/// The byte of a code below 128 is the code itself.
proof fn lemma_one_byte(v: u32)
    by (bit_vector)
    requires
        v <= 0x7f,
    ensures
        (v & 0x7F) as u8 == v,
{
}

/// The two bytes of a code: a first byte that announces one more, and the code's bits
/// shared between them.
proof fn lemma_two_bytes(v: u32)
    by (bit_vector)
    requires
        0x80 <= v <= 0x7ff,
    ensures
        ({
            let b1 = 0xC0u8 | ((v >> 6) & 0x1F) as u8;
            let b2 = 0x80u8 | (v & 0x3F) as u8;
            &&& 0xc2 <= b1 <= 0xdf
            &&& 0x80 <= b2 <= 0xbf
            &&& (b1 - 0xc0) * 64 + (b2 - 0x80) == v
        }),
{
}

/// The three bytes of a code.
proof fn lemma_three_bytes(v: u32)
    by (bit_vector)
    requires
        0x800 <= v <= 0xffff,
    ensures
        ({
            let b1 = 0xE0u8 | ((v >> 12) & 0x0F) as u8;
            let b2 = 0x80u8 | ((v >> 6) & 0x3F) as u8;
            let b3 = 0x80u8 | (v & 0x3F) as u8;
            &&& 0xe0 <= b1 <= 0xef
            &&& 0x80 <= b2 <= 0xbf
            &&& 0x80 <= b3 <= 0xbf
            &&& ((b1 - 0xe0) * 64 + (b2 - 0x80)) * 64 + (b3 - 0x80) == v
        }),
{
}

/// The four bytes of a code.
proof fn lemma_four_bytes(v: u32)
    by (bit_vector)
    requires
        0x10000 <= v <= 0x10ffff,
    ensures
        ({
            let b1 = 0xF0u8 | ((v >> 18) & 0x7) as u8;
            let b2 = 0x80u8 | ((v >> 12) & 0x3F) as u8;
            let b3 = 0x80u8 | ((v >> 6) & 0x3F) as u8;
            let b4 = 0x80u8 | (v & 0x3F) as u8;
            &&& 0xf0 <= b1 <= 0xf4
            &&& 0x80 <= b2 <= 0xbf
            &&& 0x80 <= b3 <= 0xbf
            &&& 0x80 <= b4 <= 0xbf
            &&& (((b1 - 0xf0) * 64 + (b2 - 0x80)) * 64 + (b3 - 0x80)) * 64 + (b4 - 0x80) == v
        }),
{
}

/// A first byte and its one continuation byte show the character whose bits they hold.
proof fn lemma_feed_two(pane: PaneView, b1: u8, b2: u8, c: char)
    requires
        pane.parser.phase == Phase::Ground,
        0xc2 <= b1 <= 0xdf,
        0x80 <= b2 <= 0xbf,
        (b1 - 0xc0) * 64 + (b2 - 0x80) == c as u32,
        0x80 <= c as u32,
    ensures
        pane.feed(b1).feed(b2) == (PaneView {
            grid: pane.grid.put(c),
            parser: resting(Phase::Ground),
        }),
{
    broadcast use vstd::utf8::char_is_scalar, vstd::utf8::char_u32_cast;

    assert(is_scalar(c as u32));
    let s1 = step(pane.parser, b1).0;
    assert(s1 == decoding((b1 - 0xc0) as u32, 1, 0x80));
    assert(step(s1, b2) == (resting(Phase::Ground), Some(EventView::Print(c))));
}

/// A first byte and its two continuation bytes show the character whose bits they hold.
proof fn lemma_feed_three(pane: PaneView, b1: u8, b2: u8, b3: u8, c: char)
    requires
        pane.parser.phase == Phase::Ground,
        0xe0 <= b1 <= 0xef,
        0x80 <= b2 <= 0xbf,
        0x80 <= b3 <= 0xbf,
        ((b1 - 0xe0) * 64 + (b2 - 0x80)) * 64 + (b3 - 0x80) == c as u32,
        0x800 <= c as u32,
    ensures
        pane.feed(b1).feed(b2).feed(b3) == (PaneView {
            grid: pane.grid.put(c),
            parser: resting(Phase::Ground),
        }),
{
    broadcast use vstd::utf8::char_is_scalar, vstd::utf8::char_u32_cast;

    assert(is_scalar(c as u32));
    let s1 = step(pane.parser, b1).0;
    assert(s1 == decoding((b1 - 0xe0) as u32, 2, 0x800));
    let s2 = step(s1, b2).0;
    assert(s2 == decoding(((b1 - 0xe0) * 64 + (b2 - 0x80)) as u32, 1, 0x800));
    assert(step(s2, b3) == (resting(Phase::Ground), Some(EventView::Print(c))));
}

/// A first byte and its three continuation bytes show the character whose bits they hold.
proof fn lemma_feed_four(pane: PaneView, b1: u8, b2: u8, b3: u8, b4: u8, c: char)
    requires
        pane.parser.phase == Phase::Ground,
        0xf0 <= b1 <= 0xf4,
        0x80 <= b2 <= 0xbf,
        0x80 <= b3 <= 0xbf,
        0x80 <= b4 <= 0xbf,
        (((b1 - 0xf0) * 64 + (b2 - 0x80)) * 64 + (b3 - 0x80)) * 64 + (b4 - 0x80) == c as u32,
        0x10000 <= c as u32,
    ensures
        pane.feed(b1).feed(b2).feed(b3).feed(b4) == (PaneView {
            grid: pane.grid.put(c),
            parser: resting(Phase::Ground),
        }),
{
    broadcast use vstd::utf8::char_is_scalar, vstd::utf8::char_u32_cast;

    assert(is_scalar(c as u32));
    let s1 = step(pane.parser, b1).0;
    assert(s1 == decoding((b1 - 0xf0) as u32, 3, 0x10000));
    let s2 = step(s1, b2).0;
    assert(s2 == decoding(((b1 - 0xf0) * 64 + (b2 - 0x80)) as u32, 2, 0x10000));
    let s3 = step(s2, b3).0;
    assert(s3 == decoding(
        (((b1 - 0xf0) * 64 + (b2 - 0x80)) * 64 + (b3 - 0x80)) as u32,
        1,
        0x10000,
    ));
    assert(step(s3, b4) == (resting(Phase::Ground), Some(EventView::Print(c))));
}

/// The bytes of a character that is shown, reaching a recogniser between sequences, show
/// that character and leave the recogniser between sequences.
pub proof fn lemma_feed_character(pane: PaneView, c: char)
    requires
        pane.parser.phase == Phase::Ground,
        shown(c),
    ensures
        pane.feed_all(encode_scalar(c as u32)) == (PaneView {
            grid: pane.grid.put(c),
            parser: resting(Phase::Ground),
        }),
{
    broadcast use vstd::utf8::char_is_scalar;

    let v = c as u32;
    assert(is_scalar(v));
    let bytes = encode_scalar(v);
    let empty = Seq::<u8>::empty();
    if v <= 0x7f {
        lemma_one_byte(v);
        let b1 = bytes[0];
        assert(bytes =~= empty.push(b1));
        lemma_feed_all_push(pane, empty, b1);
        assert(b1 as char == c) by {
            broadcast use vstd::utf8::char_u32_cast;

        }
    } else if v <= 0x7ff {
        lemma_two_bytes(v);
        let b1 = bytes[0];
        let b2 = bytes[1];
        assert(bytes =~= empty.push(b1).push(b2));
        lemma_feed_all_push(pane, empty.push(b1), b2);
        lemma_feed_all_push(pane, empty, b1);
        lemma_feed_two(pane, b1, b2, c);
    } else if v <= 0xffff {
        lemma_three_bytes(v);
        let b1 = bytes[0];
        let b2 = bytes[1];
        let b3 = bytes[2];
        assert(bytes =~= empty.push(b1).push(b2).push(b3));
        lemma_feed_all_push(pane, empty.push(b1).push(b2), b3);
        lemma_feed_all_push(pane, empty.push(b1), b2);
        lemma_feed_all_push(pane, empty, b1);
        lemma_feed_three(pane, b1, b2, b3, c);
    } else {
        lemma_four_bytes(v);
        let b1 = bytes[0];
        let b2 = bytes[1];
        let b3 = bytes[2];
        let b4 = bytes[3];
        assert(bytes =~= empty.push(b1).push(b2).push(b3).push(b4));
        lemma_feed_all_push(pane, empty.push(b1).push(b2).push(b3), b4);
        lemma_feed_all_push(pane, empty.push(b1).push(b2), b3);
        lemma_feed_all_push(pane, empty.push(b1), b2);
        lemma_feed_all_push(pane, empty, b1);
        lemma_feed_four(pane, b1, b2, b3, b4, c);
    }
}

/// Text of characters that are shown, reaching a recogniser between sequences as UTF-8,
/// is shown character by character, in order.
pub proof fn lemma_feed_text(pane: PaneView, chars: Seq<char>)
    requires
        pane.parser == resting(Phase::Ground),
        all_shown(chars),
    ensures
        pane.feed_all(encode_utf8(chars)) == (PaneView {
            grid: pane.grid.apply_all(prints(chars)),
            parser: resting(Phase::Ground),
        }),
    decreases chars.len(),
{
    broadcast use vstd::utf8::char_is_scalar;

    if chars.len() == 0 {
        assert(encode_utf8(chars) =~= Seq::<u8>::empty());
    } else {
        let first = chars[0];
        let rest = chars.drop_first();
        lemma_feed_character(pane, first);
        let next = pane.feed_all(encode_scalar(first as u32));
        lemma_feed_text(next, rest);
        lemma_feed_all_split(pane, encode_scalar(first as u32), encode_utf8(rest));
        let one = prints(seq![first]);
        assert(one.len() == 1);
        assert(one.last() == EventView::Print(first));
        assert(one.drop_last() =~= Seq::<EventView>::empty());
        assert(pane.grid.apply_all(one.drop_last()) == pane.grid);
        assert(pane.grid.apply_all(one) == pane.grid.put(first));
        assert(prints(chars) =~= one + prints(rest));
        lemma_apply_all_concat(pane.grid, one, prints(rest));
    }
}

/// Text printed from the origin fills the grid row by row. After `n` characters that are
/// shown, fewer than the grid has cells, given as UTF-8 to a recogniser between sequences,
/// the cursor stands `n` cells from the origin: its column is `n` less the full rows. Each
/// of the first `n` cells holds its character in the style that was current, and every
/// other cell is as it was.
pub proof fn lemma_text_from_origin(pane: PaneView, chars: Seq<char>)
    requires
        pane.wf(),
        pane.parser == resting(Phase::Ground),
        pane.grid.row == 0,
        pane.grid.col == 0,
        all_shown(chars),
        chars.len() < pane.grid.rows * pane.grid.cols,
    ensures
        ({
            let after = pane.feed_all(encode_utf8(chars));
            &&& after.parser == resting(Phase::Ground)
            &&& after.grid.style == pane.grid.style
            &&& after.grid.row == chars.len() / pane.grid.cols
            &&& after.grid.col == chars.len() % pane.grid.cols
            &&& forall|r: int, c: int|
                0 <= r < pane.grid.rows && 0 <= c < pane.grid.cols
                    ==> #[trigger] after.grid.cells[r][c] == (if r * pane.grid.cols + c
                    < chars.len() {
                    Cell { ch: chars[r * pane.grid.cols + c], style: pane.grid.style }
                } else {
                    pane.grid.cells[r][c]
                })
        }),
{
    lemma_feed_text(pane, chars);
    lemma_print_from_origin(pane.grid, chars);
}

} // verus!

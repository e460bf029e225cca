//! The screen of a pane: the cells, the cursor and the current style, with one operation
//! for each effect that an event can have.

use vstd::prelude::*;
use crate::event::{views_of, Event};
use crate::grid::{
    blank_cell, blank_row, runs, style_after_all, wire_coordinate, Cell, Grid, Run,
};
use crate::style::{Color, Style};

verus! {

/// A fixed grid of cells with a cursor inside it and the style that new text takes.
pub struct Screen {
    rows: usize,
    cols: usize,
    cells: Vec<Vec<Cell>>,
    row: usize,
    col: usize,
    style: Style,
}

impl View for Screen {
    type V = Grid;

    closed spec fn view(&self) -> Grid {
        Grid {
            rows: self.rows as nat,
            cols: self.cols as nat,
            cells: Seq::new(self.cells@.len(), |r: int| self.cells@[r]@),
            row: self.row as nat,
            col: self.col as nat,
            style: self.style,
        }
    }
}

/// A row of blank cells.
fn new_blank_row(cols: usize) -> (row: Vec<Cell>)
    ensures
        row@ == blank_row(cols as nat),
{
    let mut row: Vec<Cell> = Vec::new();
    let mut c: usize = 0;
    while c < cols
        invariant
            c <= cols,
            row@ == blank_row(c as nat),
        decreases cols - c,
    {
        row.push(Cell { ch: ' ', style: Style::plain() });
        c += 1;
        assert(row@ =~= blank_row(c as nat));
    }
    row
}

impl Screen {
    /// The screen's state is one that the model calls well-formed.
    pub closed spec fn wf(&self) -> bool {
        self@.wf()
    }

    /// A well-formed screen shows a well-formed grid.
    pub proof fn lemma_wf(&self)
        requires
            self.wf(),
        ensures
            self@.wf(),
    {
    }

    /// A blank screen of the given size, or nothing where a dimension is zero.
    pub fn new(rows: usize, cols: usize) -> (screen: Option<Screen>)
        ensures
            screen is Some <==> rows > 0 && cols > 0,
            screen is Some ==> screen->0.wf() && screen->0@ == Grid::blank(rows as nat, cols as nat),
    {
        if rows == 0 || cols == 0 {
            return None;
        }
        let mut cells: Vec<Vec<Cell>> = Vec::new();
        let mut r: usize = 0;
        while r < rows
            invariant
                r <= rows,
                cells@.len() == r,
                forall|i: int| 0 <= i < r ==> (#[trigger] cells@[i])@ == blank_row(cols as nat),
            decreases rows - r,
        {
            cells.push(new_blank_row(cols));
            r += 1;
        }
        let screen = Screen { rows, cols, cells, row: 0, col: 0, style: Style::plain() };
        assert(screen@.cells =~= Grid::blank(rows as nat, cols as nat).cells);
        Some(screen)
    }

    /// The number of rows.
    pub fn rows(&self) -> (rows: usize)
        ensures
            rows == self@.rows,
    {
        self.rows
    }

    /// The number of columns.
    pub fn cols(&self) -> (cols: usize)
        ensures
            cols == self@.cols,
    {
        self.cols
    }

    /// The cursor's row and column, counted from zero.
    pub fn cursor(&self) -> (cursor: (usize, usize))
        ensures
            cursor.0 == self@.row,
            cursor.1 == self@.col,
    {
        (self.row, self.col)
    }

    /// The style that the next printed character takes.
    pub fn style(&self) -> (style: Style)
        ensures
            style == self@.style,
    {
        self.style
    }

    /// The cell at the given position.
    pub fn cell(&self, row: usize, col: usize) -> (cell: Cell)
        requires
            self.wf(),
            row < self@.rows,
            col < self@.cols,
        ensures
            cell == self@.cells[row as int][col as int],
    {
        self.cells[row][col]
    }

    /// Moves the cursor to the start of its row.
    pub fn carriage_return(&mut self)
        requires
            old(self).wf(),
        ensures
            final(self).wf(),
            final(self)@ == old(self)@.carriage_return(),
    {
        self.col = 0;
    }

    /// Moves the cursor one row down, unless it is on the last row.
    pub fn line_feed(&mut self)
        requires
            old(self).wf(),
        ensures
            final(self).wf(),
            final(self)@ == old(self)@.line_feed(),
    {
        if self.row + 1 < self.rows {
            self.row += 1;
        }
    }

    /// Writes a character at the cursor in the current style and moves the cursor on.
    pub fn put(&mut self, ch: char)
        requires
            old(self).wf(),
        ensures
            final(self).wf(),
            final(self)@ == old(self)@.put(ch),
    {
        let cell = Cell { ch, style: self.style };
        let row: usize = self.row;
        let col: usize = self.col;
        self.cells[row][col] = cell;
        if self.col + 1 < self.cols {
            self.col += 1;
        } else {
            self.col = 0;
            if self.row + 1 < self.rows {
                self.row += 1;
            }
        }
        proof {
            assert(self@.cells =~~= old(self)@.put(ch).cells);
        }
    }

    /// Moves the cursor to a zero-based position, kept inside the grid.
    pub fn move_to(&mut self, row: usize, col: usize)
        requires
            old(self).wf(),
        ensures
            final(self).wf(),
            final(self)@ == old(self)@.move_to(row as nat, col as nat),
    {
        self.row = if row < self.rows {
            row
        } else {
            self.rows - 1
        };
        self.col = if col < self.cols {
            col
        } else {
            self.cols - 1
        };
    }

    /// Moves the cursor as the parameters of a positioning sequence say.
    pub fn position(&mut self, params: &[u16])
        requires
            old(self).wf(),
        ensures
            final(self).wf(),
            final(self)@ == old(self)@.position(params@),
    {
        let row_param: u16 = if params.len() > 0 {
            params[0]
        } else {
            1
        };
        let col_param: u16 = if params.len() > 1 {
            params[1]
        } else {
            1
        };
        self.row = coordinate(row_param, self.rows);
        self.col = coordinate(col_param, self.cols);
    }

    /// Changes the current style as the parameters of a style-setting sequence say.
    pub fn restyle(&mut self, params: &[u16])
        requires
            old(self).wf(),
        ensures
            final(self).wf(),
            final(self)@ == old(self)@.restyle(params@),
    {
        let mut i: usize = 0;
        while i < params.len()
            invariant
                i <= params.len(),
                self.wf(),
                self@ == (Grid { style: self@.style, ..old(self)@ }),
                self@.style == style_after_all(old(self)@.style, params@.take(i as int)),
            decreases params.len() - i,
        {
            let param: u16 = params[i];
            proof {
                assert(params@.take(i + 1).drop_last() =~= params@.take(i as int));
            }
            if param == 0 {
                self.style = Style::plain();
            } else if 30 <= param && param <= 37 {
                self.style.fg = Color::Palette((param - 30) as u8);
            } else if 40 <= param && param <= 47 {
                self.style.bg = Color::Palette((param - 40) as u8);
            }
            i += 1;
        }
        proof {
            assert(params@.take(i as int) =~= params@);
        }
    }

    /// Blanks the cells of row `r` from column `from` up to, not including, column `to`.
    fn blank_columns(&mut self, r: usize, from: usize, to: usize)
        requires
            old(self).wf(),
            r < old(self)@.rows,
            from <= to <= old(self)@.cols,
        ensures
            final(self).wf(),
            final(self)@ == (Grid {
                cells: old(self)@.cells.update(
                    r as int,
                    blanked(old(self)@.cells[r as int], from as int, to as int),
                ),
                ..old(self)@
            }),
    {
        let mut c: usize = from;
        proof {
            assert(self@.cells[r as int].len() == self.cols);
            assert(blanked(self@.cells[r as int], from as int, c as int) =~= self@.cells[r as int]);
            assert(self@.cells =~= self@.cells.update(r as int, self@.cells[r as int]));
        }
        while c < to
            invariant
                from <= c <= to,
                to <= self.cols,
                r < self.rows,
                self.wf(),
                old(self).wf(),
                self@ == (Grid {
                    cells: old(self)@.cells.update(
                        r as int,
                        blanked(old(self)@.cells[r as int], from as int, c as int),
                    ),
                    ..old(self)@
                }),
            decreases to - c,
        {
            let ghost before = self@;
            proof {
                assert(self@.cells[r as int].len() == self.cols);
            }
            self.cells[r][c] = Cell { ch: ' ', style: Style::plain() };
            proof {
                assert(self@.cells[r as int] =~= before.cells[r as int].update(
                    c as int,
                    blank_cell(),
                ));
                assert(self@.cells[r as int] =~= blanked(
                    old(self)@.cells[r as int],
                    from as int,
                    c + 1,
                ));
                assert(self@.cells.len() == before.cells.len());
                assert forall|i: int| 0 <= i < self@.cells.len() && i != r implies self@.cells[i]
                    == old(self)@.cells[i] by {
                    assert(self@.cells[i] == before.cells[i]);
                }
                assert(self@.cells =~= old(self)@.cells.update(
                    r as int,
                    blanked(old(self)@.cells[r as int], from as int, c + 1),
                ));
            }
            c += 1;
        }
    }

    /// Erases part of the screen: from the cursor on (mode 0), up to the cursor (mode 1), or
    /// all of it, with the cursor back at the origin (mode 2). Any other mode does nothing.
    pub fn erase(&mut self, mode: u16)
        requires
            old(self).wf(),
        ensures
            final(self).wf(),
            final(self)@ == old(self)@.erase(mode),
    {
        if mode > 2 {
            proof {
                assert(self@.erased_cells(mode) =~~= self@.cells);
            }
            return ;
        }
        let mut r: usize = 0;
        proof {
            assert(self@.cells =~= erased_above(self@, mode, 0));
        }
        while r < self.rows
            invariant
                r <= self.rows,
                mode <= 2,
                self.wf(),
                old(self).wf(),
                self@ == (Grid { cells: erased_above(old(self)@, mode, r as int), ..old(self)@ }),
            decreases self.rows - r,
        {
            let from: usize = if mode == 0 && r == self.row {
                self.col
            } else if mode == 0 && r < self.row {
                self.cols
            } else {
                0
            };
            let to: usize = if mode == 1 && r == self.row {
                self.col + 1
            } else if mode == 1 && r > self.row {
                0
            } else {
                self.cols
            };
            let ghost before = self@;
            self.blank_columns(r, from, to);
            proof {
                assert(before.cells[r as int] == old(self)@.cells[r as int]);
                assert(self@.cells[r as int] =~= old(self)@.erased_cells(mode)[r as int]);
                assert(self@.cells =~= erased_above(old(self)@, mode, r + 1));
            }
            r += 1;
        }
        proof {
            assert(self@.cells =~= old(self)@.erased_cells(mode));
        }
        if mode == 2 {
            self.row = 0;
            self.col = 0;
        }
    }

    /// Carries out a control byte: a line feed or a carriage return moves the cursor.
    pub fn execute(&mut self, byte: u8)
        requires
            old(self).wf(),
        ensures
            final(self).wf(),
            final(self)@ == old(self)@.execute(byte),
    {
        if byte == 0x0a {
            self.line_feed();
        } else if byte == 0x0d {
            self.carriage_return();
        }
    }

    /// Carries out a control sequence, given its parameters and its final character.
    pub fn dispatch(&mut self, params: &[u16], action: char)
        requires
            old(self).wf(),
        ensures
            final(self).wf(),
            final(self)@ == old(self)@.dispatch(params@, action),
    {
        if action == 'm' {
            self.restyle(params);
        } else if action == 'H' {
            self.position(params);
        } else if action == 'J' {
            let mode: u16 = if params.len() > 0 {
                params[0]
            } else {
                0
            };
            self.erase(mode);
        }
    }

    /// The rows of the screen, each as its runs of one foreground colour, left to right.
    pub fn segments(&self) -> (lines: Vec<Vec<(String, Color)>>)
        requires
            self.wf(),
        ensures
            lines@.len() == self@.rows,
            forall|r: int|
                0 <= r < self@.rows ==> segment_views((#[trigger] lines@[r])@) == runs(
                    self@.cells[r],
                ),
    {
        let mut lines: Vec<Vec<(String, Color)>> = Vec::new();
        let mut r: usize = 0;
        while r < self.rows
            invariant
                r <= self.rows,
                self.wf(),
                lines@.len() == r,
                forall|i: int|
                    0 <= i < r ==> segment_views((#[trigger] lines@[i])@) == runs(
                        self@.cells[i],
                    ),
            decreases self.rows - r,
        {
            let line = row_segments(&self.cells[r]);
            lines.push(line);
            r += 1;
        }
        lines
    }

    /// The text of the screen: the characters of each row, each row followed by a line feed.
    pub fn text(&self) -> (text: String)
        requires
            self.wf(),
        ensures
            text@ == self@.text(),
    {
        let mut text = String::new();
        let mut r: usize = 0;
        while r < self.rows
            invariant
                r <= self.rows,
                self.wf(),
                text@ == self@.text_of_rows(r as nat),
            decreases self.rows - r,
        {
            let mut c: usize = 0;
            proof {
                assert(self@.cells[r as int].len() == self.cols);
            }
            while c < self.cols
                invariant
                    c <= self.cols,
                    r < self.rows,
                    self.wf(),
                    self@.cells[r as int].len() == self.cols,
                    text@ == self@.text_of_rows(r as nat) + self@.row_text(r as int).take(
                        c as int,
                    ),
                decreases self.cols - c,
            {
                text.push(self.cells[r][c].ch);
                proof {
                    assert(self@.row_text(r as int).take(c + 1) =~= self@.row_text(
                        r as int,
                    ).take(c as int).push(self@.cells[r as int][c as int].ch));
                }
                c += 1;
            }
            text.push('\n');
            proof {
                assert(self@.row_text(r as int).take(c as int) =~= self@.row_text(r as int));
                assert(text@ =~= self@.text_of_rows((r + 1) as nat));
            }
            r += 1;
        }
        text
    }

    /// Carries out one event.
    pub fn apply(&mut self, event: &Event)
        requires
            old(self).wf(),
        ensures
            final(self).wf(),
            final(self)@ == old(self)@.apply(event@),
    {
        match event {
            Event::Print(ch) => self.put(*ch),
            Event::Execute(byte) => self.execute(*byte),
            Event::Csi(params, action) => self.dispatch(params.as_slice(), *action),
        }
    }

    /// Carries out a sequence of events, in order.
    pub fn apply_all(&mut self, events: &Vec<Event>)
        requires
            old(self).wf(),
        ensures
            final(self).wf(),
            final(self)@ == old(self)@.apply_all(views_of(events@)),
    {
        let mut i: usize = 0;
        while i < events.len()
            invariant
                i <= events.len(),
                self.wf(),
                self@ == old(self)@.apply_all(views_of(events@.take(i as int))),
            decreases events.len() - i,
        {
            proof {
                assert(views_of(events@.take(i + 1)).drop_last() =~= views_of(
                    events@.take(i as int),
                ));
            }
            self.apply(&events[i]);
            i += 1;
        }
        proof {
            assert(events@.take(i as int) =~= events@);
        }
    }
}

/// What a renderer reads of each segment: its characters and its colour.
pub open spec fn segment_views(segments: Seq<(String, Color)>) -> Seq<Run> {
    Seq::new(segments.len(), |i: int| (segments[i].0@, segments[i].1))
}

/// The cells of one row as its runs of one foreground colour.
fn row_segments(row: &Vec<Cell>) -> (segments: Vec<(String, Color)>)
    ensures
        segment_views(segments@) == runs(row@),
{
    let mut segments: Vec<(String, Color)> = Vec::new();
    if row.len() == 0 {
        assert(segment_views(segments@) =~= runs(row@));
        return segments;
    }
    let mut text = String::new();
    text.push(row[0].ch);
    let mut color = row[0].style.fg;
    let mut i: usize = 1;
    proof {
        assert(row@.take(1).drop_last() =~= Seq::<Cell>::empty());
        assert(runs(Seq::<Cell>::empty()) =~= Seq::<Run>::empty());
        assert(row@.take(1).last() == row@[0]);
        assert(text@ =~= seq![row@[0].ch]);
        assert(runs(row@.take(1)) =~= Seq::<Run>::empty().push((seq![row@[0].ch], color)));
        assert(runs(row@.take(1)) =~= segment_views(segments@).push((text@, color)));
    }
    while i < row.len()
        invariant
            1 <= i <= row.len(),
            runs(row@.take(i as int)) == segment_views(segments@).push((text@, color)),
        decreases row.len() - i,
    {
        let cell = row[i];
        proof {
            assert(row@.take(i + 1).drop_last() =~= row@.take(i as int));
            assert(segment_views(segments@).push((text@, color)).drop_last() =~= segment_views(
                segments@,
            ));
        }
        if cell.style.fg == color {
            text.push(cell.ch);
        } else {
            let ghost before = segment_views(segments@).push((text@, color));
            segments.push((text, color));
            text = String::new();
            text.push(cell.ch);
            color = cell.style.fg;
            proof {
                assert(segment_views(segments@) =~= before);
            }
        }
        i += 1;
    }
    let ghost before = segment_views(segments@).push((text@, color));
    segments.push((text, color));
    proof {
        assert(row@.take(i as int) =~= row@);
        assert(segment_views(segments@) =~= before);
    }
    segments
}

/// A row with the cells from column `from` up to, not including, column `to` made blank.
spec fn blanked(row: Seq<Cell>, from: int, to: int) -> Seq<Cell> {
    Seq::new(
        row.len(),
        |c: int|
            if from <= c < to {
                blank_cell()
            } else {
                row[c]
            },
    )
}

/// The cells of a grid in which the rows above `r` have been erased and the others not yet.
spec fn erased_above(grid: Grid, mode: u16, r: int) -> Seq<Seq<Cell>> {
    Seq::new(
        grid.rows,
        |i: int|
            if i < r {
                grid.erased_cells(mode)[i]
            } else {
                grid.cells[i]
            },
    )
}

/// The zero-based coordinate that a one-based parameter names, kept below `limit`.
fn coordinate(param: u16, limit: usize) -> (index: usize)
    requires
        limit > 0,
    ensures
        index == wire_coordinate(param, limit as nat),
{
    let zero_based: usize = if param == 0 {
        0
    } else {
        (param - 1) as usize
    };
    if zero_based < limit {
        zero_based
    } else {
        limit - 1
    }
}

} // verus!

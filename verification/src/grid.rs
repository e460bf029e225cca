//! The mathematical model of a pane: a grid of cells, a cursor and the current style, with
//! the effect of each recognised event stated as a function from grid to grid.

use vstd::prelude::*;
use crate::style::{plain_style, Color, Style};

verus! {

/// One position of the grid: the character shown there and the style it was written with.
#[derive(Clone, Copy, Debug, PartialEq, Eq, Structural)]
pub struct Cell {
    pub ch: char,
    pub style: Style,
}

/// The cell of a position that holds nothing: a space in the plain style.
pub open spec fn blank_cell() -> Cell {
    Cell { ch: ' ', style: plain_style() }
}

/// A row of `cols` blank cells.
pub open spec fn blank_row(cols: nat) -> Seq<Cell> {
    Seq::new(cols, |c: int| blank_cell())
}

/// What an event of the byte stream asks of the pane, as the model sees it.
pub enum EventView {
    /// Show a character at the cursor.
    Print(char),
    /// Carry out a control byte.
    Execute(u8),
    /// Carry out a control sequence: its numeric parameters and its final character.
    Csi(Seq<u16>, char),
}

/// The state of a pane that a renderer can observe.
pub struct Grid {
    pub rows: nat,
    pub cols: nat,
    pub cells: Seq<Seq<Cell>>,
    pub row: nat,
    pub col: nat,
    pub style: Style,
}

/// The parameter at `index`, or `default` where the sequence gave none there.
pub open spec fn param_or(params: Seq<u16>, index: int, default: u16) -> u16 {
    if 0 <= index < params.len() {
        params[index]
    } else {
        default
    }
}

/// A value kept between two bounds.
pub open spec fn clamped(value: int, low: int, high: int) -> int {
    if value < low {
        low
    } else if value > high {
        high
    } else {
        value
    }
}

/// The zero-based coordinate that a one-based wire parameter names: the parameter less one,
/// kept from zero to `limit` less one. A parameter of zero names the first position, as an
/// omitted one does.
pub open spec fn wire_coordinate(param: u16, limit: nat) -> nat
    recommends
        limit > 0,
{
    clamped(param - 1, 0, limit - 1) as nat
}

/// The style after one parameter of a style-setting sequence.
pub open spec fn style_after(style: Style, param: u16) -> Style {
    if param == 0 {
        plain_style()
    } else if 30 <= param <= 37 {
        Style { fg: Color::Palette((param - 30) as u8), ..style }
    } else if 40 <= param <= 47 {
        Style { bg: Color::Palette((param - 40) as u8), ..style }
    } else {
        style
    }
}

/// The style after all the parameters of a style-setting sequence, taken in order.
pub open spec fn style_after_all(style: Style, params: Seq<u16>) -> Style
    decreases params.len(),
{
    if params.len() == 0 {
        style
    } else {
        style_after(style_after_all(style, params.drop_last()), params.last())
    }
}

impl Grid {
    /// The grid is rectangular, has at least one cell, and holds its cursor.
    pub open spec fn wf(self) -> bool {
        &&& self.rows > 0
        &&& self.cols > 0
        &&& self.cells.len() == self.rows
        &&& forall|r: int| 0 <= r < self.rows ==> (#[trigger] self.cells[r]).len() == self.cols
        &&& self.row < self.rows
        &&& self.col < self.cols
    }

    /// A grid of blank cells with the cursor at the origin and the plain style.
    pub open spec fn blank(rows: nat, cols: nat) -> Grid {
        Grid {
            rows,
            cols,
            cells: Seq::new(rows, |r: int| blank_row(cols)),
            row: 0,
            col: 0,
            style: plain_style(),
        }
    }

    /// The cursor moves to the start of its row.
    pub open spec fn carriage_return(self) -> Grid {
        Grid { col: 0, ..self }
    }

    /// The cursor moves one row down; on the last row it stays where it is.
    pub open spec fn line_feed(self) -> Grid {
        if self.row + 1 < self.rows {
            Grid { row: self.row + 1, ..self }
        } else {
            self
        }
    }

    /// The character is written at the cursor in the current style, and the cursor moves one
    /// column on; past the last column it goes to the start of the next row.
    pub open spec fn put(self, ch: char) -> Grid {
        let cell = Cell { ch, style: self.style };
        let written = Grid {
            cells: self.cells.update(
                self.row as int,
                self.cells[self.row as int].update(self.col as int, cell),
            ),
            ..self
        };
        if self.col + 1 < self.cols {
            Grid { col: self.col + 1, ..written }
        } else {
            written.carriage_return().line_feed()
        }
    }

    /// The cursor moves to the given zero-based position, kept inside the grid.
    pub open spec fn move_to(self, row: nat, col: nat) -> Grid {
        Grid {
            row: if row < self.rows {
                row
            } else {
                (self.rows - 1) as nat
            },
            col: if col < self.cols {
                col
            } else {
                (self.cols - 1) as nat
            },
            ..self
        }
    }

    /// The cursor moves to the position that the parameters of a positioning sequence name:
    /// row first, then column, each counted from one and taken as one where it is missing.
    pub open spec fn position(self, params: Seq<u16>) -> Grid {
        Grid {
            row: wire_coordinate(param_or(params, 0, 1), self.rows),
            col: wire_coordinate(param_or(params, 1, 1), self.cols),
            ..self
        }
    }

    /// Whether an erase of the given mode blanks the cell at (`r`, `c`): mode 0 takes the
    /// cursor's cell and all after it, mode 1 the cursor's cell and all before it, mode 2
    /// every cell, and any other mode none.
    pub open spec fn erased(self, mode: u16, r: int, c: int) -> bool {
        if mode == 0 {
            r > self.row || (r == self.row && c >= self.col)
        } else if mode == 1 {
            r < self.row || (r == self.row && c <= self.col)
        } else {
            mode == 2
        }
    }

    /// The cells after an erase of the given mode.
    pub open spec fn erased_cells(self, mode: u16) -> Seq<Seq<Cell>> {
        Seq::new(
            self.rows,
            |r: int|
                Seq::new(
                    self.cols,
                    |c: int|
                        if self.erased(mode, r, c) {
                            blank_cell()
                        } else {
                            self.cells[r][c]
                        },
                ),
        )
    }

    /// An erase of the given mode; mode 2 also returns the cursor to the origin.
    pub open spec fn erase(self, mode: u16) -> Grid {
        if mode == 2 {
            Grid { cells: self.erased_cells(mode), row: 0, col: 0, ..self }
        } else {
            Grid { cells: self.erased_cells(mode), ..self }
        }
    }

    /// The current style changes as the parameters of a style-setting sequence say.
    pub open spec fn restyle(self, params: Seq<u16>) -> Grid {
        Grid { style: style_after_all(self.style, params), ..self }
    }

    /// The grid after a control byte: a line feed or a carriage return moves the cursor,
    /// every other byte leaves the grid as it is.
    pub open spec fn execute(self, byte: u8) -> Grid {
        if byte == 0x0a {
            self.line_feed()
        } else if byte == 0x0d {
            self.carriage_return()
        } else {
            self
        }
    }

    /// The grid after a control sequence: `m` sets the style, `H` places the cursor, `J`
    /// erases, and every other final character leaves the grid as it is.
    pub open spec fn dispatch(self, params: Seq<u16>, action: char) -> Grid {
        if action == 'm' {
            self.restyle(params)
        } else if action == 'H' {
            self.position(params)
        } else if action == 'J' {
            self.erase(param_or(params, 0, 0))
        } else {
            self
        }
    }

    /// The grid after one event.
    pub open spec fn apply(self, event: EventView) -> Grid {
        match event {
            EventView::Print(ch) => self.put(ch),
            EventView::Execute(byte) => self.execute(byte),
            EventView::Csi(params, action) => self.dispatch(params, action),
        }
    }

    /// The grid after a sequence of events, applied in order.
    pub open spec fn apply_all(self, events: Seq<EventView>) -> Grid
        decreases events.len(),
    {
        if events.len() == 0 {
            self
        } else {
            self.apply_all(events.drop_last()).apply(events.last())
        }
    }

    /// The characters of row `r`, left to right.
    pub open spec fn row_text(self, r: int) -> Seq<char> {
        Seq::new(self.cols, |c: int| self.cells[r][c].ch)
    }

    /// The text of the first `n` rows, each row followed by a line feed.
    pub open spec fn text_of_rows(self, n: nat) -> Seq<char>
        decreases n,
    {
        if n == 0 {
            Seq::empty()
        } else {
            self.text_of_rows((n - 1) as nat) + self.row_text(n - 1).push('\n')
        }
    }

    /// The text of the whole grid.
    pub open spec fn text(self) -> Seq<char> {
        self.text_of_rows(self.rows)
    }
}

/// A stretch of a row shown in one colour: its characters and that colour.
pub type Run = (Seq<char>, Color);

/// The cells of a row gathered, left to right, into the longest stretches of one foreground
/// colour.
pub open spec fn runs(cells: Seq<Cell>) -> Seq<Run>
    decreases cells.len(),
{
    if cells.len() == 0 {
        Seq::empty()
    } else {
        let before = runs(cells.drop_last());
        let cell = cells.last();
        if before.len() > 0 && before.last().1 == cell.style.fg {
            before.drop_last().push((before.last().0.push(cell.ch), cell.style.fg))
        } else {
            before.push((seq![cell.ch], cell.style.fg))
        }
    }
}

/// The characters of a sequence of runs, run after run.
pub open spec fn runs_text(runs: Seq<Run>) -> Seq<char>
    decreases runs.len(),
{
    if runs.len() == 0 {
        Seq::empty()
    } else {
        runs_text(runs.drop_last()) + runs.last().0
    }
}

/// The foreground colour of each character of a sequence of runs, run after run.
pub open spec fn runs_colors(runs: Seq<Run>) -> Seq<Color>
    decreases runs.len(),
{
    if runs.len() == 0 {
        Seq::empty()
    } else {
        runs_colors(runs.drop_last()) + Seq::new(runs.last().0.len(), |i: int| runs.last().1)
    }
}

/// The runs of a row hold the row: read one after the other they give the characters of its
/// cells and the foreground colour of each. No run is empty, and no two neighbours have the
/// same colour, so the runs are the longest there are.
pub proof fn lemma_runs_cover(cells: Seq<Cell>)
    ensures
        runs_text(runs(cells)) == Seq::new(cells.len(), |i: int| cells[i].ch),
        runs_colors(runs(cells)) == Seq::new(cells.len(), |i: int| cells[i].style.fg),
        forall|k: int| 0 <= k < runs(cells).len() ==> (#[trigger] runs(cells)[k]).0.len() > 0,
        forall|k: int|
            0 < k < runs(cells).len() ==> (#[trigger] runs(cells)[k]).1 != runs(cells)[k - 1].1,
        cells.len() > 0 ==> runs(cells).len() > 0 && runs(cells).last().1
            == cells.last().style.fg,
    decreases cells.len(),
{
    if cells.len() == 0 {
        assert(runs_text(runs(cells)) =~= Seq::new(cells.len(), |i: int| cells[i].ch));
        assert(runs_colors(runs(cells)) =~= Seq::new(cells.len(), |i: int| cells[i].style.fg));
    } else {
        let front = cells.drop_last();
        let before = runs(front);
        let cell = cells.last();
        lemma_runs_cover(front);
        let after = runs(cells);
        if before.len() > 0 && before.last().1 == cell.style.fg {
            assert(after.drop_last() =~= before.drop_last());
            assert(runs_text(before) == runs_text(before.drop_last()) + before.last().0);
            assert(runs_colors(before) == runs_colors(before.drop_last()) + Seq::new(
                before.last().0.len(),
                |i: int| before.last().1,
            ));
        } else {
            assert(after.drop_last() =~= before);
        }
        let front_text = Seq::new(front.len(), |i: int| front[i].ch);
        let front_colors = Seq::new(front.len(), |i: int| front[i].style.fg);
        assert(runs_text(after) == runs_text(after.drop_last()) + after.last().0);
        assert(runs_colors(after) == runs_colors(after.drop_last()) + Seq::new(
            after.last().0.len(),
            |i: int| after.last().1,
        ));
        assert(runs_text(after) =~= front_text.push(cell.ch));
        assert(runs_colors(after) =~= front_colors.push(cell.style.fg));
        assert(front_text.push(cell.ch) =~= Seq::new(cells.len(), |i: int| cells[i].ch));
        assert(front_colors.push(cell.style.fg) =~= Seq::new(
            cells.len(),
            |i: int| cells[i].style.fg,
        ));
        assert forall|k: int| 0 < k < after.len() implies (#[trigger] after[k]).1 != after[k
            - 1].1 by {
            if k < after.len() - 1 {
                assert(after[k] == before[k]);
                assert(after[k - 1] == before[k - 1]);
            } else if before.len() > 0 && before.last().1 == cell.style.fg {
                assert(after[k - 1] == before[k - 1]);
                assert(before[k].1 != before[k - 1].1);
            } else {
                assert(after[k - 1] == before.last());
            }
        }
        assert forall|k: int| 0 <= k < after.len() implies (#[trigger] after[k]).0.len()
            > 0 by {
            if k < after.len() - 1 {
                assert(after[k] == before[k]);
            }
        }
    }
}

/// Each event keeps a well-formed grid well-formed, with the dimensions it had.
pub proof fn lemma_apply_wf(grid: Grid, event: EventView)
    requires
        grid.wf(),
    ensures
        grid.apply(event).wf(),
        grid.apply(event).rows == grid.rows,
        grid.apply(event).cols == grid.cols,
{
    match event {
        EventView::Print(ch) => {
            let cell = Cell { ch, style: grid.style };
            let cells = grid.cells.update(
                grid.row as int,
                grid.cells[grid.row as int].update(grid.col as int, cell),
            );
            assert forall|r: int| 0 <= r < grid.rows implies (#[trigger] cells[r]).len()
                == grid.cols by {}
        },
        EventView::Execute(byte) => {},
        EventView::Csi(params, action) => {
            let mode = param_or(params, 0, 0);
            assert forall|r: int| 0 <= r < grid.rows implies (#[trigger] grid.erased_cells(
                mode,
            )[r]).len() == grid.cols by {}
        },
    }
}

/// A sequence of events keeps a well-formed grid well-formed, with the dimensions it had.
pub proof fn lemma_apply_all_wf(grid: Grid, events: Seq<EventView>)
    requires
        grid.wf(),
    ensures
        grid.apply_all(events).wf(),
        grid.apply_all(events).rows == grid.rows,
        grid.apply_all(events).cols == grid.cols,
    decreases events.len(),
{
    if events.len() > 0 {
        lemma_apply_all_wf(grid, events.drop_last());
        lemma_apply_wf(grid.apply_all(events.drop_last()), events.last());
    }
}

/// Applying two sequences of events one after the other is applying their concatenation.
pub proof fn lemma_apply_all_concat(grid: Grid, first: Seq<EventView>, second: Seq<EventView>)
    ensures
        grid.apply_all(first + second) == grid.apply_all(first).apply_all(second),
    decreases second.len(),
{
    if second.len() == 0 {
        assert(first + second =~= first);
    } else {
        lemma_apply_all_concat(grid, first, second.drop_last());
        assert((first + second).drop_last() =~= first + second.drop_last());
        assert((first + second).last() == second.last());
    }
}

/// A control sequence `J` with the parameter 2 leaves every cell a space in the plain
/// style and the cursor at the origin.
pub proof fn lemma_erase_all(grid: Grid)
    requires
        grid.wf(),
    ensures
        grid.dispatch(seq![2u16], 'J') == grid.erase(2),
        grid.erase(2).cells == Grid::blank(grid.rows, grid.cols).cells,
        grid.erase(2).row == 0,
        grid.erase(2).col == 0,
        forall|r: int, c: int|
            0 <= r < grid.rows && 0 <= c < grid.cols ==> #[trigger] grid.erase(2).cells[r][c]
                == blank_cell(),
{
    assert(grid.erase(2).cells =~~= Grid::blank(grid.rows, grid.cols).cells);
}

/// A control sequence `H` puts the cursor in the row and the column that its parameters
/// name, each counted from one and kept inside the grid, and changes nothing else. A
/// parameter that is missing counts as one.
pub proof fn lemma_place_cursor(grid: Grid, params: Seq<u16>)
    requires
        grid.wf(),
    ensures
        grid.dispatch(params, 'H') == (Grid {
            row: grid.dispatch(params, 'H').row,
            col: grid.dispatch(params, 'H').col,
            ..grid
        }),
        grid.dispatch(params, 'H').row == clamped(param_or(params, 0, 1) - 1, 0, grid.rows - 1),
        grid.dispatch(params, 'H').col == clamped(param_or(params, 1, 1) - 1, 0, grid.cols - 1),
{
}

} // verus!

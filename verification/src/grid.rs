//! The grid engine: storage, coordinate indexing, toroidal neighbor
//! counting, the generation transition, and the mutation helpers.

use vstd::prelude::*;
use vstd::string::StringExecFns;

use crate::cell::Cell;
use crate::cell::cell_of_bool;

verus! {

/// One step towards smaller coordinates, wrapping from 0 to `dim - 1`.
pub open spec fn wrap_dec(i: int, dim: int) -> int {
    if i == 0 {
        dim - 1
    } else {
        i - 1
    }
}

/// One step towards larger coordinates, wrapping from `dim - 1` to 0.
pub open spec fn wrap_inc(i: int, dim: int) -> int {
    if i == dim - 1 {
        0
    } else {
        i + 1
    }
}

/// The mathematical state of a [`Universe`]: its dimensions and the flat
/// row-major sequence of cells.
#[verifier::ext_equal]
pub struct GridView {
    pub width: nat,
    pub height: nat,
    pub cells: Seq<Cell>,
}

impl GridView {
    /// Well-formedness: both dimensions are positive, the cell sequence
    /// has exactly `width * height` entries, and every flat position fits
    /// in a `u32` so that coordinate arithmetic cannot overflow.
    pub open spec fn wf(self) -> bool {
        &&& self.width > 0
        &&& self.height > 0
        &&& self.cells.len() == self.width * self.height
        &&& self.width * self.height <= u32::MAX
    }

    /// The flat row-major position of coordinate (`row`, `col`).
    pub open spec fn flat_index(self, row: int, col: int) -> int {
        row * self.width + col
    }

    /// The cell at coordinate (`row`, `col`).
    pub open spec fn cell_at(self, row: int, col: int) -> Cell {
        self.cells[self.flat_index(row, col)]
    }

    /// The number of live cells among the 8 Moore neighbors of
    /// (`row`, `col`), with toroidal wraparound at every edge. With a
    /// dimension of 1 the wrapped coordinates coincide with the cell's
    /// own, so the cell then counts itself, as the modular arithmetic
    /// prescribes.
    pub open spec fn neighbor_count(self, row: int, col: int) -> int {
        let north = wrap_dec(row, self.height as int);
        let south = wrap_inc(row, self.height as int);
        let west = wrap_dec(col, self.width as int);
        let east = wrap_inc(col, self.width as int);
        self.cell_at(north, west).alive_bit() + self.cell_at(north, col).alive_bit()
            + self.cell_at(north, east).alive_bit() + self.cell_at(row, west).alive_bit()
            + self.cell_at(row, east).alive_bit() + self.cell_at(south, west).alive_bit()
            + self.cell_at(south, col).alive_bit() + self.cell_at(south, east).alive_bit()
    }

    /// The glyphs of row `row`, left to right, without the line break.
    pub open spec fn row_chars(self, row: int) -> Seq<char> {
        Seq::new(self.width, |c: int| glyph(self.cell_at(row, c)))
    }

    /// The textual rendering of the first `row` rows: each row's glyphs
    /// followed by a line break.
    pub open spec fn rendered_up_to(self, row: int) -> Seq<char>
        decreases row,
    {
        if row <= 0 {
            Seq::empty()
        } else {
            self.rendered_up_to(row - 1) + self.row_chars(row - 1) + seq!['\n']
        }
    }

    /// The full textual rendering: `height` lines of `width` glyphs each.
    pub open spec fn rendered(self) -> Seq<char> {
        self.rendered_up_to(self.height as int)
    }
}

/// The glyph a cell renders as: a filled square for `Alive`, an open one
/// for `Dead`.
pub open spec fn glyph(c: Cell) -> char {
    if c is Alive {
        '◼'
    } else {
        '◻'
    }
}

/// Whether one of the first `n` coordinate pairs of `coords` names the
/// flat position `i` of grid `g`.
pub open spec fn seeded_at(g: GridView, coords: Seq<(u32, u32)>, n: int, i: int) -> bool {
    exists|k: int|
        0 <= k < n && g.flat_index(
            (#[trigger] coords[k]).0 as int,
            coords[k].1 as int,
        ) == i
}

/// Why a coordinate pair was rejected: the row or the column was at or
/// beyond the grid's corresponding dimension.
#[derive(Clone, Copy, Debug, PartialEq, Eq, Structural)]
pub enum IndexError {
    RowOutOfBounds,
    ColumnOutOfBounds,
}

/// A fixed-size toroidal Game of Life grid. The dimensions are immutable
/// after construction; the cells are mutated in place by the tick, toggle,
/// set, seed and clear operations.
#[derive(Debug)]
pub struct Universe {
    width: u32,
    height: u32,
    cells: Vec<Cell>,
}

impl View for Universe {
    type V = GridView;

    closed spec fn view(&self) -> GridView {
        GridView { width: self.width as nat, height: self.height as nat, cells: self.cells@ }
    }
}

/// Row-major flat positions grow strictly along the row-major traversal
/// order of the coordinates.
proof fn lemma_flat_index_lt(width: int, r1: int, c1: int, r2: int, c2: int)
    by (nonlinear_arith)
    requires
        0 <= r1,
        0 <= c1 < width,
        0 <= c2,
        r1 < r2 || (r1 == r2 && c1 < c2),
    ensures
        r1 * width + c1 < r2 * width + c2,
{
}

/// A flat position derived from in-bounds coordinates is itself in bounds.
proof fn lemma_flat_index_in_range(width: int, height: int, row: int, col: int)
    by (nonlinear_arith)
    requires
        0 <= row < height,
        0 <= col < width,
    ensures
        0 <= row * width + col,
        row * width + col < width * height,
{
}

impl Universe {
    /// Shorthand for `self@.wf()`, the grid's invariant.
    pub open spec fn wf(&self) -> bool {
        self@.wf()
    }

    /// Create a grid of the given dimensions with every cell `Dead`.
    /// Both dimensions must be positive, and the cell count must fit the
    /// coordinate arithmetic.
    pub fn new(width: u32, height: u32) -> (universe: Universe)
        requires
            width > 0,
            height > 0,
            width * height <= u32::MAX,
        ensures
            universe.wf(),
            universe@.width == width,
            universe@.height == height,
            forall|i: int| 0 <= i < universe@.cells.len() ==> universe@.cells[i] is Dead,
    {
        proof {
            assert((width * height) as usize == width as usize * height as usize)
                by (nonlinear_arith)
                requires
                    width * height <= u32::MAX,
            ;
        }
        let n: usize = width as usize * height as usize;
        let mut cells: Vec<Cell> = Vec::new();
        while cells.len() < n
            invariant
                cells@.len() <= n,
                forall|i: int| 0 <= i < cells@.len() ==> cells@[i] is Dead,
            decreases n - cells@.len(),
        {
            cells.push(Cell::Dead);
        }
        Universe { width, height, cells }
    }

    /// The grid's width.
    pub fn width(&self) -> (w: u32)
        ensures
            w == self@.width,
    {
        self.width
    }

    /// The grid's height.
    pub fn height(&self) -> (h: u32)
        ensures
            h == self@.height,
    {
        self.height
    }

    /// Read-only view of the flat row-major cell storage, for a renderer
    /// that wants direct access to the current state.
    pub fn cells(&self) -> (cells: &Vec<Cell>)
        ensures
            cells@ == self@.cells,
    {
        &self.cells
    }

    /// The flat position of (`row`, `column`). The coordinates must be in
    /// bounds; [`Universe::checked_index`] reports the failure otherwise.
    pub fn get_index(&self, row: u32, column: u32) -> (index: usize)
        requires
            self.wf(),
            row < self@.height,
            column < self@.width,
        ensures
            index == self@.flat_index(row as int, column as int),
            index < self@.cells.len(),
    {
        proof {
            lemma_flat_index_in_range(
                self@.width as int,
                self@.height as int,
                row as int,
                column as int,
            );
        }
        (row * self.width + column) as usize
    }

    /// The flat position of (`row`, `column`), or the reason the pair is
    /// out of bounds: a row at or beyond `height` is a row error, and
    /// otherwise a column at or beyond `width` is a column error. The
    /// check fails fast, before any access.
    pub fn checked_index(&self, row: u32, column: u32) -> (result: Result<usize, IndexError>)
        requires
            self.wf(),
        ensures
            row >= self@.height ==> result == Err::<usize, IndexError>(IndexError::RowOutOfBounds),
            row < self@.height && column >= self@.width ==> result == Err::<usize, IndexError>(
                IndexError::ColumnOutOfBounds,
            ),
            row < self@.height && column < self@.width ==> {
                &&& result is Ok
                &&& result->Ok_0 == self@.flat_index(row as int, column as int)
            },
    {
        if row >= self.height {
            Err(IndexError::RowOutOfBounds)
        } else if column >= self.width {
            Err(IndexError::ColumnOutOfBounds)
        } else {
            Ok(self.get_index(row, column))
        }
    }

    /// The cell at (`row`, `column`).
    fn get_cell(&self, row: u32, column: u32) -> (cell: &Cell)
        requires
            self.wf(),
            row < self@.height,
            column < self@.width,
        ensures
            *cell == self@.cell_at(row as int, column as int),
    {
        let index = self.get_index(row, column);
        &self.cells[index]
    }

    /// 1 if the cell at (`row`, `column`) is alive, 0 otherwise.
    fn get_cell_value(&self, row: u32, column: u32) -> (value: u8)
        requires
            self.wf(),
            row < self@.height,
            column < self@.width,
        ensures
            value == self@.cell_at(row as int, column as int).alive_bit(),
    {
        let cell = self.get_cell(row, column);
        cell.as_byte()
    }

    /// Whether the cell at (`row`, `column`) is alive.
    pub fn is_cell_alive(&self, row: u32, col: u32) -> (alive: bool)
        requires
            self.wf(),
            row < self@.height,
            col < self@.width,
        ensures
            alive == (self@.cell_at(row as int, col as int) is Alive),
    {
        let index = self.get_index(row, col);
        self.cells[index] == Cell::Alive
    }

    /// The exact number of live cells among the 8 toroidal Moore
    /// neighbors of (`row`, `column`), between 0 and 8. A dimension of 1
    /// wraps a cell's neighbors onto its own row or column, so the cell
    /// then counts itself.
    pub fn live_neighbor_count(&self, row: u32, column: u32) -> (count: u8)
        requires
            self.wf(),
            row < self@.height,
            column < self@.width,
        ensures
            count == self@.neighbor_count(row as int, column as int),
            count <= 8,
    {
        let north = if row == 0 { self.height - 1 } else { row - 1 };
        let south = if row == self.height - 1 { 0 } else { row + 1 };
        let west = if column == 0 { self.width - 1 } else { column - 1 };
        let east = if column == self.width - 1 { 0 } else { column + 1 };

        self.get_cell_value(north, west) + self.get_cell_value(north, column)
            + self.get_cell_value(north, east) + self.get_cell_value(row, west)
            + self.get_cell_value(row, east) + self.get_cell_value(south, west)
            + self.get_cell_value(south, column) + self.get_cell_value(south, east)
    }

    /// The state the cell at (`row`, `column`) takes in the next
    /// generation, computed from the current generation alone.
    fn next_cell_state(&self, row: u32, column: u32) -> (next: Cell)
        requires
            self.wf(),
            row < self@.height,
            column < self@.width,
        ensures
            next == self@.cell_at(row as int, column as int).next_state_spec(
                self@.neighbor_count(row as int, column as int),
            ),
    {
        let cell = *self.get_cell(row, column);
        let live_neighbors = self.live_neighbor_count(row, column);
        cell.next_state(live_neighbors)
    }

    /// Advance the grid one generation. Every cell's next state is
    /// computed from the current generation alone — the new cells are
    /// built in a separate buffer and installed only once complete — and
    /// follows [`Cell::next_state_spec`] applied to the cell's current
    /// state and live-neighbor count.
    pub fn tick(&mut self)
        requires
            old(self).wf(),
        ensures
            final(self).wf(),
            final(self)@.width == old(self)@.width,
            final(self)@.height == old(self)@.height,
            forall|r: int, c: int|
                0 <= r < old(self)@.height && 0 <= c < old(self)@.width
                    ==> final(self)@.cell_at(r, c) == old(self)@.cell_at(r, c).next_state_spec(
                    #[trigger] old(self)@.neighbor_count(r, c),
                ),
    {
        let ghost g = self@;
        let ghost w = g.width as int;
        let height = self.height;
        let width = self.width;
        let mut next: Vec<Cell> = Vec::new();
        let mut row: u32 = 0;

        while row < height
            invariant
                g == self@,
                self.wf(),
                width == g.width,
                height == g.height,
                row <= height,
                next@.len() == row * w,
                w == g.width,
                forall|r: int, c: int|
                    0 <= r < row && 0 <= c < w ==> next@[r * w + c]
                        == g.cell_at(r, c).next_state_spec(#[trigger] g.neighbor_count(r, c)),
            decreases height - row,
        {
            let mut col: u32 = 0;
            while col < width
                invariant
                    g == self@,
                    self.wf(),
                    width == g.width,
                    height == g.height,
                    row < height,
                    col <= width,
                    next@.len() == row * w + col,
                    w == g.width,
                    forall|r: int, c: int|
                        0 <= r < row && 0 <= c < w ==> next@[r * w + c]
                            == g.cell_at(r, c).next_state_spec(#[trigger] g.neighbor_count(r, c)),
                    forall|c: int|
                        0 <= c < col ==> next@[row * w + c] == g.cell_at(
                            row as int,
                            c,
                        ).next_state_spec(#[trigger] g.neighbor_count(row as int, c)),
                decreases width - col,
            {
                let next_cell = self.next_cell_state(row, col);
                proof {
                    lemma_flat_index_in_range(w, height as int, row as int, col as int);
                }
                next.push(next_cell);
                proof {
                    assert forall|r: int, c: int|
                        0 <= r < row && 0 <= c < w implies next@[r * w + c] == g.cell_at(
                        r,
                        c,
                    ).next_state_spec(#[trigger] g.neighbor_count(r, c)) by {
                        lemma_flat_index_lt(w, r, c, row as int, col as int);
                    }
                    assert forall|c: int|
                        0 <= c < col + 1 implies next@[row * w + c] == g.cell_at(
                        row as int,
                        c,
                    ).next_state_spec(#[trigger] g.neighbor_count(row as int, c)) by {
                        if c < col {
                            lemma_flat_index_lt(w, row as int, c, row as int, col as int);
                        }
                    }
                }
                col = col + 1;
            }
            proof {
                assert((row + 1) * w == row * w + w) by (nonlinear_arith);
            }
            row = row + 1;
        }
        proof {
            assert(height * w == w * height) by (nonlinear_arith);
        }
        self.cells = next;
        proof {
            assert forall|r: int, c: int|
                0 <= r < g.height && 0 <= c < g.width implies final(self)@.cell_at(r, c)
                == g.cell_at(r, c).next_state_spec(#[trigger] g.neighbor_count(r, c)) by {
                lemma_flat_index_in_range(w, g.height as int, r, c);
            }
        }
    }

    /// Flip the cell at (`row`, `column`) between `Dead` and `Alive`,
    /// leaving every other cell unchanged.
    pub fn toggle_cell(&mut self, row: u32, column: u32)
        requires
            old(self).wf(),
            row < old(self)@.height,
            column < old(self)@.width,
        ensures
            final(self).wf(),
            final(self)@.width == old(self)@.width,
            final(self)@.height == old(self)@.height,
            final(self)@.cells == old(self)@.cells.update(
                old(self)@.flat_index(row as int, column as int),
                old(self)@.cell_at(row as int, column as int).flipped(),
            ),
    {
        let idx = self.get_index(row, column);
        self.cells[idx].toggle();
    }

    /// Force the cell at (`row`, `column`) `Alive`, leaving every other
    /// cell unchanged; report whether the cell was `Dead` before, i.e.
    /// whether its state actually changed. Calling this twice on the same
    /// cell leaves the same grid as calling it once.
    pub fn set_cell_alive(&mut self, row: u32, column: u32) -> (changed: bool)
        requires
            old(self).wf(),
            row < old(self)@.height,
            column < old(self)@.width,
        ensures
            final(self).wf(),
            final(self)@.width == old(self)@.width,
            final(self)@.height == old(self)@.height,
            final(self)@.cells == old(self)@.cells.update(
                old(self)@.flat_index(row as int, column as int),
                Cell::Alive,
            ),
            changed == (old(self)@.cell_at(row as int, column as int) is Dead),
    {
        let idx = self.get_index(row, column);
        self.cells[idx].set_alive()
    }

    /// Set every cell `Dead`, keeping the dimensions.
    pub fn clear(&mut self)
        requires
            old(self).wf(),
        ensures
            final(self).wf(),
            final(self)@.width == old(self)@.width,
            final(self)@.height == old(self)@.height,
            final(self)@.cells.len() == old(self)@.cells.len(),
            forall|i: int| 0 <= i < final(self)@.cells.len() ==> final(self)@.cells[i] is Dead,
    {
        let n = self.cells.len();
        let mut i: usize = 0;
        while i < n
            invariant
                self.wf(),
                self@.width == old(self)@.width,
                self@.height == old(self)@.height,
                self@.cells.len() == n,
                n == old(self)@.cells.len(),
                i <= n,
                forall|j: int| 0 <= j < i ==> self@.cells[j] is Dead,
            decreases n - i,
        {
            self.cells.set(i, Cell::Dead);
            i = i + 1;
        }
    }

    /// Fill the grid with the deterministic demo pattern: the cell at
    /// flat position `i` is `Alive` exactly when `i` is even or divisible
    /// by 7.
    pub fn initialize(&mut self)
        requires
            old(self).wf(),
        ensures
            final(self).wf(),
            final(self)@.width == old(self)@.width,
            final(self)@.height == old(self)@.height,
            final(self)@.cells.len() == old(self)@.cells.len(),
            forall|i: int|
                0 <= i < final(self)@.cells.len() ==> final(self)@.cells[i] == cell_of_bool(
                    i % 2 == 0 || i % 7 == 0,
                ),
    {
        let n = self.cells.len();
        let mut i: usize = 0;
        while i < n
            invariant
                self.wf(),
                self@.width == old(self)@.width,
                self@.height == old(self)@.height,
                self@.cells.len() == n,
                n == old(self)@.cells.len(),
                i <= n,
                forall|j: int|
                    0 <= j < i ==> self@.cells[j] == cell_of_bool(j % 2 == 0 || j % 7 == 0),
            decreases n - i,
        {
            let alive = i % 2 == 0 || i % 7 == 0;
            self.cells.set(i, Cell::from(alive));
            i = i + 1;
        }
    }

    /// Set every cell named by the given (row, column) pairs `Alive`,
    /// leaving all other cells unchanged. Every pair must be in bounds.
    pub fn set_cells_alive(&mut self, cells: &[(u32, u32)])
        requires
            old(self).wf(),
            forall|k: int|
                0 <= k < cells@.len() ==> (#[trigger] cells@[k]).0 < old(self)@.height
                    && cells@[k].1 < old(self)@.width,
        ensures
            final(self).wf(),
            final(self)@.width == old(self)@.width,
            final(self)@.height == old(self)@.height,
            final(self)@.cells.len() == old(self)@.cells.len(),
            forall|i: int|
                0 <= i < final(self)@.cells.len() ==> final(self)@.cells[i] == (
                if seeded_at(old(self)@, cells@, cells@.len() as int, i) {
                    Cell::Alive
                } else {
                    old(self)@.cells[i]
                }),
    {
        let ghost g = old(self)@;
        let mut k: usize = 0;
        while k < cells.len()
            invariant
                self.wf(),
                g == old(self)@,
                self@.width == g.width,
                self@.height == g.height,
                self@.cells.len() == g.cells.len(),
                k <= cells@.len(),
                forall|j: int|
                    0 <= j < cells@.len() ==> (#[trigger] cells@[j]).0 < g.height
                        && cells@[j].1 < g.width,
                forall|i: int|
                    0 <= i < self@.cells.len() ==> self@.cells[i] == (
                    if seeded_at(g, cells@, k as int, i) {
                        Cell::Alive
                    } else {
                        g.cells[i]
                    }),
            decreases cells@.len() - k,
        {
            let (row, col) = cells[k];
            let idx = self.get_index(row, col);
            self.cells.set(idx, Cell::Alive);
            proof {
                let ghost ik = idx as int;
                assert forall|i: int| 0 <= i < self@.cells.len() implies self@.cells[i] == (
                    if seeded_at(g, cells@, k + 1, i) {
                        Cell::Alive
                    } else {
                        g.cells[i]
                    }) by {
                    if i == ik {
                        assert((cells@[k as int]).0 == row && (cells@[k as int]).1 == col);
                        assert(g.flat_index((cells@[k as int]).0 as int, (cells@[k as int]).1 as int)
                            == i);
                        assert(seeded_at(g, cells@, k + 1, i));
                    } else {
                        if seeded_at(g, cells@, k + 1, i) {
                            let j = choose|j: int|
                                0 <= j < k + 1 && g.flat_index(
                                    (#[trigger] cells@[j]).0 as int,
                                    cells@[j].1 as int,
                                ) == i;
                            assert(j != k);
                            assert(seeded_at(g, cells@, k as int, i));
                        }
                        if seeded_at(g, cells@, k as int, i) {
                            let j = choose|j: int|
                                0 <= j < k && g.flat_index(
                                    (#[trigger] cells@[j]).0 as int,
                                    cells@[j].1 as int,
                                ) == i;
                            assert(0 <= j < k + 1 && g.flat_index(
                                (cells@[j]).0 as int,
                                cells@[j].1 as int,
                            ) == i);
                            assert(seeded_at(g, cells@, k + 1, i));
                        }
                    }
                }
            }
            k = k + 1;
        }
    }

    /// Render the grid as text: `height` lines of `width` glyphs each, in
    /// row-major order, a filled square for a live cell and an open one
    /// for a dead cell, every row ended by a line break.
    pub fn render(&self) -> (text: String)
        requires
            self.wf(),
        ensures
            text@ == self@.rendered(),
    {
        let height = self.height;
        let width = self.width;
        let mut text = String::new();
        let mut row: u32 = 0;
        proof {
            assert(text@ =~= self@.rendered_up_to(0));
        }
        while row < height
            invariant
                self.wf(),
                width == self@.width,
                height == self@.height,
                row <= height,
                text@ == self@.rendered_up_to(row as int),
            decreases height - row,
        {
            let mut col: u32 = 0;
            while col < width
                invariant
                    self.wf(),
                    width == self@.width,
                    height == self@.height,
                    row < height,
                    col <= width,
                    text@ == self@.rendered_up_to(row as int) + self@.row_chars(
                        row as int,
                    ).subrange(0, col as int),
                decreases width - col,
            {
                if self.is_cell_alive(row, col) {
                    text.append("◼");
                } else {
                    text.append("◻");
                }
                proof {
                    reveal_strlit("◼");
                    reveal_strlit("◻");
                    let r = row as int;
                    let c = col as int;
                    assert(self@.row_chars(r).subrange(0, c + 1) =~= self@.row_chars(r).subrange(
                        0,
                        c,
                    ) + seq![glyph(self@.cell_at(r, c))]);
                    assert(text@ =~= self@.rendered_up_to(r) + self@.row_chars(r).subrange(
                        0,
                        c + 1,
                    ));
                }
                col = col + 1;
            }
            text.append("\n");
            proof {
                reveal_strlit("\n");
                let r = row as int;
                assert(self@.row_chars(r).subrange(0, width as int) =~= self@.row_chars(r));
                assert(text@ =~= self@.rendered_up_to(r + 1));
            }
            row = row + 1;
        }
        text
    }
}

impl PartialEq for Universe {
    /// Two grids are equal when their dimensions and every cell agree.
    fn eq(&self, other: &Universe) -> (r: bool) {
        if self.width != other.width || self.height != other.height {
            return false;
        }
        if self.cells.len() != other.cells.len() {
            return false;
        }
        let n = self.cells.len();
        let mut i: usize = 0;
        while i < n
            invariant
                n == self.cells@.len(),
                n == other.cells@.len(),
                self.width == other.width,
                self.height == other.height,
                i <= n,
                forall|j: int| 0 <= j < i ==> self.cells@[j] == other.cells@[j],
            decreases n - i,
        {
            if self.cells[i] != other.cells[i] {
                return false;
            }
            i = i + 1;
        }
        proof {
            assert(self.cells@ =~= other.cells@);
            assert(self@ =~= other@);
        }
        true
    }
}

impl vstd::std_specs::cmp::PartialEqSpecImpl for Universe {
    open spec fn obeys_eq_spec() -> bool {
        true
    }

    open spec fn eq_spec(&self, other: &Universe) -> bool {
        self@ == other@
    }
}

/// Clearing is observationally a no-op on an already-empty grid: a grid
/// state that clearing an all-dead grid can leave behind — same
/// dimensions, same cell count, every cell dead — is that grid's state
/// itself.
pub proof fn lemma_clear_noop_on_empty(before: GridView, after: GridView)
    requires
        after.width == before.width,
        after.height == before.height,
        after.cells.len() == before.cells.len(),
        forall|i: int| 0 <= i < before.cells.len() ==> before.cells[i] is Dead,
        forall|i: int| 0 <= i < after.cells.len() ==> after.cells[i] is Dead,
    ensures
        after == before,
{
    assert(after.cells =~= before.cells);
    assert(after =~= before);
}

/// On a grid one cell wide, a cell's west and east neighbors wrap onto
/// its own column, so its neighbor count collapses to three counts of
/// the wrapped northern cell, two of the cell itself, and three of the
/// wrapped southern cell — without any special-casing of the degenerate
/// dimension.
pub proof fn lemma_degenerate_width(g: GridView, row: int)
    requires
        g.wf(),
        g.width == 1,
        0 <= row < g.height,
    ensures
        wrap_dec(0, g.width as int) == 0,
        wrap_inc(0, g.width as int) == 0,
        g.neighbor_count(row, 0) == 3 * g.cell_at(wrap_dec(row, g.height as int), 0).alive_bit()
            + 2 * g.cell_at(row, 0).alive_bit() + 3 * g.cell_at(
            wrap_inc(row, g.height as int),
            0,
        ).alive_bit(),
{
}

/// On a grid one cell high, a cell's north and south neighbors wrap onto
/// its own row, symmetrically to [`lemma_degenerate_width`].
pub proof fn lemma_degenerate_height(g: GridView, col: int)
    requires
        g.wf(),
        g.height == 1,
        0 <= col < g.width,
    ensures
        wrap_dec(0, g.height as int) == 0,
        wrap_inc(0, g.height as int) == 0,
        g.neighbor_count(0, col) == 3 * g.cell_at(0, wrap_dec(col, g.width as int)).alive_bit()
            + 2 * g.cell_at(0, col).alive_bit() + 3 * g.cell_at(
            0,
            wrap_inc(col, g.width as int),
        ).alive_bit(),
{
}

} // verus!

use vstd::prelude::*;

use crate::matrix::lemma_row_major_index_in_range;
use vstd::string::StringExecFns;

verus! {

/// Represents a Cell of the game of life universe
#[derive(Clone, Copy, Debug, PartialEq, Eq, Structural)]
pub enum Cell {
    Dead,
    Alive,
}

impl Cell {
    /// The opposite state of a cell value.
    pub open spec fn spec_toggled(self) -> Cell {
        match self {
            Cell::Alive => Cell::Dead,
            Cell::Dead => Cell::Alive,
        }
    }

    /// Toggle the state of a cell instance
    pub fn toggle(&mut self)
        ensures
            *final(self) == old(self).spec_toggled(),
    {
        *self = match *self {
            Cell::Alive => Cell::Dead,
            Cell::Dead => Cell::Alive,
        }
    }
}

/// `1` for an alive cell, `0` for a dead one.
pub open spec fn spec_alive(c: Cell) -> int {
    if c == Cell::Alive {
        1
    } else {
        0
    }
}

/// Whether the toroidal neighbor of `(row, column)` at offset
/// `(delta_row, delta_column)` is alive, as `0` or `1`.
pub open spec fn spec_neighbor(
    cells: Seq<Cell>,
    width: int,
    height: int,
    row: int,
    column: int,
    delta_row: int,
    delta_column: int,
) -> int {
    spec_alive(cells[((row + delta_row) % height) * width + ((column + delta_column) % width)])
}

/// How many of the 8 toroidal neighbors of `(row, column)` are alive.
pub open spec fn spec_count_alive_neighbors(
    cells: Seq<Cell>,
    width: int,
    height: int,
    row: int,
    column: int,
) -> int {
    spec_neighbor(cells, width, height, row, column, -1, -1) + spec_neighbor(
        cells,
        width,
        height,
        row,
        column,
        -1,
        0,
    ) + spec_neighbor(cells, width, height, row, column, -1, 1) + spec_neighbor(
        cells,
        width,
        height,
        row,
        column,
        0,
        -1,
    ) + spec_neighbor(cells, width, height, row, column, 0, 1) + spec_neighbor(
        cells,
        width,
        height,
        row,
        column,
        1,
        -1,
    ) + spec_neighbor(cells, width, height, row, column, 1, 0) + spec_neighbor(
        cells,
        width,
        height,
        row,
        column,
        1,
        1,
    )
}

/// The next state of one cell under the game of life rule: an alive
/// cell survives with 2 or 3 alive neighbors, a dead cell becomes
/// alive with exactly 3, and every other cell is dead.
pub open spec fn spec_next_cell(current: Cell, alive_neighbors: int) -> Cell {
    match current {
        Cell::Alive => if 2 <= alive_neighbors <= 3 {
            Cell::Alive
        } else {
            Cell::Dead
        },
        Cell::Dead => if alive_neighbors == 3 {
            Cell::Alive
        } else {
            Cell::Dead
        },
    }
}

/// One generation of the whole universe: every cell is replaced by the
/// rule applied to its previous state and its previous neighbor count.
/// All reads come from the old cells; no write of the new generation is
/// visible to another cell's update.
pub open spec fn spec_tick(cells: Seq<Cell>, width: int, height: int) -> Seq<Cell> {
    Seq::new(
        cells.len(),
        |i: int|
            spec_next_cell(
                cells[i],
                spec_count_alive_neighbors(cells, width, height, i / width, i % width),
            ),
    )
}

/// The character a cell is drawn as.
pub open spec fn spec_cell_char(c: Cell) -> char {
    if c == Cell::Dead {
        '◻'
    } else {
        '◼'
    }
}

/// One rendered row: the characters of the cells of row `row`.
pub open spec fn spec_render_row(cells: Seq<Cell>, width: int, row: int) -> Seq<char> {
    Seq::new(width as nat, |j: int| spec_cell_char(cells[row * width + j]))
}

/// The first `rows` rendered rows, each closed by a newline.
pub open spec fn spec_render_rows(cells: Seq<Cell>, width: int, rows: int) -> Seq<char>
    decreases rows,
{
    if rows <= 0 {
        Seq::empty()
    } else {
        spec_render_rows(cells, width, rows - 1) + spec_render_row(cells, width, rows - 1)
            + seq!['\n']
    }
}

/// Represents the universe of a game of life
pub struct Universe {
    tick_count: u32,
    width: u32,
    height: u32,
    cells: Vec<Cell>,
}

impl View for Universe {
    type V = Seq<Cell>;

    closed spec fn view(&self) -> Seq<Cell> {
        self.cells@
    }
}

impl Universe {
    /// The universe's width, for specifications.
    pub closed spec fn spec_width(&self) -> u32 {
        self.width
    }

    /// The universe's height, for specifications.
    pub closed spec fn spec_height(&self) -> u32 {
        self.height
    }

    /// How many generations have been computed, for specifications.
    pub closed spec fn spec_tick_count(&self) -> u32 {
        self.tick_count
    }

    /// The shape invariant: one cell for each spot of the `width` by
    /// `height` rectangle, and a cell count that the `u32` index
    /// arithmetic can address.
    pub open spec fn wf(&self) -> bool {
        &&& self@.len() == self.spec_width() * self.spec_height()
        &&& self.spec_width() * self.spec_height() <= u32::MAX
    }

    /// Instantiate a new empty universe
    #[verifier::loop_isolation(false)]
    pub fn new(width: u32, height: u32) -> (r: Universe)
        requires
            width * height <= u32::MAX,
        ensures
            r.wf(),
            r.spec_width() == width,
            r.spec_height() == height,
            r.spec_tick_count() == 0,
            r@.len() == width * height,
            forall|i: int| 0 <= i < r@.len() ==> r@[i] == Cell::Dead,
    {
        let size = (width * height) as usize;
        let mut cells: Vec<Cell> = Vec::new();
        let mut i: usize = 0;
        while i < size
            invariant
                i <= size,
                cells@.len() == i,
                forall|j: int| 0 <= j < i ==> cells@[j] == Cell::Dead,
            decreases size - i,
        {
            cells.push(Cell::Dead);
            i = i + 1;
        }

        Universe { tick_count: 0, width, height, cells }
    }

    /// Init universe with an interesting template: every cell whose
    /// index is divisible by 2 or by 7 starts alive.
    #[verifier::loop_isolation(false)]
    pub fn init(&mut self)
        requires
            old(self).wf(),
        ensures
            final(self).wf(),
            final(self).spec_width() == old(self).spec_width(),
            final(self).spec_height() == old(self).spec_height(),
            final(self).spec_tick_count() == old(self).spec_tick_count(),
            final(self)@.len() == old(self)@.len(),
            forall|i: int|
                0 <= i < final(self)@.len() ==> final(self)@[i] == (if i % 2 == 0 || i % 7 == 0 {
                    Cell::Alive
                } else {
                    Cell::Dead
                }),
    {
        let size = (self.width * self.height) as usize;
        let mut cells: Vec<Cell> = Vec::new();
        let mut i: usize = 0;
        while i < size
            invariant
                i <= size,
                cells@.len() == i,
                forall|j: int|
                    0 <= j < i ==> cells@[j] == (if j % 2 == 0 || j % 7 == 0 {
                        Cell::Alive
                    } else {
                        Cell::Dead
                    }),
            decreases size - i,
        {
            let cell = if i % 2 == 0 || i % 7 == 0 {
                Cell::Alive
            } else {
                Cell::Dead
            };
            cells.push(cell);
            i = i + 1;
        }
        self.cells = cells;
    }

    /// Basic version of rendering where the universe is rendered as a
    /// string: each row as one character per cell, closed by a newline
    #[verifier::loop_isolation(false)]
    pub fn render(&self) -> (r: String)
        requires
            self.wf(),
        ensures
            r@ == spec_render_rows(self@, self.spec_width() as int, self.spec_height() as int),
    {
        let ghost w = self.spec_width() as int;
        let mut out = String::new();
        let mut row: u32 = 0;
        while row < self.height
            invariant
                self.wf(),
                row <= self.spec_height(),
                out@ == spec_render_rows(self@, w, row as int),
            decreases self.spec_height() - row,
        {
            let mut column: u32 = 0;
            while column < self.width
                invariant
                    self.wf(),
                    row < self.spec_height(),
                    column <= self.spec_width(),
                    out@ == spec_render_rows(self@, w, row as int) + spec_render_row(
                        self@,
                        w,
                        row as int,
                    ).subrange(0, column as int),
                decreases self.spec_width() - column,
            {
                let index = self.get_cell_index(row, column);
                let symbol_is_dead = self.cells[index] == Cell::Dead;
                if symbol_is_dead {
                    out.append("◻");
                } else {
                    out.append("◼");
                }
                proof {
                    reveal_strlit("◻");
                    reveal_strlit("◼");
                    let row_chars = spec_render_row(self@, w, row as int);
                    assert(row_chars.subrange(0, column + 1) =~= row_chars.subrange(
                        0,
                        column as int,
                    ) + seq![spec_cell_char(self@[row as int * w + column as int])]);
                    assert(out@ =~= spec_render_rows(self@, w, row as int) + row_chars.subrange(
                        0,
                        column + 1,
                    ));
                }
                column = column + 1;
            }
            out.append("\n");
            proof {
                reveal_strlit("\n");
                let row_chars = spec_render_row(self@, w, row as int);
                assert(row_chars.subrange(0, self.spec_width() as int) =~= row_chars);
                assert(out@ =~= spec_render_rows(self@, w, row as int + 1));
            }
            row = row + 1;
        }
        out
    }

    /// Move the universe to its next state by calculating the next
    /// generation of cells: every cell of the new generation is the
    /// rule applied to the old generation, so no update can see
    /// another update of the same step.
    #[verifier::loop_isolation(false)]
    pub fn tick(&mut self)
        requires
            old(self).wf(),
            old(self).spec_tick_count() < u32::MAX,
        ensures
            final(self).wf(),
            final(self).spec_width() == old(self).spec_width(),
            final(self).spec_height() == old(self).spec_height(),
            final(self).spec_tick_count() == old(self).spec_tick_count() + 1,
            final(self)@ == spec_tick(
                old(self)@,
                old(self).spec_width() as int,
                old(self).spec_height() as int,
            ),
    {
        self.tick_count = self.tick_count + 1;

        let ghost w = self.spec_width() as int;
        let ghost h = self.spec_height() as int;
        let ghost next_cells = spec_tick(self@, w, h);

        let mut next_universe: Vec<Cell> = Vec::new();
        let mut row: u32 = 0;
        while row < self.height
            invariant
                self.wf(),
                row <= self.spec_height(),
                next_universe@.len() == row * self.spec_width(),
                next_cells == spec_tick(self@, w, h),
                forall|i: int|
                    0 <= i < next_universe@.len() ==> next_universe@[i] == next_cells[i],
            decreases self.spec_height() - row,
        {
            let mut column: u32 = 0;
            proof {
                vstd::arithmetic::mul::lemma_mul_inequality(
                    row + 1,
                    self.spec_height() as int,
                    w,
                );
                assert((row + 1) * w == row * w + w) by (nonlinear_arith);
                vstd::arithmetic::mul::lemma_mul_is_commutative(
                    self.spec_height() as int,
                    w,
                );
            }
            while column < self.width
                invariant
                    self.wf(),
                    row < self.spec_height(),
                    column <= self.spec_width(),
                    next_universe@.len() == row * self.spec_width() + column,
                    row * self.spec_width() + self.spec_width() <= self.spec_width()
                        * self.spec_height(),
                    next_cells == spec_tick(self@, w, h),
                    forall|i: int|
                        0 <= i < next_universe@.len() ==> next_universe@[i] == next_cells[i],
                decreases self.spec_width() - column,
            {
                let cell_index = self.get_cell_index(row, column);
                let current_cell = self.cells[cell_index];
                let alive_neighbors = self.count_alive_neighbors_of_cell(row, column);

                let next_cell = match (current_cell, alive_neighbors) {
                    (Cell::Alive, x) if !(2 <= x && x <= 3) => Cell::Dead,
                    (Cell::Dead, 3) => Cell::Alive,
                    (no_change, _) => no_change,
                };

                next_universe.push(next_cell);
                proof {
                    let i0 = row as int * w + column as int;
                    vstd::arithmetic::div_mod::lemma_fundamental_div_mod_converse_mod(
                        i0,
                        w,
                        row as int,
                        column as int,
                    );
                    vstd::arithmetic::div_mod::lemma_fundamental_div_mod_converse_div(
                        i0,
                        w,
                        row as int,
                        column as int,
                    );
                    assert(next_cell == next_cells[i0]);
                }
                column = column + 1;
            }
            row = row + 1;
            proof {
                assert(next_universe@.len() == row * self.spec_width()) by (nonlinear_arith)
                    requires
                        next_universe@.len() == (row - 1) * self.spec_width()
                            + self.spec_width(),
                ;
            }
        }

        proof {
            vstd::arithmetic::mul::lemma_mul_is_commutative(h, w);
            assert(next_universe@ =~= next_cells);
        }
        self.cells = next_universe;
    }

    /// Given the position of a cell in the universe, return its index
    /// in the storage vector
    fn get_cell_index(&self, row: u32, column: u32) -> (r: usize)
        requires
            self.wf(),
            row < self.spec_height(),
            column < self.spec_width(),
        ensures
            r == row * self.spec_width() + column,
            r < self@.len(),
    {
        proof {
            lemma_row_major_index_in_range(
                self.spec_width() as int,
                self.spec_height() as int,
                column as int,
                row as int,
            );
        }
        ((row * self.width) + column) as usize
    }

    /// Whether the toroidal neighbor at the given non-negative deltas
    /// is alive, as `0` or `1`
    fn neighbor_alive(&self, row: u32, column: u32, delta_row: u32, delta_column: u32) -> (r: u8)
        requires
            self.wf(),
            0 < self.spec_width(),
            0 < self.spec_height(),
            row < self.spec_height(),
            column < self.spec_width(),
        ensures
            r == spec_alive(
                self@[((row + delta_row) % (self.spec_height() as int)) * self.spec_width() + ((
                column + delta_column) % (self.spec_width() as int))],
            ),
            0 <= r <= 1,
    {
        let neighbor_row = ((row as u64 + delta_row as u64) % self.height as u64) as u32;
        let neighbor_column = ((column as u64 + delta_column as u64) % self.width as u64) as u32;
        let index = self.get_cell_index(neighbor_row, neighbor_column);
        if self.cells[index] == Cell::Alive {
            1
        } else {
            0
        }
    }

    /// Given the position of a cell, return the number of alive neighbors
    fn count_alive_neighbors_of_cell(&self, row: u32, column: u32) -> (r: u8)
        requires
            self.wf(),
            0 < self.spec_width(),
            0 < self.spec_height(),
            row < self.spec_height(),
            column < self.spec_width(),
        ensures
            r == spec_count_alive_neighbors(
                self@,
                self.spec_width() as int,
                self.spec_height() as int,
                row as int,
                column as int,
            ),
    {
        // The three deltas per axis are equivalent, modulo the axis
        // length, to the offsets -1, 0 and 1 around the target cell.
        let up = self.height - 1;
        let left = self.width - 1;

        let mut count: u8 = 0;
        count = count + self.neighbor_alive(row, column, up, left);
        count = count + self.neighbor_alive(row, column, up, 0);
        count = count + self.neighbor_alive(row, column, up, 1);
        count = count + self.neighbor_alive(row, column, 0, left);
        count = count + self.neighbor_alive(row, column, 0, 1);
        count = count + self.neighbor_alive(row, column, 1, left);
        count = count + self.neighbor_alive(row, column, 1, 0);
        count = count + self.neighbor_alive(row, column, 1, 1);

        proof {
            let w = self.spec_width() as int;
            let h = self.spec_height() as int;
            vstd::arithmetic::div_mod::lemma_mod_add_multiples_vanish(row - 1, h);
            vstd::arithmetic::div_mod::lemma_mod_add_multiples_vanish(column - 1, w);
            assert((row + (self.spec_height() - 1)) % h == (row - 1) % h);
            assert((column + (self.spec_width() - 1)) % w == (column - 1) % w);
        }
        count
    }

    /// Toggle the state of a cell in the universe
    pub fn toggle_cell(&mut self, row: u32, column: u32)
        requires
            old(self).wf(),
            row < old(self).spec_height(),
            column < old(self).spec_width(),
        ensures
            final(self).wf(),
            final(self).spec_width() == old(self).spec_width(),
            final(self).spec_height() == old(self).spec_height(),
            final(self).spec_tick_count() == old(self).spec_tick_count(),
            final(self)@ == old(self)@.update(
                row * old(self).spec_width() + column,
                old(self)@[row * old(self).spec_width() + column].spec_toggled(),
            ),
    {
        let index = self.get_cell_index(row, column);
        let mut cell = self.cells[index];
        cell.toggle();
        self.cells.set(index, cell);
    }

    pub fn width(&self) -> (r: u32)
        ensures
            r == self.spec_width(),
    {
        self.width
    }

    pub fn height(&self) -> (r: u32)
        ensures
            r == self.spec_height(),
    {
        self.height
    }

    /// Get the dead and alive values of the entire universe.
    pub fn get_cells(&self) -> (r: &[Cell])
        ensures
            r@ == self@,
    {
        self.cells.as_slice()
    }

    /// Set cells to be alive in a universe by passing the row and column
    /// of each cell as an array.
    #[verifier::loop_isolation(false)]
    pub fn set_cells_alive(&mut self, cells: Vec<(u32, u32)>)
        requires
            old(self).wf(),
            forall|j: int|
                0 <= j < cells@.len() ==> (#[trigger] cells@[j]).0 < old(self).spec_height()
                    && cells@[j].1 < old(self).spec_width(),
        ensures
            final(self).wf(),
            final(self).spec_width() == old(self).spec_width(),
            final(self).spec_height() == old(self).spec_height(),
            final(self).spec_tick_count() == old(self).spec_tick_count(),
            final(self)@.len() == old(self)@.len(),
            forall|i: int|
                0 <= i < final(self)@.len() ==> final(self)@[i] == (if exists|j: int|
                    0 <= j < cells@.len() && i == (#[trigger] cells@[j]).0 * old(
                        self,
                    ).spec_width() + cells@[j].1 {
                    Cell::Alive
                } else {
                    old(self)@[i]
                }),
    {
        let ghost w = self.spec_width() as int;
        let ghost initial_cells = self@;
        let mut k: usize = 0;
        while k < cells.len()
            invariant
                self.wf(),
                k <= cells@.len(),
                self.spec_width() == old(self).spec_width(),
                self.spec_height() == old(self).spec_height(),
                self.spec_tick_count() == old(self).spec_tick_count(),
                self@.len() == initial_cells.len(),
                initial_cells == old(self)@,
                forall|j: int|
                    0 <= j < cells@.len() ==> (#[trigger] cells@[j]).0 < old(self).spec_height()
                        && cells@[j].1 < old(self).spec_width(),
                forall|i: int|
                    0 <= i < self@.len() ==> self@[i] == (if exists|j: int|
                        0 <= j < k && i == (#[trigger] cells@[j]).0 * w + cells@[j].1 {
                        Cell::Alive
                    } else {
                        initial_cells[i]
                    }),
            decreases cells@.len() - k,
        {
            let (row, column) = cells[k];
            let cell_index = self.get_cell_index(row, column);
            self.cells.set(cell_index, Cell::Alive);
            k = k + 1;
        }
    }
}

/// One generation is a function of the cells and the shape alone: two
/// universes holding the same cells in the same shape are sent to the
/// same next generation, so identically built and identically seeded
/// universes stay identical through any number of ticks.
pub proof fn lemma_evolution_deterministic(a: Universe, b: Universe)
    requires
        a@ == b@,
        a.spec_width() == b.spec_width(),
        a.spec_height() == b.spec_height(),
    ensures
        spec_tick(a@, a.spec_width() as int, a.spec_height() as int) == spec_tick(
            b@,
            b.spec_width() as int,
            b.spec_height() as int,
        ),
{
}

} // verus!

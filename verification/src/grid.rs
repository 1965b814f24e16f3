//! The grid of cells and the rule that takes it from one generation to the next.

pub mod dead_alive_char_cells;
pub mod outer;
pub mod text_data;
pub mod text_load_error;

pub use dead_alive_char_cells::{DeadAliveCharCell, InvalidCharCell};
pub use outer::LifeCell;
pub use text_data::TextData;

use crate::text::push_char;
use text_data::{
    has_cells,
    lemma_row_without_fault,
    lemma_rows_without_fault,
    lemma_sound_row,
    lemma_sound_rows,
    lemma_text_is_read_back,
    plain_row,
    row_fault,
    rows_fault,
    rows_text,
    text_fault,
    text_rows,
};
use vstd::arithmetic::div_mod::{
    lemma_fundamental_div_mod,
    lemma_fundamental_div_mod_converse,
    lemma_mod_add_multiples_vanish,
    lemma_mod_self_0,
    lemma_small_mod,
};
use vstd::prelude::*;

verus! {

/// Where the cell in row `y`, column `x` stands in a buffer that holds the rows one
/// after the other, each `width` cells long.
pub open spec fn spec_y_x_to_index(width: int, y: int, x: int) -> int {
    y * width + x
}

pub fn y_x_to_index(width: usize, y: usize, x: usize) -> (index: usize)
    requires
        spec_y_x_to_index(width as int, y as int, x as int) <= usize::MAX,
    ensures
        index == spec_y_x_to_index(width as int, y as int, x as int),
{
    assert(0 <= y * width) by (nonlinear_arith);
    (y * width) + x
}

/// Row and column of the cell at `index`, and its index again from them.
pub proof fn lemma_row_major(width: int, y: int, x: int)
    requires
        0 <= x < width,
    ensures
        spec_y_x_to_index(width, y, x) / width == y,
        spec_y_x_to_index(width, y, x) % width == x,
{
    lemma_fundamental_div_mod_converse(y * width + x, width, y, x);
}

/// A cell inside a grid has its index inside the buffer.
pub proof fn lemma_index_in_range(height: int, width: int, y: int, x: int)
    requires
        0 <= y < height,
        0 <= x < width,
    ensures
        0 <= spec_y_x_to_index(width, y, x) < height * width,
{
    assert(0 <= y * width && y * width + width <= height * width) by (nonlinear_arith)
        requires
            0 <= y < height,
            0 < width,
    ;
}

/// The coordinates `(y, x)` of all cells of a grid, row after row from the top, each
/// row from the left: the cell at index `k` is the `k`-th.
pub fn all_coords(height: usize, width: usize) -> (coords: Vec<(usize, usize)>)
    requires
        height * width <= usize::MAX,
    ensures
        coords@.len() == height * width,
        forall|k: int|
            0 <= k < coords@.len() ==> #[trigger] coords@[k] == (
                (k / width as int) as usize,
                (k % width as int) as usize,
            ),
        forall|k: int|
            0 <= k < coords@.len() ==> (#[trigger] coords@[k]).0 < height && coords@[k].1
                < width,
{
    let mut coords: Vec<(usize, usize)> = Vec::new();
    let mut y: usize = 0;
    while y < height
        invariant
            y <= height,
            height * width <= usize::MAX,
            coords@.len() == y * width,
            forall|k: int|
                0 <= k < coords@.len() ==> #[trigger] coords@[k] == (
                    (k / width as int) as usize,
                    (k % width as int) as usize,
                ),
            forall|k: int|
                0 <= k < coords@.len() ==> (#[trigger] coords@[k]).0 < height && coords@[k].1
                    < width,
        decreases height - y,
    {
        let mut x: usize = 0;
        while x < width
            invariant
                y < height,
                x <= width,
                height * width <= usize::MAX,
                coords@.len() == y * width + x,
                forall|k: int|
                    0 <= k < coords@.len() ==> #[trigger] coords@[k] == (
                        (k / width as int) as usize,
                        (k % width as int) as usize,
                    ),
                forall|k: int|
                    0 <= k < coords@.len() ==> (#[trigger] coords@[k]).0 < height
                        && coords@[k].1 < width,
            decreases width - x,
        {
            proof {
                lemma_row_major(width as int, y as int, x as int);
            }
            coords.push((y, x));
            x += 1;
        }
        assert(y * width + width == (y + 1) * width) by (nonlinear_arith);
        y += 1;
    }
    coords
}

/// The eight cells around `(y, x)` on a torus of `height` rows and `width` columns: the
/// row above and the row below, the column to the left and the column to the right,
/// each taken round the edge. On a torus one row high or one column wide a cell is
/// among its own neighbours.
pub open spec fn neighbours(height: int, width: int, y: int, x: int) -> Seq<(int, int)> {
    let left_x = (x + width - 1) % width;
    let right_x = (x + 1) % width;
    let top_y = (y + height - 1) % height;
    let bottom_y = (y + 1) % height;
    seq![
        (top_y, left_x),
        (top_y, x),
        (top_y, right_x),
        (y, left_x),
        (y, right_x),
        (bottom_y, left_x),
        (bottom_y, x),
        (bottom_y, right_x),
    ]
}

/// Going round the edge: the position before the first is the last, the position after
/// the last is the first, and every other step stays next door.
pub proof fn lemma_ring(i: int, n: int)
    requires
        0 <= i < n,
    ensures
        (i + n - 1) % n == (if i == 0 {
            n - 1
        } else {
            i - 1
        }),
        (i + 1) % n == (if i + 1 == n {
            0
        } else {
            i + 1
        }),
{
    if i == 0 {
        lemma_small_mod((n - 1) as nat, n as nat);
    } else {
        lemma_mod_add_multiples_vanish(i - 1, n);
        lemma_small_mod((i - 1) as nat, n as nat);
    }
    if i + 1 == n {
        lemma_mod_self_0(n);
    } else {
        lemma_small_mod((i + 1) as nat, n as nat);
    }
}

/// Every cell of a torus has eight neighbours, and each of them is a cell of the
/// torus.
pub proof fn lemma_neighbours_lie_on_the_torus(height: int, width: int, y: int, x: int)
    requires
        0 <= y < height,
        0 <= x < width,
    ensures
        neighbours(height, width, y, x).len() == 8,
        forall|k: int|
            0 <= k < 8 ==> 0 <= (#[trigger] neighbours(height, width, y, x)[k]).0 < height && 0
                <= neighbours(height, width, y, x)[k].1 < width,
{
    lemma_ring(y, height);
    lemma_ring(x, width);
}

/// The edges of a torus meet: the cell in the top left corner has the cell in the
/// bottom right corner as the neighbour above it to the left, and the cell in the
/// bottom left corner has the cell in the top left corner as the neighbour below it.
pub proof fn lemma_edges_meet(height: int, width: int)
    requires
        0 < height,
        0 < width,
    ensures
        neighbours(height, width, 0, 0)[0] == (height - 1, width - 1),
        neighbours(height, width, 0, 0).contains((height - 1, width - 1)),
        neighbours(height, width, height - 1, 0)[6] == (0int, 0int),
        neighbours(height, width, height - 1, 0).contains((0int, 0int)),
{
    lemma_ring(0, height);
    lemma_ring(0, width);
    lemma_ring(height - 1, height);
}

/// The position before `i` on a ring of `n` positions.
fn ring_before(i: usize, n: usize) -> (j: usize)
    requires
        i < n,
    ensures
        j == (i + n - 1) % (n as int),
        j < n,
{
    proof {
        lemma_ring(i as int, n as int);
    }
    if i == 0 {
        n - 1
    } else {
        i - 1
    }
}

/// The position after `i` on a ring of `n` positions.
fn ring_after(i: usize, n: usize) -> (j: usize)
    requires
        i < n,
    ensures
        j == (i + 1) % (n as int),
        j < n,
{
    proof {
        lemma_ring(i as int, n as int);
    }
    if i + 1 == n {
        0
    } else {
        i + 1
    }
}

/// The neighbours of `(y, x)`, as `neighbours` lists them.
pub fn neighbour_coords(height: usize, width: usize, y: usize, x: usize) -> (coords: [(
    usize,
    usize,
); 8])
    requires
        y < height,
        x < width,
    ensures
        forall|k: int|
            0 <= k < 8 ==> (#[trigger] coords@[k]).0 < height && coords@[k].1 < width && (
                coords@[k].0 as int,
                coords@[k].1 as int,
            ) == neighbours(height as int, width as int, y as int, x as int)[k],
{
    let left_x = ring_before(x, width);
    let right_x = ring_after(x, width);
    let top_y = ring_before(y, height);
    let bottom_y = ring_after(y, height);
    [
        (top_y, left_x),
        (top_y, x),
        (top_y, right_x),
        (y, left_x),
        (y, right_x),
        (bottom_y, left_x),
        (bottom_y, x),
        (bottom_y, right_x),
    ]
}

/// What becomes of a cell that has `alive` living neighbours.
pub open spec fn spec_next_cell(cell: LifeCell, alive: nat) -> LifeCell {
    match cell {
        LifeCell::Alive => if alive == 2 || alive == 3 {
            LifeCell::Alive
        } else {
            LifeCell::Dead
        },
        LifeCell::Dead => if alive == 3 {
            LifeCell::Alive
        } else {
            LifeCell::Dead
        },
    }
}

/// The rule of the game for one cell: a living cell with fewer than two living
/// neighbours dies, with two or three it lives on, with more than three it dies; a dead
/// cell with exactly three comes alive; every other cell stays as it is.
pub fn next_cell(cell: LifeCell, alive: usize) -> (next: LifeCell)
    ensures
        next == spec_next_cell(cell, alive as nat),
        cell == LifeCell::Alive && alive < 2 ==> next == LifeCell::Dead,
        cell == LifeCell::Alive && 2 <= alive <= 3 ==> next == LifeCell::Alive,
        cell == LifeCell::Alive && alive > 3 ==> next == LifeCell::Dead,
        cell == LifeCell::Dead && alive == 3 ==> next == LifeCell::Alive,
        cell == LifeCell::Dead && alive != 3 ==> next == LifeCell::Dead,
{
    match cell {
        LifeCell::Alive => {
            if alive < 2 {
                LifeCell::Dead
            } else if alive <= 3 {
                LifeCell::Alive
            } else {
                LifeCell::Dead
            }
        },
        LifeCell::Dead => {
            if alive == 3 {
                LifeCell::Alive
            } else {
                LifeCell::Dead
            }
        },
    }
}

/// What a grid is: its cells row after row, its size, and how many generations have
/// passed since it was made.
pub struct GridState {
    pub cells: Seq<LifeCell>,
    pub height: nat,
    pub width: nat,
    pub passed_ticks: nat,
}

impl GridState {
    /// A grid has a cell, and its buffer holds exactly its cells.
    pub open spec fn wf(self) -> bool {
        &&& self.width > 0
        &&& self.height > 0
        &&& self.cells.len() == self.height * self.width
    }

    /// The grid that `rows` describe before its first generation: a character is a dead
    /// cell where it is `dead`, and a living one where it is not.
    pub open spec fn of_rows(rows: Seq<Seq<char>>, dead: char) -> GridState {
        let height = rows.len();
        let width = rows[0].len();
        GridState {
            cells: Seq::new(
                height * width,
                |index: int|
                    if rows[index / width as int][index % width as int] == dead {
                        LifeCell::Dead
                    } else {
                        LifeCell::Alive
                    },
            ),
            height,
            width,
            passed_ticks: 0,
        }
    }

    /// The cell in row `y`, column `x`.
    pub open spec fn cell(self, y: int, x: int) -> LifeCell {
        self.cells[spec_y_x_to_index(self.width as int, y, x)]
    }

    /// How many of the cells at `coords` are alive; one that is listed twice counts
    /// twice.
    pub open spec fn alive_among(self, coords: Seq<(int, int)>) -> nat
        decreases coords.len(),
    {
        if coords.len() == 0 {
            0
        } else {
            let rest = self.alive_among(coords.drop_last());
            if self.cell(coords.last().0, coords.last().1) == LifeCell::Alive {
                rest + 1
            } else {
                rest
            }
        }
    }

    /// How many of the eight neighbours of `(y, x)` are alive.
    pub open spec fn alive_neighbours(self, y: int, x: int) -> nat {
        self.alive_among(neighbours(self.height as int, self.width as int, y, x))
    }

    /// The cell at `index` one generation later.
    pub open spec fn next_at(self, index: int) -> LifeCell {
        spec_next_cell(
            self.cells[index],
            self.alive_neighbours(index / self.width as int, index % self.width as int),
        )
    }

    /// The grid one generation later: every cell follows the rule on what its
    /// neighbours are now, all at once.
    pub open spec fn ticked(self) -> GridState {
        GridState {
            cells: Seq::new(self.cells.len(), |index: int| self.next_at(index)),
            height: self.height,
            width: self.width,
            passed_ticks: self.passed_ticks + 1,
        }
    }

    /// The grid written down row by row: `dead` for a dead cell and `alive` for a
    /// living one.
    pub open spec fn rows(self, dead: char, alive: char) -> Seq<Seq<char>> {
        Seq::new(
            self.height,
            |y: int|
                Seq::new(
                    self.width,
                    |x: int|
                        if self.cell(y, x) == LifeCell::Dead {
                            dead
                        } else {
                            alive
                        },
                ),
        )
    }

    /// The grid as a text: its rows with a line feed between two of them.
    pub open spec fn text(self, dead: char, alive: char) -> Seq<char> {
        rows_text(self.rows(dead, alive))
    }

    /// The grid with the cells of `initial` and no generation passed.
    pub open spec fn reset_to(self, initial: GridState) -> GridState {
        GridState {
            cells: initial.cells,
            height: self.height,
            width: self.width,
            passed_ticks: 0,
        }
    }
}

/// A grid that is written and loaded again is the same grid, before its first
/// generation. The two characters have to differ, and neither may be a line feed or a
/// carriage return.
pub proof fn lemma_written_grid_is_loaded(grid: GridState, dead: char, alive: char)
    requires
        grid.wf(),
        dead != alive,
        dead != '\n' && dead != '\r',
        alive != '\n' && alive != '\r',
    ensures
        has_cells(grid.text(dead, alive)),
        text_rows(grid.text(dead, alive)) == grid.rows(dead, alive),
        text_fault(grid.text(dead, alive), dead, alive) is None,
        GridState::of_rows(text_rows(grid.text(dead, alive)), dead) == (GridState {
            passed_ticks: 0,
            ..grid
        }),
{
    let rows = grid.rows(dead, alive);
    let height = grid.height as int;
    let width = grid.width as int;
    assert forall|y: int| 0 <= y < rows.len() implies plain_row(#[trigger] rows[y]) && row_fault(
        rows[y],
        width,
        dead,
        alive,
    ) is None by {
        lemma_sound_row(rows[y], 0, dead, alive);
    }
    lemma_text_is_read_back(rows);
    lemma_sound_rows(rows, 0, width, dead, alive);
    let loaded = GridState::of_rows(rows, dead);
    assert forall|index: int| 0 <= index < grid.cells.len() implies loaded.cells[index]
        == grid.cells[index] by {
        let y = index / width;
        let x = index % width;
        lemma_fundamental_div_mod(index, width);
        assert(0 <= y < height) by (nonlinear_arith)
            requires
                0 <= index < height * width,
                index == width * y + x,
                0 <= x < width,
        ;
        assert(y * width == width * y) by (nonlinear_arith);
        assert(rows[y][x] == (if grid.cell(y, x) == LifeCell::Dead {
            dead
        } else {
            alive
        }));
    }
    assert(loaded.cells =~= grid.cells);
}

/// A grid that was loaded is written as the rows it was loaded from. The rows have to
/// be a grid over `dead` and `alive`, and the two characters have to differ.
pub proof fn lemma_loaded_grid_is_written(rows: Seq<Seq<char>>, dead: char, alive: char)
    requires
        rows.len() > 0,
        rows[0].len() > 0,
        rows_fault(rows, 0, rows[0].len() as int, dead, alive) is None,
        dead != alive,
    ensures
        GridState::of_rows(rows, dead).wf(),
        GridState::of_rows(rows, dead).rows(dead, alive) == rows,
        GridState::of_rows(rows, dead).text(dead, alive) == rows_text(rows),
{
    let grid = GridState::of_rows(rows, dead);
    let height = rows.len() as int;
    let width = rows[0].len() as int;
    let written = grid.rows(dead, alive);
    assert forall|y: int| 0 <= y < height implies #[trigger] written[y] == rows[y] by {
        lemma_rows_without_fault(rows, 0, y, width, dead, alive);
        assert forall|x: int| 0 <= x < width implies #[trigger] written[y][x] == rows[y][x] by {
            lemma_row_major(width, y, x);
            lemma_index_in_range(height, width, y, x);
            lemma_row_without_fault(rows[y], 0, x, dead, alive);
        }
        assert(written[y] =~= rows[y]);
    }
    assert(written =~= rows);
}

/// Where none of the cells at `coords` is alive, none is counted.
proof fn lemma_none_alive_among(grid: GridState, coords: Seq<(int, int)>)
    requires
        forall|k: int|
            0 <= k < coords.len() ==> grid.cell((#[trigger] coords[k]).0, coords[k].1)
                == LifeCell::Dead,
    ensures
        grid.alive_among(coords) == 0,
    decreases coords.len(),
{
    if coords.len() > 0 {
        let rest = coords.drop_last();
        assert forall|k: int| 0 <= k < rest.len() implies grid.cell(
            (#[trigger] rest[k]).0,
            rest[k].1,
        ) == LifeCell::Dead by {
            assert(rest[k] == coords[k]);
        }
        lemma_none_alive_among(grid, rest);
        assert(coords.last() == coords[coords.len() - 1]);
    }
}

/// A grid without a living cell has none one generation later either; the generation
/// is counted all the same.
pub proof fn lemma_dead_grid_stays_dead(grid: GridState)
    requires
        grid.wf(),
        forall|index: int| 0 <= index < grid.cells.len() ==> grid.cells[index] == LifeCell::Dead,
    ensures
        grid.ticked().cells == grid.cells,
        grid.ticked().passed_ticks == grid.passed_ticks + 1,
{
    let height = grid.height as int;
    let width = grid.width as int;
    assert forall|index: int| 0 <= index < grid.cells.len() implies grid.next_at(index)
        == LifeCell::Dead by {
        let y = index / width;
        let x = index % width;
        lemma_fundamental_div_mod(index, width);
        assert(0 <= x < width);
        assert(0 <= y < height) by (nonlinear_arith)
            requires
                0 <= index < height * width,
                index == width * y + x,
                0 <= x < width,
        ;
        let around = neighbours(height, width, y, x);
        lemma_neighbours_lie_on_the_torus(height, width, y, x);
        assert forall|k: int| 0 <= k < around.len() implies grid.cell(
            (#[trigger] around[k]).0,
            around[k].1,
        ) == LifeCell::Dead by {
            lemma_index_in_range(height, width, around[k].0, around[k].1);
        }
        lemma_none_alive_among(grid, around);
    }
    assert(grid.ticked().cells =~= grid.cells);
}

pub struct Grid {
    all_cells: Vec<LifeCell>,
    height: usize,
    width: usize,
    passed_ticks: usize,
}

impl View for Grid {
    type V = GridState;

    closed spec fn view(&self) -> GridState {
        GridState {
            cells: self.all_cells@,
            height: self.height as nat,
            width: self.width as nat,
            passed_ticks: self.passed_ticks as nat,
        }
    }
}

impl Grid {
    #[verifier::type_invariant]
    spec fn well_formed(&self) -> bool {
        self@.wf()
    }

    /// The grid that `text` describes, before its first generation.
    pub fn new(text: TextData) -> (grid: Self)
        ensures
            grid@ == GridState::of_rows(text.rows(), text.spec_dead_char()),
            grid@.wf(),
            grid@.passed_ticks == 0,
            grid@.height == text.spec_height(),
            grid@.width == text.spec_width(),
            forall|y: int, x: int|
                0 <= y < grid@.height && 0 <= x < grid@.width ==> #[trigger] grid@.cell(y, x)
                    == text.spec_cell_at_y_x(y, x),
    {
        let (height, width) = (text.height(), text.width());
        let coords = all_coords(height, width);
        let mut all_cells: Vec<LifeCell> = Vec::with_capacity(coords.len());
        let mut k: usize = 0;
        while k < coords.len()
            invariant
                height == text.spec_height() == text.rows().len(),
                width == text.spec_width() == text.rows()[0].len(),
                width > 0,
                height > 0,
                k <= coords@.len() == height * width,
                all_cells@.len() == k,
                forall|i: int|
                    0 <= i < coords@.len() ==> #[trigger] coords@[i] == (
                        (i / width as int) as usize,
                        (i % width as int) as usize,
                    ),
                forall|i: int|
                    0 <= i < coords@.len() ==> (#[trigger] coords@[i]).0 < height && coords@[i].1
                        < width,
                forall|i: int|
                    0 <= i < k ==> #[trigger] all_cells@[i] == text.spec_cell_at_y_x(
                        i / width as int,
                        i % width as int,
                    ),
            decreases coords@.len() - k,
        {
            let (y, x) = coords[k];
            all_cells.push(text.cell_at_y_x(y, x));
            k += 1;
        }
        let grid = Self { all_cells, height, width, passed_ticks: 0 };
        proof {
            assert(grid@.cells =~= GridState::of_rows(text.rows(), text.spec_dead_char()).cells);
            assert forall|y: int, x: int|
                0 <= y < grid@.height && 0 <= x < grid@.width implies #[trigger] grid@.cell(y, x)
                == text.spec_cell_at_y_x(y, x) by {
                lemma_row_major(width as int, y, x);
                lemma_index_in_range(height as int, width as int, y, x);
            }
        }
        grid
    }

    pub fn height(&self) -> (height: usize)
        ensures
            height == self@.height,
            self@.wf(),
    {
        proof {
            use_type_invariant(self);
        }
        self.height
    }

    pub fn width(&self) -> (width: usize)
        ensures
            width == self@.width,
            self@.wf(),
    {
        proof {
            use_type_invariant(self);
        }
        self.width
    }

    /// The cell in row `y`, column `x`, which have to lie inside the grid.
    pub fn cell_at_y_x(&self, y: usize, x: usize) -> (cell: LifeCell)
        requires
            y < self@.height,
            x < self@.width,
        ensures
            cell == self@.cell(y as int, x as int),
    {
        proof {
            use_type_invariant(self);
            assert(self.all_cells.len() == self.all_cells@.len());
            lemma_index_in_range(self.height as int, self.width as int, y as int, x as int);
        }
        self.all_cells[y_x_to_index(self.width, y, x)]
    }

    /// Every cell with its coordinates `(y, x)`, row after row from the top, each row
    /// from the left: what there is to draw.
    pub fn cells(&self) -> (cells: Vec<((usize, usize), LifeCell)>)
        ensures
            cells@.len() == self@.cells.len(),
            forall|k: int|
                0 <= k < cells@.len() ==> #[trigger] cells@[k] == (
                    ((k / self@.width as int) as usize, (k % self@.width as int) as usize),
                    self@.cells[k],
                ),
    {
        proof {
            use_type_invariant(self);
            assert(self.all_cells.len() == self.all_cells@.len());
        }
        let coords = all_coords(self.height, self.width);
        let mut cells: Vec<((usize, usize), LifeCell)> = Vec::with_capacity(coords.len());
        let mut k: usize = 0;
        while k < coords.len()
            invariant
                self@.wf(),
                k <= coords@.len() == self@.cells.len(),
                cells@.len() == k,
                forall|i: int|
                    0 <= i < coords@.len() ==> #[trigger] coords@[i] == (
                        (i / self@.width as int) as usize,
                        (i % self@.width as int) as usize,
                    ),
                forall|i: int|
                    0 <= i < coords@.len() ==> (#[trigger] coords@[i]).0 < self@.height
                        && coords@[i].1 < self@.width,
                forall|i: int| 0 <= i < k ==> #[trigger] cells@[i] == (coords@[i], self@.cells[i]),
            decreases coords@.len() - k,
        {
            let (y, x) = coords[k];
            proof {
                lemma_fundamental_div_mod(k as int, self.width as int);
                assert((k / self.width) * self.width == self.width * (k / self.width))
                    by (nonlinear_arith);
            }
            cells.push(((y, x), self.cell_at_y_x(y, x)));
            k += 1;
        }
        cells
    }

    /// One generation on.
    pub fn tick(&mut self)
        requires
            old(self)@.passed_ticks < usize::MAX,
        ensures
            final(self)@ == old(self)@.ticked(),
            final(self)@.passed_ticks == old(self)@.passed_ticks + 1,
            final(self)@.wf(),
    {
        proof {
            use_type_invariant(&*self);
        }
        let to_apply = self.calcalute_change();
        self.all_cells = to_apply;
        self.passed_ticks += 1;
    }

    /// How many generations have passed since the grid was made or last reset.
    pub fn passed_tick(&self) -> (passed: usize)
        ensures
            passed == self@.passed_ticks,
    {
        self.passed_ticks
    }

    /// Takes the cells of `initial`, a grid of the same size, and starts counting
    /// generations anew.
    pub fn reset_to(&mut self, initial: &Grid)
        requires
            initial@.height == old(self)@.height,
            initial@.width == old(self)@.width,
        ensures
            final(self)@ == old(self)@.reset_to(initial@),
            final(self)@.wf(),
    {
        proof {
            use_type_invariant(&*self);
            use_type_invariant(initial);
        }
        self.all_cells = copy_cells(&initial.all_cells);
        self.passed_ticks = 0;
    }

    /// The grid as a text, as `GridState::text` says: `dead` for a dead cell, `alive`
    /// for a living one, and a line feed between two rows.
    pub fn to_text(&self, dead: char, alive: char) -> (text: String)
        ensures
            text@ == self@.text(dead, alive),
    {
        proof {
            use_type_invariant(self);
        }
        let ghost rows = self@.rows(dead, alive);
        let mut text = String::new();
        let mut y: usize = 0;
        while y < self.height
            invariant
                self@.wf(),
                rows == self@.rows(dead, alive),
                y <= self.height == self@.height,
                text@ == rows_text(rows.take(y as int)),
            decreases self.height - y,
        {
            if y > 0 {
                push_char(&mut text, '\n');
            }
            let ghost before = text@;
            let mut x: usize = 0;
            while x < self.width
                invariant
                    self@.wf(),
                    rows == self@.rows(dead, alive),
                    y < self.height == self@.height,
                    x <= self.width == self@.width,
                    text@ == before + rows[y as int].take(x as int),
                decreases self.width - x,
            {
                let c = match self.cell_at_y_x(y, x) {
                    LifeCell::Dead => dead,
                    LifeCell::Alive => alive,
                };
                push_char(&mut text, c);
                assert(rows[y as int].take(x + 1) =~= rows[y as int].take(x as int).push(c));
                x += 1;
            }
            proof {
                assert(rows[y as int].take(self.width as int) =~= rows[y as int]);
                assert(rows.take(y + 1).drop_last() =~= rows.take(y as int));
                assert(rows.take(y + 1).last() == rows[y as int]);
                if y == 0 {
                    assert(before =~= Seq::<char>::empty());
                    assert(text@ =~= rows[0]);
                }
            }
            y += 1;
        }
        assert(rows.take(self.height as int) =~= rows);
        text
    }

    /// How many of the eight neighbours of `(y, x)` are alive.
    pub fn count_alive_cells(&self, y: usize, x: usize) -> (found: usize)
        requires
            y < self@.height,
            x < self@.width,
        ensures
            found == self@.alive_neighbours(y as int, x as int),
            found <= 8,
    {
        proof {
            use_type_invariant(self);
            assert(self.all_cells.len() == self.all_cells@.len());
        }
        let (height, width) = (self.height, self.width);
        let around = neighbour_coords(height, width, y, x);
        let ghost listed = neighbours(height as int, width as int, y as int, x as int);
        let mut found_alive_adjacant: usize = 0;
        let mut k: usize = 0;
        while k < 8
            invariant
                k <= 8,
                self@.wf(),
                height == self@.height,
                width == self@.width,
                listed.len() == 8,
                forall|i: int|
                    0 <= i < 8 ==> (#[trigger] around@[i]).0 < height && around@[i].1 < width && (
                        around@[i].0 as int,
                        around@[i].1 as int,
                    ) == listed[i],
                found_alive_adjacant <= k,
                found_alive_adjacant == self@.alive_among(listed.take(k as int)),
            decreases 8 - k,
        {
            let (near_y, near_x) = around[k];
            proof {
                lemma_index_in_range(height as int, width as int, near_y as int, near_x as int);
                assert(listed.take(k + 1).drop_last() =~= listed.take(k as int));
                assert(listed.take(k + 1).last() == listed[k as int]);
            }
            let current_cell = self.cell_at_y_x(near_y, near_x);
            match current_cell {
                LifeCell::Alive => found_alive_adjacant += 1,
                LifeCell::Dead => (),
            };
            k += 1;
        }
        assert(listed.take(8) =~= listed);
        found_alive_adjacant
    }

    /// The cells of the next generation, each from the cells of this one.
    pub fn calcalute_change(&self) -> (to_return: Vec<LifeCell>)
        ensures
            to_return@ == self@.ticked().cells,
    {
        proof {
            use_type_invariant(self);
            assert(self.all_cells.len() == self.all_cells@.len());
        }
        let coords = all_coords(self.height, self.width);
        let mut to_return: Vec<LifeCell> = Vec::with_capacity(self.all_cells.len());
        let mut k: usize = 0;
        while k < coords.len()
            invariant
                self@.wf(),
                k <= coords@.len() == self@.cells.len(),
                to_return@.len() == k,
                forall|i: int|
                    0 <= i < coords@.len() ==> #[trigger] coords@[i] == (
                        (i / self@.width as int) as usize,
                        (i % self@.width as int) as usize,
                    ),
                forall|i: int|
                    0 <= i < coords@.len() ==> (#[trigger] coords@[i]).0 < self@.height
                        && coords@[i].1 < self@.width,
                forall|i: int| 0 <= i < k ==> #[trigger] to_return@[i] == self@.next_at(i),
            decreases coords@.len() - k,
        {
            let (y, x) = coords[k];
            proof {
                lemma_fundamental_div_mod(k as int, self.width as int);
                assert((k / self.width) * self.width == self.width * (k / self.width))
                    by (nonlinear_arith);
            }
            let cell_count = self.count_alive_cells(y, x);
            let current_cell = self.cell_at_y_x(y, x);
            to_return.push(next_cell(current_cell, cell_count));
            k += 1;
        }
        assert(to_return@ =~= self@.ticked().cells);
        to_return
    }
}

/// A copy of `cells`.
fn copy_cells(cells: &Vec<LifeCell>) -> (copy: Vec<LifeCell>)
    ensures
        copy@ == cells@,
{
    let mut copy: Vec<LifeCell> = Vec::with_capacity(cells.len());
    let mut k: usize = 0;
    while k < cells.len()
        invariant
            k <= cells@.len(),
            copy@ == cells@.take(k as int),
        decreases cells@.len() - k,
    {
        copy.push(cells[k]);
        assert(cells@.take(k + 1) =~= cells@.take(k as int).push(cells@[k as int]));
        k += 1;
    }
    assert(cells@.take(cells@.len() as int) =~= cells@);
    copy
}

impl Clone for Grid {
    fn clone(&self) -> (copy: Self)
        ensures
            copy@ == self@,
    {
        proof {
            use_type_invariant(self);
        }
        Self {
            all_cells: copy_cells(&self.all_cells),
            height: self.height,
            width: self.width,
            passed_ticks: self.passed_ticks,
        }
    }
}

} // verus!

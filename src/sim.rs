use vstd::prelude::*;

use crate::engine::{blank_counts, blank_slate, eval_next, update_neighbor_counts};
use crate::rules::{all_dead, alive_at, cell_lt, is_grid, is_live_list, next_generation, rows_of};

verus! {

/// What the display layer receives: the grid's dimensions and the live cells
/// in ascending (row, then column) order.
#[derive(Debug, PartialEq, Eq)]
pub struct JObject {
    pub rows: usize,
    pub cols: usize,
    pub active_particles: Vec<(usize, usize)>,
}

impl JObject {
    /// A record of the given dimensions with no live cell yet.
    pub fn new(rows: usize, cols: usize) -> (o: JObject)
        ensures
            o.rows == rows,
            o.cols == cols,
            o.active_particles@.len() == 0,
    {
        JObject { rows, cols, active_particles: Vec::new() }
    }
}

/// The record for `grid`: its declared dimensions and the list of its live
/// cells, built afresh.
pub fn create_json_object(grid: &Vec<Vec<bool>>, rows: usize, cols: usize) -> (o: JObject)
    ensures
        o.rows == rows,
        o.cols == cols,
        is_live_list(rows_of(grid), o.active_particles@),
{
    let mut obj = JObject::new(rows, cols);
    let ghost g = rows_of(grid);
    let mut row: usize = 0;
    while row < grid.len()
        invariant
            g == rows_of(grid),
            row <= grid@.len(),
            obj.rows == rows,
            obj.cols == cols,
            forall|k: int|
                0 <= k < obj.active_particles@.len() ==> alive_at(
                    g,
                    #[trigger] obj.active_particles@[k].0 as int,
                    obj.active_particles@[k].1 as int,
                ) && obj.active_particles@[k].0 < row,
            forall|i: int, j: int|
                #[trigger] alive_at(g, i, j) && i < row ==> exists|k: int|
                    0 <= k < obj.active_particles@.len() && obj.active_particles@[k].0 == i
                        && obj.active_particles@[k].1 == j,
            forall|a: int, b: int|
                0 <= a < b < obj.active_particles@.len() ==> cell_lt(
                    #[trigger] obj.active_particles@[a],
                    #[trigger] obj.active_particles@[b],
                ),
        decreases grid@.len() - row,
    {
        let mut col: usize = 0;
        while col < grid[row].len()
            invariant
                g == rows_of(grid),
                row < grid@.len(),
                col <= grid@[row as int]@.len(),
                obj.rows == rows,
                obj.cols == cols,
                forall|k: int|
                    0 <= k < obj.active_particles@.len() ==> alive_at(
                        g,
                        #[trigger] obj.active_particles@[k].0 as int,
                        obj.active_particles@[k].1 as int,
                    ) && cell_lt(obj.active_particles@[k], (row, col)),
                forall|i: int, j: int|
                    #[trigger] alive_at(g, i, j) && (i < row || (i == row && j < col))
                        ==> exists|k: int|
                        0 <= k < obj.active_particles@.len() && obj.active_particles@[k].0 == i
                            && obj.active_particles@[k].1 == j,
                forall|a: int, b: int|
                    0 <= a < b < obj.active_particles@.len() ==> cell_lt(
                        #[trigger] obj.active_particles@[a],
                        #[trigger] obj.active_particles@[b],
                    ),
            decreases grid@[row as int]@.len() - col,
        {
            assert(g[row as int] == grid@[row as int]@);
            if grid[row][col] {
                let ghost prev = obj.active_particles@;
                obj.active_particles.push((row, col));
                assert forall|i: int, j: int|
                    #[trigger] alive_at(g, i, j) && (i < row || (i == row && j < col + 1))
                        implies exists|k: int|
                        0 <= k < obj.active_particles@.len() && obj.active_particles@[k].0 == i
                            && obj.active_particles@[k].1 == j by {
                    if i == row && j == col {
                        assert(obj.active_particles@[prev.len() as int] == (row, col));
                    } else {
                        let k = choose|k: int|
                            0 <= k < prev.len() && prev[k].0 == i && prev[k].1 == j;
                        assert(obj.active_particles@[k] == prev[k]);
                    }
                }
            }
            col = col + 1;
        }
        row = row + 1;
    }
    assert forall|i: int, j: int| #[trigger] alive_at(g, i, j) implies exists|k: int|
        0 <= k < obj.active_particles@.len() && obj.active_particles@[k].0 == i
            && obj.active_particles@[k].1 == j by {
        assert(i < row);
    }
    obj
}

/// The side of a cell, in display units.
pub const CELL_SIZE: usize = 5;

/// The width of the display area, in display units.
pub const WIDTH: usize = 1200;

/// The height of the display area, in display units.
pub const HEIGHT: usize = 800;

/// The number of columns of the simulated grid.
pub const GRID_COLS: usize = WIDTH / CELL_SIZE;

/// The number of rows of the simulated grid.
pub const GRID_ROWS: usize = HEIGHT / CELL_SIZE;

/// Why an operation on the simulation was refused.
#[derive(Debug, Clone, Copy, PartialEq, Eq, Structural)]
pub enum SimError {
    /// The grid has not been created yet.
    NotInitialized,
    /// The grid exists already; it is left as it is.
    AlreadyInitialized,
    /// The coordinate lies outside the grid.
    OutOfBounds { row: usize, col: usize },
}

/// Two equally sized buffers of cells, `current` and `next`, and a buffer of
/// neighbour counts, all allocated once.
pub struct GridStore {
    rows: usize,
    cols: usize,
    current: Vec<Vec<bool>>,
    next: Vec<Vec<bool>>,
    counts: Vec<Vec<u8>>,
}

impl GridStore {
    pub closed spec fn rows(&self) -> nat {
        self.rows as nat
    }

    pub closed spec fn cols(&self) -> nat {
        self.cols as nat
    }

    /// The current generation.
    pub closed spec fn cells(&self) -> Seq<Seq<bool>> {
        rows_of(&self.current)
    }

    /// The buffer that the next generation is written into.
    pub closed spec fn spare(&self) -> Seq<Seq<bool>> {
        rows_of(&self.next)
    }

    /// All buffers are `rows` by `cols`.
    pub closed spec fn wf(&self) -> bool {
        &&& is_grid(rows_of(&self.current), self.rows as int, self.cols as int)
        &&& is_grid(rows_of(&self.next), self.rows as int, self.cols as int)
        &&& is_grid(rows_of(&self.counts), self.rows as int, self.cols as int)
    }

    /// A `rows` by `cols` store whose cells are all dead.
    pub fn new(rows: usize, cols: usize) -> (s: GridStore)
        ensures
            s.wf(),
            s.rows() == rows,
            s.cols() == cols,
            is_grid(s.cells(), rows as int, cols as int),
            all_dead(s.cells()),
    {
        GridStore {
            rows,
            cols,
            current: blank_slate(rows, cols),
            next: blank_slate(rows, cols),
            counts: blank_counts(rows, cols),
        }
    }

    /// Marks the cell at `(row, col)` of the current generation alive.
    pub fn set_alive(&mut self, row: usize, col: usize)
        requires
            old(self).wf(),
            row < old(self).rows(),
            col < old(self).cols(),
        ensures
            final(self).wf(),
            final(self).rows() == old(self).rows(),
            final(self).cols() == old(self).cols(),
            final(self).spare() == old(self).spare(),
            final(self).cells() == old(self).cells().update(
                row as int,
                old(self).cells()[row as int].update(col as int, true),
            ),
    {
        let ghost prev = rows_of(&self.current);
        assert(self.current@[row as int]@ == prev[row as int]);
        self.current[row][col] = true;
        assert(rows_of(&self.current) =~= prev.update(
            row as int,
            prev[row as int].update(col as int, true),
        ));
    }

    /// Exchanges the roles of the two cell buffers, copying no cell.
    pub fn swap_buffers(&mut self)
        requires
            old(self).wf(),
        ensures
            final(self).wf(),
            final(self).rows() == old(self).rows(),
            final(self).cols() == old(self).cols(),
            final(self).cells() == old(self).spare(),
            final(self).spare() == old(self).cells(),
    {
        std::mem::swap(&mut self.current, &mut self.next);
    }

    /// Advances the current generation by one.
    pub fn advance(&mut self)
        requires
            old(self).wf(),
        ensures
            final(self).wf(),
            final(self).rows() == old(self).rows(),
            final(self).cols() == old(self).cols(),
            final(self).cells() == next_generation(old(self).cells()),
    {
        update_neighbor_counts(&self.current, &mut self.counts, self.cols);
        eval_next(&self.current, &self.counts, &mut self.next, self.cols);
        self.swap_buffers();
    }

    /// The dimensions and the live cells of the current generation.
    pub fn snapshot(&self) -> (o: JObject)
        requires
            self.wf(),
        ensures
            o.rows == self.rows(),
            o.cols == self.cols(),
            is_live_list(self.cells(), o.active_particles@),
    {
        create_json_object(&self.current, self.rows, self.cols)
    }
}

/// The one simulation that a host drives: nothing until it is initialized,
/// then a grid store of fixed dimensions.
pub struct Simulation {
    store: Option<GridStore>,
}

impl Simulation {
    pub closed spec fn initialized(&self) -> bool {
        self.store is Some
    }

    /// The number of rows; zero before initialization.
    pub closed spec fn rows(&self) -> nat {
        match self.store {
            Some(s) => s.rows(),
            None => 0,
        }
    }

    /// The number of columns; zero before initialization.
    pub closed spec fn cols(&self) -> nat {
        match self.store {
            Some(s) => s.cols(),
            None => 0,
        }
    }

    /// The current generation; empty before initialization.
    pub closed spec fn cells(&self) -> Seq<Seq<bool>> {
        match self.store {
            Some(s) => s.cells(),
            None => Seq::empty(),
        }
    }

    pub closed spec fn wf(&self) -> bool {
        match self.store {
            Some(s) => s.wf(),
            None => true,
        }
    }

    /// A simulation that has not been initialized.
    pub fn new() -> (sim: Simulation)
        ensures
            sim.wf(),
            !sim.initialized(),
    {
        Simulation { store: None }
    }

    /// Creates the two `rows` by `cols` buffers, all cells dead. A second call
    /// fails with `AlreadyInitialized` and leaves the running simulation as
    /// it is.
    pub fn initialize(&mut self, rows: usize, cols: usize) -> (r: Result<(), SimError>)
        requires
            old(self).wf(),
        ensures
            final(self).wf(),
            old(self).initialized() ==> r == Err::<(), SimError>(SimError::AlreadyInitialized)
                && *final(self) == *old(self),
            !old(self).initialized() ==> r is Ok && final(self).initialized()
                && final(self).rows() == rows && final(self).cols() == cols
                && is_grid(final(self).cells(), rows as int, cols as int)
                && all_dead(final(self).cells()),
    {
        if self.store.is_some() {
            return Err(SimError::AlreadyInitialized);
        }
        self.store = Some(GridStore::new(rows, cols));
        Ok(())
    }
}

/// `r` is what a query of `sim` reports: the dimensions and the live cells of
/// the current generation, or `NotInitialized`.
pub open spec fn reports(sim: Simulation, r: Result<JObject, SimError>) -> bool {
    if sim.initialized() {
        &&& r is Ok
        &&& r->Ok_0.rows == sim.rows()
        &&& r->Ok_0.cols == sim.cols()
        &&& is_live_list(sim.cells(), r->Ok_0.active_particles@)
    } else {
        r == Err::<JObject, SimError>(SimError::NotInitialized)
    }
}

/// Initializes `sim` at the fixed configuration: a display area of
/// `WIDTH` by `HEIGHT` units at `CELL_SIZE` units per cell.
pub fn wasm_bridge_init(sim: &mut Simulation) -> (r: Result<(), SimError>)
    requires
        old(sim).wf(),
    ensures
        final(sim).wf(),
        old(sim).initialized() ==> r == Err::<(), SimError>(SimError::AlreadyInitialized)
            && *final(sim) == *old(sim),
        !old(sim).initialized() ==> r is Ok && final(sim).initialized()
            && final(sim).rows() == GRID_ROWS && final(sim).cols() == GRID_COLS
            && is_grid(final(sim).cells(), GRID_ROWS as int, GRID_COLS as int)
            && all_dead(final(sim).cells()),
{
    sim.initialize(GRID_ROWS, GRID_COLS)
}

/// The dimensions and the live cells of the current generation; the
/// simulation is not changed.
pub fn get_current_state(sim: &Simulation) -> (r: Result<JObject, SimError>)
    requires
        sim.wf(),
    ensures
        reports(*sim, r),
{
    match &sim.store {
        Some(store) => Ok(store.snapshot()),
        None => Err(SimError::NotInitialized),
    }
}

/// Marks the cell at `(row, col)` alive. Before initialization this fails
/// with `NotInitialized`, and outside the grid with `OutOfBounds`; a call that
/// fails changes nothing.
pub fn add_cell(sim: &mut Simulation, row: usize, col: usize) -> (r: Result<(), SimError>)
    requires
        old(sim).wf(),
    ensures
        final(sim).wf(),
        final(sim).initialized() == old(sim).initialized(),
        final(sim).rows() == old(sim).rows(),
        final(sim).cols() == old(sim).cols(),
        !old(sim).initialized() ==> r == Err::<(), SimError>(SimError::NotInitialized)
            && *final(sim) == *old(sim),
        old(sim).initialized() && (row >= old(sim).rows() || col >= old(sim).cols()) ==> r
            == Err::<(), SimError>(SimError::OutOfBounds { row, col }) && *final(sim) == *old(sim),
        old(sim).initialized() && row < old(sim).rows() && col < old(sim).cols() ==> r is Ok
            && final(sim).cells() == old(sim).cells().update(
            row as int,
            old(sim).cells()[row as int].update(col as int, true),
        ),
{
    match &mut sim.store {
        Some(store) => {
            if row < store.rows && col < store.cols {
                store.set_alive(row, col);
                Ok(())
            } else {
                Err(SimError::OutOfBounds { row, col })
            }
        },
        None => Err(SimError::NotInitialized),
    }
}

/// Advances the simulation by one generation and reports the new one. Before
/// initialization this fails with `NotInitialized` and changes nothing.
pub fn wasm_bridge_update(sim: &mut Simulation) -> (r: Result<JObject, SimError>)
    requires
        old(sim).wf(),
    ensures
        final(sim).wf(),
        final(sim).initialized() == old(sim).initialized(),
        final(sim).rows() == old(sim).rows(),
        final(sim).cols() == old(sim).cols(),
        !old(sim).initialized() ==> *final(sim) == *old(sim),
        old(sim).initialized() ==> final(sim).cells() == next_generation(old(sim).cells()),
        reports(*final(sim), r),
{
    match &mut sim.store {
        Some(store) => {
            store.advance();
            Ok(store.snapshot())
        },
        None => Err(SimError::NotInitialized),
    }
}

} // verus!

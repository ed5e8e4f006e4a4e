use vstd::prelude::*;

use crate::rules::{
    alive_at, as_count, cell_lt, is_grid, is_live_list, neighbor_count, next_generation, rows_of,
    rule,
};

verus! {

/// A `rows` by `cols` grid of dead cells.
pub fn blank_slate(rows: usize, cols: usize) -> (g: Vec<Vec<bool>>)
    ensures
        is_grid(rows_of(&g), rows as int, cols as int),
        forall|i: int, j: int| !#[trigger] alive_at(rows_of(&g), i, j),
{
    let mut g: Vec<Vec<bool>> = Vec::new();
    let mut i: usize = 0;
    while i < rows
        invariant
            i <= rows,
            is_grid(rows_of(&g), i as int, cols as int),
            forall|a: int, b: int| !#[trigger] alive_at(rows_of(&g), a, b),
        decreases rows - i,
    {
        let mut row: Vec<bool> = Vec::new();
        let mut j: usize = 0;
        while j < cols
            invariant
                j <= cols,
                row@.len() == j,
                forall|b: int| 0 <= b < j ==> !#[trigger] row@[b],
            decreases cols - j,
        {
            row.push(false);
            j = j + 1;
        }
        let ghost prev = rows_of(&g);
        g.push(row);
        assert(rows_of(&g) =~= prev.push(row@));
        assert forall|a: int, b: int| !#[trigger] alive_at(rows_of(&g), a, b) by {
            if a < i {
                assert(!alive_at(prev, a, b));
            }
        }
        i = i + 1;
    }
    g
}

/// A zero for every cell of a `rows` by `cols` grid.
pub fn blank_counts(rows: usize, cols: usize) -> (c: Vec<Vec<u8>>)
    ensures
        is_grid(rows_of(&c), rows as int, cols as int),
{
    let mut c: Vec<Vec<u8>> = Vec::new();
    let mut i: usize = 0;
    while i < rows
        invariant
            i <= rows,
            is_grid(rows_of(&c), i as int, cols as int),
        decreases rows - i,
    {
        let mut row: Vec<u8> = Vec::new();
        let mut j: usize = 0;
        while j < cols
            invariant
                j <= cols,
                row@.len() == j,
            decreases cols - j,
        {
            row.push(0);
            j = j + 1;
        }
        let ghost prev = rows_of(&c);
        c.push(row);
        assert(rows_of(&c) =~= prev.push(row@));
        i = i + 1;
    }
    c
}

/// One if the cell at `(i + di - 1, j + dj - 1)` lies inside `g` and is
/// alive, zero if it is dead or outside the grid.
fn neighbor_at(g: &Vec<Vec<bool>>, cols: usize, i: usize, j: usize, di: usize, dj: usize) -> (r: u8)
    requires
        is_grid(rows_of(g), g@.len() as int, cols as int),
        i < g@.len(),
        j < cols,
        di <= 2,
        dj <= 2,
    ensures
        r as nat == as_count(alive_at(rows_of(g), i + di - 1, j + dj - 1)),
{
    if (di == 0 && i == 0) || (di == 2 && i == g.len() - 1) {
        return 0;
    }
    if (dj == 0 && j == 0) || (dj == 2 && j == cols - 1) {
        return 0;
    }
    let ni: usize = if di == 0 { i - 1 } else if di == 1 { i } else { i + 1 };
    let nj: usize = if dj == 0 { j - 1 } else if dj == 1 { j } else { j + 1 };
    assert(rows_of(g)[ni as int] == g@[ni as int]@);
    if g[ni][nj] {
        1
    } else {
        0
    }
}

/// The number of live neighbours of the cell at `(i, j)`.
pub fn count_neighbors(g: &Vec<Vec<bool>>, cols: usize, i: usize, j: usize) -> (n: u8)
    requires
        is_grid(rows_of(g), g@.len() as int, cols as int),
        i < g@.len(),
        j < cols,
    ensures
        n as nat == neighbor_count(rows_of(g), i as int, j as int),
        n <= 8,
{
    neighbor_at(g, cols, i, j, 0, 0) + neighbor_at(g, cols, i, j, 0, 1)
        + neighbor_at(g, cols, i, j, 0, 2) + neighbor_at(g, cols, i, j, 1, 0)
        + neighbor_at(g, cols, i, j, 1, 2) + neighbor_at(g, cols, i, j, 2, 0)
        + neighbor_at(g, cols, i, j, 2, 1) + neighbor_at(g, cols, i, j, 2, 2)
}

/// Records in `counts` the number of live neighbours of every cell of
/// `cells`, as `cells` stands: no count is influenced by another.
pub fn update_neighbor_counts(cells: &Vec<Vec<bool>>, counts: &mut Vec<Vec<u8>>, cols: usize)
    requires
        is_grid(rows_of(cells), cells@.len() as int, cols as int),
        is_grid(rows_of(old(counts)), cells@.len() as int, cols as int),
    ensures
        is_grid(rows_of(final(counts)), cells@.len() as int, cols as int),
        forall|i: int, j: int|
            0 <= i < cells@.len() && 0 <= j < cols ==> #[trigger] rows_of(final(counts))[i][j]
                as nat == neighbor_count(rows_of(cells), i, j),
{
    let rows = cells.len();
    let mut i: usize = 0;
    while i < rows
        invariant
            rows == cells@.len(),
            i <= rows,
            is_grid(rows_of(cells), rows as int, cols as int),
            is_grid(rows_of(counts), rows as int, cols as int),
            forall|a: int, b: int|
                0 <= a < i && 0 <= b < cols ==> #[trigger] rows_of(counts)[a][b] as nat
                    == neighbor_count(rows_of(cells), a, b),
        decreases rows - i,
    {
        let mut j: usize = 0;
        while j < cols
            invariant
                rows == cells@.len(),
                i < rows,
                j <= cols,
                is_grid(rows_of(cells), rows as int, cols as int),
                is_grid(rows_of(counts), rows as int, cols as int),
                forall|a: int, b: int|
                    (0 <= a < i && 0 <= b < cols) || (a == i && 0 <= b < j)
                        ==> #[trigger] rows_of(counts)[a][b] as nat
                        == neighbor_count(rows_of(cells), a, b),
            decreases cols - j,
        {
            let n = count_neighbors(cells, cols, i, j);
            let ghost prev = rows_of(counts);
            assert(counts@[i as int]@ == prev[i as int]);
            counts[i][j] = n;
            assert(rows_of(counts) =~= prev.update(i as int, prev[i as int].update(j as int, n)));
            j = j + 1;
        }
        i = i + 1;
    }
}

/// Writes into `next` the generation that follows `cells`, given in
/// `counts` the number of live neighbours of each of its cells.
pub fn eval_next(cells: &Vec<Vec<bool>>, counts: &Vec<Vec<u8>>, next: &mut Vec<Vec<bool>>, cols: usize)
    requires
        is_grid(rows_of(cells), cells@.len() as int, cols as int),
        is_grid(rows_of(counts), cells@.len() as int, cols as int),
        is_grid(rows_of(old(next)), cells@.len() as int, cols as int),
        forall|i: int, j: int|
            0 <= i < cells@.len() && 0 <= j < cols ==> #[trigger] rows_of(counts)[i][j] as nat
                == neighbor_count(rows_of(cells), i, j),
    ensures
        rows_of(final(next)) == next_generation(rows_of(cells)),
{
    let rows = cells.len();
    let ghost g = rows_of(cells);
    let mut i: usize = 0;
    while i < rows
        invariant
            rows == cells@.len(),
            i <= rows,
            g == rows_of(cells),
            is_grid(g, rows as int, cols as int),
            is_grid(rows_of(counts), rows as int, cols as int),
            is_grid(rows_of(next), rows as int, cols as int),
            forall|a: int, b: int|
                0 <= a < rows && 0 <= b < cols ==> #[trigger] rows_of(counts)[a][b] as nat
                    == neighbor_count(g, a, b),
            forall|a: int, b: int|
                0 <= a < i && 0 <= b < cols ==> #[trigger] rows_of(next)[a][b]
                    == rule(g[a][b], neighbor_count(g, a, b)),
        decreases rows - i,
    {
        let mut j: usize = 0;
        while j < cols
            invariant
                rows == cells@.len(),
                i < rows,
                j <= cols,
                g == rows_of(cells),
                is_grid(g, rows as int, cols as int),
                is_grid(rows_of(counts), rows as int, cols as int),
                is_grid(rows_of(next), rows as int, cols as int),
                forall|a: int, b: int|
                    0 <= a < rows && 0 <= b < cols ==> #[trigger] rows_of(counts)[a][b] as nat
                        == neighbor_count(g, a, b),
                forall|a: int, b: int|
                    (0 <= a < i && 0 <= b < cols) || (a == i && 0 <= b < j)
                        ==> #[trigger] rows_of(next)[a][b]
                        == rule(g[a][b], neighbor_count(g, a, b)),
            decreases cols - j,
        {
            assert(rows_of(counts)[i as int] == counts@[i as int]@);
            assert(g[i as int] == cells@[i as int]@);
            let n = counts[i][j];
            let alive = cells[i][j];
            let v = if alive {
                n == 2 || n == 3
            } else {
                n == 3
            };
            let ghost prev = rows_of(next);
            assert(next@[i as int]@ == prev[i as int]);
            next[i][j] = v;
            assert(rows_of(next) =~= prev.update(i as int, prev[i as int].update(j as int, v)));
            j = j + 1;
        }
        i = i + 1;
    }
    assert(rows_of(next) =~~= next_generation(g));
}

} // verus!

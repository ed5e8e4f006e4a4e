use vstd::prelude::*;

verus! {

/// The mathematical content of a nested vector: one sequence per row.
pub open spec fn rows_of<T>(v: &Vec<Vec<T>>) -> Seq<Seq<T>> {
    v@.map_values(|r: Vec<T>| r@)
}

/// `g` is a rectangle of `rows` rows, each `cols` cells wide.
pub open spec fn is_grid<T>(g: Seq<Seq<T>>, rows: int, cols: int) -> bool {
    &&& g.len() == rows
    &&& forall|i: int| 0 <= i < rows ==> #[trigger] g[i].len() == cols
}

/// Whether the cell at `(i, j)` of `g` exists and is alive; a position
/// outside the grid is absent, never wrapped round to the opposite edge.
pub open spec fn alive_at(g: Seq<Seq<bool>>, i: int, j: int) -> bool {
    0 <= i < g.len() && 0 <= j < g[i].len() && g[i][j]
}

/// One for a live cell, zero otherwise.
pub open spec fn as_count(b: bool) -> nat {
    if b { 1 } else { 0 }
}

/// The number of live cells among the eight around `(i, j)`.
pub open spec fn neighbor_count(g: Seq<Seq<bool>>, i: int, j: int) -> nat {
    as_count(alive_at(g, i - 1, j - 1)) + as_count(alive_at(g, i - 1, j))
        + as_count(alive_at(g, i - 1, j + 1)) + as_count(alive_at(g, i, j - 1))
        + as_count(alive_at(g, i, j + 1)) + as_count(alive_at(g, i + 1, j - 1))
        + as_count(alive_at(g, i + 1, j)) + as_count(alive_at(g, i + 1, j + 1))
}

/// The state of a cell in the next generation: a live cell survives with two
/// or three live neighbours, a dead one is born with exactly three.
pub open spec fn rule(alive: bool, n: nat) -> bool {
    if alive {
        n == 2 || n == 3
    } else {
        n == 3
    }
}

/// The generation that follows `g`, every cell computed from `g` alone.
pub open spec fn next_generation(g: Seq<Seq<bool>>) -> Seq<Seq<bool>> {
    Seq::new(
        g.len(),
        |i: int| Seq::new(g[i].len(), |j: int| rule(g[i][j], neighbor_count(g, i, j))),
    )
}

/// Row-major order on coordinates: by row, then by column.
pub open spec fn cell_lt(a: (usize, usize), b: (usize, usize)) -> bool {
    a.0 < b.0 || (a.0 == b.0 && a.1 < b.1)
}

/// `s` lists exactly the live cells of `g`, each once, in ascending
/// (row, then column) order.
pub open spec fn is_live_list(g: Seq<Seq<bool>>, s: Seq<(usize, usize)>) -> bool {
    &&& forall|k: int| 0 <= k < s.len() ==> alive_at(g, #[trigger] s[k].0 as int, s[k].1 as int)
    &&& forall|i: int, j: int|
        #[trigger] alive_at(g, i, j) ==> exists|k: int|
            0 <= k < s.len() && s[k].0 == i && s[k].1 == j
    &&& forall|a: int, b: int| 0 <= a < b < s.len() ==> cell_lt(#[trigger] s[a], #[trigger] s[b])
}

/// `g` holds no live cell.
pub open spec fn all_dead(g: Seq<Seq<bool>>) -> bool {
    forall|i: int, j: int| !#[trigger] alive_at(g, i, j)
}

} // verus!

use vstd::prelude::*;

use crate::rules::{
    all_dead, alive_at, as_count, cell_lt, is_live_list, neighbor_count, next_generation,
};
use crate::sim::{reports, JObject, SimError, Simulation};

verus! {

/// Two lists of the live cells of one grid agree on their first `n` entries.
proof fn lemma_live_lists_agree_upto(
    g: Seq<Seq<bool>>,
    s1: Seq<(usize, usize)>,
    s2: Seq<(usize, usize)>,
    n: int,
)
    requires
        is_live_list(g, s1),
        is_live_list(g, s2),
        0 <= n <= s1.len(),
        n <= s2.len(),
    ensures
        forall|k: int| 0 <= k < n ==> s1[k] == s2[k],
    decreases n,
{
    if n > 0 {
        lemma_live_lists_agree_upto(g, s1, s2, n - 1);
        let x = s1[n - 1];
        let y = s2[n - 1];
        assert(alive_at(g, x.0 as int, x.1 as int));
        assert(alive_at(g, y.0 as int, y.1 as int));
        let m = choose|m: int| 0 <= m < s2.len() && s2[m].0 == x.0 && s2[m].1 == x.1;
        let p = choose|p: int| 0 <= p < s1.len() && s1[p].0 == y.0 && s1[p].1 == y.1;
        if m < n - 1 {
            assert(s1[m] == s2[m]);
            assert(cell_lt(s1[m], s1[n - 1]));
        } else if p < n - 1 {
            assert(s1[p] == s2[p]);
            assert(cell_lt(s2[p], s2[n - 1]));
        } else if m > n - 1 && p > n - 1 {
            assert(cell_lt(s2[n - 1], s2[m]));
            assert(cell_lt(s1[n - 1], s1[p]));
        }
    }
}

/// The live cells of a grid have only one list in ascending order.
pub proof fn lemma_live_list_unique(g: Seq<Seq<bool>>, s1: Seq<(usize, usize)>, s2: Seq<(usize, usize)>)
    requires
        is_live_list(g, s1),
        is_live_list(g, s2),
    ensures
        s1 == s2,
{
    if s1.len() < s2.len() {
        lemma_live_lists_agree_upto(g, s1, s2, s1.len() as int);
        let y = s2[s1.len() as int];
        assert(alive_at(g, y.0 as int, y.1 as int));
        let m = choose|m: int| 0 <= m < s1.len() && s1[m].0 == y.0 && s1[m].1 == y.1;
        assert(cell_lt(s2[m], s2[s1.len() as int]));
    } else if s2.len() < s1.len() {
        lemma_live_lists_agree_upto(g, s2, s1, s2.len() as int);
        let y = s1[s2.len() as int];
        assert(alive_at(g, y.0 as int, y.1 as int));
        let m = choose|m: int| 0 <= m < s2.len() && s2[m].0 == y.0 && s2[m].1 == y.1;
        assert(cell_lt(s1[m], s1[s2.len() as int]));
    } else {
        lemma_live_lists_agree_upto(g, s1, s2, s1.len() as int);
    }
    assert(s1 =~= s2);
}

/// A grid with no live cell stays empty: no cell is born from nothing, and
/// the next generation reports no live cell.
pub proof fn lemma_empty_grid_stays_empty(g: Seq<Seq<bool>>, s: Seq<(usize, usize)>)
    requires
        all_dead(g),
        is_live_list(next_generation(g), s),
    ensures
        all_dead(next_generation(g)),
        s.len() == 0,
{
    let h = next_generation(g);
    assert forall|i: int, j: int| !#[trigger] alive_at(h, i, j) by {
        if 0 <= i < h.len() && 0 <= j < h[i].len() {
            assert(!alive_at(g, i, j));
            assert(!alive_at(g, i - 1, j - 1) && !alive_at(g, i - 1, j) && !alive_at(g, i - 1, j + 1));
            assert(!alive_at(g, i, j - 1) && !alive_at(g, i, j + 1));
            assert(!alive_at(g, i + 1, j - 1) && !alive_at(g, i + 1, j) && !alive_at(g, i + 1, j + 1));
        }
    }
    if s.len() > 0 {
        assert(alive_at(h, s[0].0 as int, s[0].1 as int));
    }
}

/// A cell with no live neighbour is dead in the next generation.
pub proof fn lemma_isolated_cell_dies(g: Seq<Seq<bool>>, i: int, j: int)
    requires
        0 <= i < g.len(),
        0 <= j < g[i].len(),
        neighbor_count(g, i, j) == 0,
    ensures
        !next_generation(g)[i][j],
{
}

/// The corner cell `(0, 0)` has three candidate neighbours, `(0, 1)`,
/// `(1, 0)` and `(1, 1)`: nothing beyond an edge is counted, nor wrapped
/// round to the opposite edge.
pub proof fn lemma_corner_neighbors(g: Seq<Seq<bool>>)
    ensures
        neighbor_count(g, 0, 0) == as_count(alive_at(g, 0, 1)) + as_count(alive_at(g, 1, 0))
            + as_count(alive_at(g, 1, 1)),
        neighbor_count(g, 0, 0) <= 3,
{
}

/// Two queries of one simulation, with no step or seed between them, report
/// the same thing.
pub proof fn lemma_query_idempotent(
    sim: Simulation,
    r1: Result<JObject, SimError>,
    r2: Result<JObject, SimError>,
)
    requires
        reports(sim, r1),
        reports(sim, r2),
    ensures
        r1 is Ok <==> r2 is Ok,
        r1 is Err ==> r1 == r2,
        r1 is Ok ==> r1->Ok_0.rows == r2->Ok_0.rows && r1->Ok_0.cols == r2->Ok_0.cols
            && r1->Ok_0.active_particles@ == r2->Ok_0.active_particles@,
{
    if sim.initialized() {
        lemma_live_list_unique(
            sim.cells(),
            r1->Ok_0.active_particles@,
            r2->Ok_0.active_particles@,
        );
    }
}

} // verus!

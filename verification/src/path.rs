//! Shortest-path search over a floor's grid.
//!
//! The grid is read as a graph: every cell is a node, and there is a unit
//! edge to each of the four orthogonal neighbours that a step may land on
//! (`spec_exit_valid`: in the playfield border, not blocked, not an armed
//! trap). A breadth-first search either returns a path of minimal length
//! or reports that the goal cannot be reached at all; both facts are part
//! of its contract, and the generator's connectivity guarantee rests on
//! them.

use vstd::prelude::*;

use crate::grid::{lemma_xy_idx_injective, spec_xy_idx, xy_idx};
use crate::location::{lemma_cell_idx, WorldLocation};
use vstd::seq_lib::*;
use vstd::set_lib::*;

verus! {

/// The two cells are orthogonal neighbours.
pub open spec fn spec_adjacent(a: (int, int), b: (int, int)) -> bool {
    ||| (b.0 == a.0 + 1 && b.1 == a.1)
    ||| (b.0 == a.0 - 1 && b.1 == a.1)
    ||| (b.0 == a.0 && b.1 == a.1 + 1)
    ||| (b.0 == a.0 && b.1 == a.1 - 1)
}

/// A walker standing on `a` may step onto `b`.
pub open spec fn spec_step_ok(loc: WorldLocation, a: (int, int), b: (int, int)) -> bool {
    spec_adjacent(a, b) && loc.spec_exit_valid(b.0, b.1)
}

/// `p` is a walkable route from `from` to `to`: it starts at `from`, ends
/// at `to`, and every move is one valid orthogonal step.
pub open spec fn spec_is_path(
    loc: WorldLocation,
    p: Seq<(int, int)>,
    from: (int, int),
    to: (int, int),
) -> bool {
    &&& p.len() >= 1
    &&& p[0] == from
    &&& p[p.len() - 1] == to
    &&& forall|i: int| 0 <= i < p.len() - 1 ==> spec_step_ok(loc, #[trigger] p[i], p[i + 1])
}

/// `p` is a walkable route from `from` to `to` that no walkable route
/// undercuts.
pub open spec fn spec_is_shortest_path(
    loc: WorldLocation,
    p: Seq<(int, int)>,
    from: (int, int),
    to: (int, int),
) -> bool {
    spec_is_path(loc, p, from, to) && forall|q: Seq<(int, int)>|
        spec_is_path(loc, q, from, to) ==> q.len() >= p.len()
}

/// The cell at position `j` of a cell sequence, as a pair of mathematical
/// integers.
pub open spec fn qv(q: Seq<(i32, i32)>, j: int) -> (int, int) {
    (q[j].0 as int, q[j].1 as int)
}

/// A whole cell sequence, as mathematical pairs.
pub open spec fn path_view(q: Seq<(i32, i32)>) -> Seq<(int, int)> {
    Seq::new(q.len(), |j: int| qv(q, j))
}

/// The cell lies on the grid.
pub open spec fn cell_ok(loc: WorldLocation, c: (int, int)) -> bool {
    0 <= c.0 < loc.width && 0 <= c.1 < loc.height
}

/// Flat index of the cell.
pub open spec fn cid(loc: WorldLocation, c: (int, int)) -> int {
    spec_xy_idx(c.0, c.1, loc.width as int)
}

/// The search has assigned the cell a distance (`u32::MAX` is the
/// not-yet-seen sentinel).
pub open spec fn discovered(loc: WorldLocation, dist: Seq<u32>, c: (int, int)) -> bool {
    cell_ok(loc, c) && dist[cid(loc, c)] != u32::MAX
}

/// Every queue entry is a grid cell, already discovered, and its distance
/// is at most its queue position (so distances stay far below `u32::MAX`).
pub open spec fn inv_queue(loc: WorldLocation, dist: Seq<u32>, q: Seq<(i32, i32)>) -> bool {
    forall|j: int|
        0 <= j < q.len() ==> cell_ok(loc, #[trigger] qv(q, j)) && discovered(loc, dist, qv(q, j))
            && dist[cid(loc, qv(q, j))] as int <= j
}

/// No cell is queued twice.
pub open spec fn inv_nodup(q: Seq<(i32, i32)>) -> bool {
    forall|j: int, k: int|
        #![trigger qv(q, j), qv(q, k)]
        0 <= j < k < q.len() ==> qv(q, j) != qv(q, k)
}

/// `c` appears somewhere in the queue.
pub open spec fn in_queue(q: Seq<(i32, i32)>, c: (int, int)) -> bool {
    exists|j: int| 0 <= j < q.len() && qv(q, j) == c
}

/// Every discovered cell has been queued.
pub open spec fn inv_in_queue(loc: WorldLocation, dist: Seq<u32>, q: Seq<(i32, i32)>) -> bool {
    forall|c: (int, int)| #[trigger] discovered(loc, dist, c) ==> in_queue(q, c)
}

/// The recorded predecessor of `c` is discovered, one valid step before
/// `c`, and one unit closer to the start.
pub open spec fn parent_ok(
    loc: WorldLocation,
    dist: Seq<u32>,
    parent: Seq<(i32, i32)>,
    c: (int, int),
) -> bool {
    let pc = (parent[cid(loc, c)].0 as int, parent[cid(loc, c)].1 as int);
    &&& discovered(loc, dist, pc)
    &&& spec_step_ok(loc, pc, c)
    &&& dist[cid(loc, pc)] as int + 1 == dist[cid(loc, c)] as int
}

/// Every discovered cell except the start has a valid predecessor chain.
pub open spec fn inv_parent(
    loc: WorldLocation,
    dist: Seq<u32>,
    parent: Seq<(i32, i32)>,
    from: (int, int),
) -> bool {
    forall|c: (int, int)|
        #[trigger] discovered(loc, dist, c) && c != from ==> parent_ok(loc, dist, parent, c)
}

/// Queue distances never decrease along the queue.
pub open spec fn inv_sorted(loc: WorldLocation, dist: Seq<u32>, q: Seq<(i32, i32)>) -> bool {
    forall|j: int, k: int|
        #![trigger qv(q, j), qv(q, k)]
        0 <= j <= k < q.len() ==> dist[cid(loc, qv(q, j))] as int <= dist[cid(loc, qv(q, k))] as int
}

/// No queued distance exceeds the front distance by more than one.
pub open spec fn inv_tail(
    loc: WorldLocation,
    dist: Seq<u32>,
    q: Seq<(i32, i32)>,
    head: int,
) -> bool {
    0 <= head < q.len() ==> forall|j: int|
        0 <= j < q.len() ==> dist[cid(loc, #[trigger] qv(q, j))] as int <= dist[cid(
            loc,
            qv(q, head),
        )] as int + 1
}

/// Every valid step out of queue entry `j` reaches a discovered cell at
/// most one unit further out.
pub open spec fn processed(
    loc: WorldLocation,
    dist: Seq<u32>,
    q: Seq<(i32, i32)>,
    j: int,
) -> bool {
    forall|c2: (int, int)|
        #[trigger] spec_step_ok(loc, qv(q, j), c2) ==> discovered(loc, dist, c2) && dist[cid(
            loc,
            c2,
        )] as int <= dist[cid(loc, qv(q, j))] as int + 1
}

/// All queue entries before `head` have had their neighbours expanded.
pub open spec fn inv_processed(
    loc: WorldLocation,
    dist: Seq<u32>,
    q: Seq<(i32, i32)>,
    head: int,
) -> bool {
    forall|j: int| 0 <= j < head ==> #[trigger] processed(loc, dist, q, j)
}

/// The whole breadth-first-search invariant.
pub open spec fn bfs_inv(
    loc: WorldLocation,
    dist: Seq<u32>,
    parent: Seq<(i32, i32)>,
    q: Seq<(i32, i32)>,
    head: int,
    from: (int, int),
) -> bool {
    &&& loc.wf()
    &&& dist.len() == loc.width * loc.height
    &&& parent.len() == loc.width * loc.height
    &&& 0 <= head <= q.len()
    &&& cell_ok(loc, from)
    &&& q.len() >= 1
    &&& qv(q, 0) == from
    &&& dist[cid(loc, from)] == 0
    &&& inv_queue(loc, dist, q)
    &&& inv_nodup(q)
    &&& inv_in_queue(loc, dist, q)
    &&& inv_parent(loc, dist, parent, from)
    &&& inv_sorted(loc, dist, q)
    &&& inv_tail(loc, dist, q, head)
    &&& inv_processed(loc, dist, q, head)
}

/// A duplicate-free sequence of grid cells cannot be longer than the grid
/// has cells.
proof fn lemma_queue_bound(loc: WorldLocation, q: Seq<(i32, i32)>)
    requires
        loc.wf(),
        forall|j: int| 0 <= j < q.len() ==> cell_ok(loc, #[trigger] qv(q, j)),
        inv_nodup(q),
    ensures
        q.len() <= loc.width * loc.height,
{
    broadcast use vstd::seq_lib::seq_to_set_is_finite;
    broadcast use vstd::set::group_set_axioms;

    let w = loc.width as int;
    let h = loc.height as int;
    let ids = Seq::new(q.len(), |j: int| cid(loc, qv(q, j)));
    assert forall|j: int, k: int| 0 <= j < k < ids.len() implies ids[j] != ids[k] by {
        if ids[j] == ids[k] {
            lemma_xy_idx_injective(qv(q, j).0, qv(q, j).1, qv(q, k).0, qv(q, k).1, w, h);
        }
    }
    assert(ids.no_duplicates());
    ids.unique_seq_to_set();
    assert forall|x: int| ids.to_set().contains(x) implies set_int_range(0, w * h).contains(x) by {
        let j = choose|j: int| 0 <= j < ids.len() && ids[j] == x;
        lemma_cell_idx(w, h, qv(q, j).0, qv(q, j).1);
    }
    lemma_int_range(0, w * h);
    lemma_len_subset(ids.to_set(), set_int_range(0, w * h));
}

/// Any walkable route is at least as long as the distance the finished
/// search assigned to its endpoint: induction along the route, using the
/// closure fact that each expansion step grows a distance by at most one.
proof fn lemma_path_dist_bound(
    loc: WorldLocation,
    dist: Seq<u32>,
    p: Seq<(int, int)>,
    from: (int, int),
    to: (int, int),
)
    requires
        loc.wf(),
        cell_ok(loc, from),
        discovered(loc, dist, from),
        dist[cid(loc, from)] == 0,
        forall|c: (int, int), c2: (int, int)|
            #[trigger] discovered(loc, dist, c) && #[trigger] spec_step_ok(loc, c, c2)
                ==> discovered(loc, dist, c2) && dist[cid(loc, c2)] as int <= dist[cid(loc, c)]
                as int + 1,
        spec_is_path(loc, p, from, to),
    ensures
        discovered(loc, dist, to),
        dist[cid(loc, to)] as int <= p.len() - 1,
    decreases p.len(),
{
    if p.len() == 1 {
        assert(to == from);
    } else {
        let prev = p[p.len() - 2];
        let p2 = p.drop_last();
        assert(p2.len() == p.len() - 1);
        assert(p2[p2.len() - 1] == prev);
        assert(forall|i: int| 0 <= i < p2.len() - 1 ==> spec_step_ok(loc, #[trigger] p2[i], p2[i + 1]))
            by {
            assert forall|i: int| 0 <= i < p2.len() - 1 implies spec_step_ok(
                loc,
                #[trigger] p2[i],
                p2[i + 1],
            ) by {
                assert(p2[i] == p[i] && p2[i + 1] == p[i + 1]);
                assert(spec_step_ok(loc, p[i], p[i + 1]));
            }
        }
        lemma_path_dist_bound(loc, dist, p2, from, prev);
        assert(spec_step_ok(loc, prev, to)) by {
            assert(spec_step_ok(loc, p[p.len() - 2], p[p.len() - 2 + 1]));
        }
    }
}

/// Expand one neighbour `(nx, ny)` of the front cell `u`: if a step may
/// land there and it has not been seen yet, record its distance and
/// predecessor and queue it. All search invariants are preserved, already
/// assigned distances never change, and afterwards the neighbour is
/// discovered at most one unit beyond `u` whenever the step is valid.
#[verifier::rlimit(100)]
fn bfs_visit(
    loc: &WorldLocation,
    dist: &mut Vec<u32>,
    parent: &mut Vec<(i32, i32)>,
    queue: &mut Vec<(i32, i32)>,
    head: usize,
    u: (i32, i32),
    du: u32,
    nx: i32,
    ny: i32,
    from: (i32, i32),
)
    requires
        bfs_inv(
            *loc,
            old(dist)@,
            old(parent)@,
            old(queue)@,
            head as int,
            (from.0 as int, from.1 as int),
        ),
        head < old(queue)@.len(),
        qv(old(queue)@, head as int) == (u.0 as int, u.1 as int),
        du == old(dist)@[cid(*loc, (u.0 as int, u.1 as int))],
        spec_adjacent((u.0 as int, u.1 as int), (nx as int, ny as int)),
    ensures
        bfs_inv(
            *loc,
            final(dist)@,
            final(parent)@,
            final(queue)@,
            head as int,
            (from.0 as int, from.1 as int),
        ),
        final(dist)@.len() == old(dist)@.len(),
        old(queue)@.len() <= final(queue)@.len(),
        forall|j: int| 0 <= j < old(queue)@.len() ==> final(queue)@[j] == #[trigger] old(queue)@[j],
        forall|c: (int, int)|
            #[trigger] discovered(*loc, old(dist)@, c) ==> discovered(*loc, final(dist)@, c)
                && final(dist)@[cid(*loc, c)] == old(dist)@[cid(*loc, c)],
        spec_step_ok(*loc, (u.0 as int, u.1 as int), (nx as int, ny as int)) ==> discovered(
            *loc,
            final(dist)@,
            (nx as int, ny as int),
        ) && final(dist)@[cid(*loc, (nx as int, ny as int))] as int <= du + 1,
{
    let ghost uc: (int, int) = (u.0 as int, u.1 as int);
    let ghost nc: (int, int) = (nx as int, ny as int);
    let ghost fc: (int, int) = (from.0 as int, from.1 as int);
    let ghost w = loc.width as int;
    let ghost h = loc.height as int;
    proof {
        lemma_queue_bound(*loc, queue@);
    }
    if !loc.is_exit_valid(nx, ny) {
        return ;
    }
    proof {
        lemma_cell_idx(w, h, nc.0, nc.1);
    }
    let ni = xy_idx(nx, ny, loc.width);
    if dist[ni] != u32::MAX {
        // Already discovered: its distance is bounded through the queue
        // ordering invariants.
        proof {
            assert(discovered(*loc, dist@, nc));
            let j = choose|j: int| 0 <= j < queue@.len() && qv(queue@, j) == nc;
            assert(dist@[cid(*loc, qv(queue@, j))] as int <= dist@[cid(*loc, qv(queue@, head as int))] as int + 1);
        }
        return ;
    }
    // Fresh cell: assign distance, record the predecessor, enqueue.
    proof {
        assert(du as int <= head as int);
        assert((head as int) < queue@.len());
        assert(queue@.len() <= w * h <= 0x100_0000);
    }
    let nd = du + 1;
    dist.set(ni, nd);
    parent.set(ni, u);
    queue.push((nx, ny));
    proof {
        let dist1 = dist@;
        let parent1 = parent@;
        let q1 = queue@;
        let q0 = old(queue)@;
        let dist0 = old(dist)@;
        let newlen = q1.len() - 1;
        assert(q1[newlen] == (nx, ny));
        assert(qv(q1, newlen) == nc);
        // Indices of other valid cells are untouched.
        assert forall|c: (int, int)|
            #![trigger cid(*loc, c)]
            cell_ok(*loc, c) && c != nc implies cid(*loc, c) != cid(*loc, nc) by {
            if cid(*loc, c) == cid(*loc, nc) {
                lemma_xy_idx_injective(c.0, c.1, nc.0, nc.1, w, h);
            }
        }
        assert forall|c: (int, int)| #[trigger] discovered(*loc, dist0, c) implies discovered(
            *loc,
            dist1,
            c,
        ) && dist1[cid(*loc, c)] == dist0[cid(*loc, c)] by {
            assert(c != nc);
            lemma_cell_idx(w, h, c.0, c.1);
            if cid(*loc, c) == cid(*loc, nc) {
                lemma_xy_idx_injective(c.0, c.1, nc.0, nc.1, w, h);
            }
        }
        // Queue entries keep their cells and distances.
        assert(forall|j: int| 0 <= j < q0.len() ==> qv(q1, j) == #[trigger] qv(q0, j));
        // inv_queue
        assert forall|j: int| 0 <= j < q1.len() implies cell_ok(*loc, #[trigger] qv(q1, j))
            && discovered(*loc, dist1, qv(q1, j)) && dist1[cid(*loc, qv(q1, j))] as int <= j by {
            if j < newlen {
                assert(discovered(*loc, dist0, qv(q0, j)));
            } else {
                assert(qv(q1, j) == nc);
                assert(dist1[cid(*loc, nc)] == nd);
            }
        }
        // inv_nodup: the fresh cell was undiscovered, so it was not queued.
        assert forall|j: int, k: int|
            #![trigger qv(q1, j), qv(q1, k)]
            0 <= j < k < q1.len() implies qv(q1, j) != qv(q1, k) by {
            if k < newlen {
                assert(qv(q0, j) != qv(q0, k));
            } else {
                assert(discovered(*loc, dist0, qv(q0, j)));
                assert(!discovered(*loc, dist0, nc));
            }
        }
        // inv_in_queue
        assert forall|c: (int, int)| #[trigger] discovered(*loc, dist1, c) implies in_queue(
            q1,
            c,
        ) by {
            if c == nc {
                assert(qv(q1, newlen) == c);
            } else {
                lemma_cell_idx(w, h, c.0, c.1);
                if cid(*loc, c) == cid(*loc, nc) {
                    lemma_xy_idx_injective(c.0, c.1, nc.0, nc.1, w, h);
                }
                assert(discovered(*loc, dist0, c));
                let j = choose|j: int| 0 <= j < q0.len() && qv(q0, j) == c;
                assert(qv(q1, j) == c);
            }
        }
        // inv_parent
        assert forall|c: (int, int)|
            #[trigger] discovered(*loc, dist1, c) && c != fc implies parent_ok(
            *loc,
            dist1,
            parent1,
            c,
        ) by {
            if c == nc {
                assert(parent1[cid(*loc, nc)] == u);
                assert(discovered(*loc, dist0, uc));
                assert(discovered(*loc, dist1, uc));
                assert(spec_step_ok(*loc, uc, nc));
            } else {
                lemma_cell_idx(w, h, c.0, c.1);
                if cid(*loc, c) == cid(*loc, nc) {
                    lemma_xy_idx_injective(c.0, c.1, nc.0, nc.1, w, h);
                }
                assert(discovered(*loc, dist0, c));
                assert(parent_ok(*loc, dist0, old(parent)@, c));
                let pc = (old(parent)@[cid(*loc, c)].0 as int, old(parent)@[cid(*loc, c)].1 as int);
                assert(discovered(*loc, dist0, pc));
                assert(parent1[cid(*loc, c)] == old(parent)@[cid(*loc, c)]);
            }
        }
        // inv_sorted
        assert forall|j: int, k: int|
            #![trigger qv(q1, j), qv(q1, k)]
            0 <= j <= k < q1.len() implies dist1[cid(*loc, qv(q1, j))] as int <= dist1[cid(
            *loc,
            qv(q1, k),
        )] as int by {
            if k < newlen {
                assert(qv(q0, j) == qv(q1, j) && qv(q0, k) == qv(q1, k));
                assert(dist0[cid(*loc, qv(q0, j))] as int <= dist0[cid(*loc, qv(q0, k))] as int);
                assert(discovered(*loc, dist0, qv(q0, j)) && discovered(*loc, dist0, qv(q0, k)));
            } else if j < k {
                // k is the fresh entry with distance du + 1; the tail bound
                // capped every older entry at du + 1.
                assert(qv(q1, k) == nc);
                assert(discovered(*loc, dist0, qv(q0, j)));
                assert(dist0[cid(*loc, qv(q0, j))] as int <= dist0[cid(
                    *loc,
                    qv(q0, head as int),
                )] as int + 1);
            }
        }
        // inv_tail
        assert forall|j: int| 0 <= j < q1.len() implies dist1[cid(*loc, #[trigger] qv(q1, j))] as int
            <= dist1[cid(*loc, qv(q1, head as int))] as int + 1 by {
            assert(qv(q1, head as int) == qv(q0, head as int));
            assert(discovered(*loc, dist0, qv(q0, head as int)));
            if j < newlen {
                assert(qv(q1, j) == qv(q0, j));
                assert(discovered(*loc, dist0, qv(q0, j)));
                assert(dist0[cid(*loc, qv(q0, j))] as int <= dist0[cid(
                    *loc,
                    qv(q0, head as int),
                )] as int + 1);
            } else {
                assert(qv(q1, j) == nc);
            }
        }
        // inv_processed
        assert forall|j: int| 0 <= j < head as int implies #[trigger] processed(
            *loc,
            dist1,
            q1,
            j,
        ) by {
            assert(processed(*loc, dist0, q0, j));
            assert forall|c2: (int, int)| #[trigger] spec_step_ok(*loc, qv(q1, j), c2) implies
                discovered(*loc, dist1, c2) && dist1[cid(*loc, c2)] as int <= dist1[cid(
                *loc,
                qv(q1, j),
            )] as int + 1 by {
                assert(qv(q1, j) == qv(q0, j));
                assert(spec_step_ok(*loc, qv(q0, j), c2));
                assert(discovered(*loc, dist0, c2));
                assert(discovered(*loc, dist0, qv(q0, j)));
            }
        }
    }
}

/// Once every valid step out of the front cell reaches a discovered cell
/// at most one unit further out, the front counts as processed and may
/// advance; the tail bound for the new front follows from sortedness.
proof fn lemma_advance_head(
    loc: WorldLocation,
    dist: Seq<u32>,
    parent: Seq<(i32, i32)>,
    q: Seq<(i32, i32)>,
    head: int,
    from: (int, int),
)
    requires
        bfs_inv(loc, dist, parent, q, head, from),
        0 <= head < q.len(),
        forall|c2: (int, int)|
            #[trigger] spec_step_ok(loc, qv(q, head), c2) ==> discovered(loc, dist, c2) && dist[cid(
                loc,
                c2,
            )] as int <= dist[cid(loc, qv(q, head))] as int + 1,
    ensures
        bfs_inv(loc, dist, parent, q, head + 1, from),
{
    assert(processed(loc, dist, q, head));
    assert forall|j: int| 0 <= j < head + 1 implies #[trigger] processed(loc, dist, q, j) by {
        if j < head {
            assert(processed(loc, dist, q, j));
        }
    }
    if head + 1 < q.len() {
        assert forall|j: int| 0 <= j < q.len() implies dist[cid(loc, #[trigger] qv(q, j))] as int
            <= dist[cid(loc, qv(q, head + 1))] as int + 1 by {
            assert(dist[cid(loc, qv(q, j))] as int <= dist[cid(loc, qv(q, head))] as int + 1);
            assert(dist[cid(loc, qv(q, head))] as int <= dist[cid(loc, qv(q, head + 1))] as int);
        }
    }
}

/// Breadth-first search from `from` to `to` over the walkable grid.
///
/// On success the returned route is walkable, starts at `from`, ends at
/// `to`, and no walkable route is shorter. On failure no walkable route
/// exists at all.
#[verifier::rlimit(100)]
pub fn find_path(loc: &WorldLocation, from: (i32, i32), to: (i32, i32)) -> (r: Option<
    Vec<(i32, i32)>,
>)
    requires
        loc.wf(),
        0 <= from.0 < loc.width,
        0 <= from.1 < loc.height,
        0 <= to.0 < loc.width,
        0 <= to.1 < loc.height,
    ensures
        r matches Some(p) ==> spec_is_path(
            *loc,
            path_view(p@),
            (from.0 as int, from.1 as int),
            (to.0 as int, to.1 as int),
        ) && forall|q: Seq<(int, int)>|
            spec_is_path(*loc, q, (from.0 as int, from.1 as int), (to.0 as int, to.1 as int))
                ==> q.len() >= p@.len(),
        r is None ==> forall|q: Seq<(int, int)>|
            !spec_is_path(*loc, q, (from.0 as int, from.1 as int), (to.0 as int, to.1 as int)),
{
    let ghost fc: (int, int) = (from.0 as int, from.1 as int);
    let ghost tc: (int, int) = (to.0 as int, to.1 as int);
    let ghost w = loc.width as int;
    let ghost h = loc.height as int;
    proof {
        lemma_cell_idx(w, h, fc.0, fc.1);
        lemma_cell_idx(w, h, tc.0, tc.1);
    }
    let n: usize = (loc.width as usize) * (loc.height as usize);
    let mut dist: Vec<u32> = Vec::new();
    let mut parent: Vec<(i32, i32)> = Vec::new();
    while dist.len() < n
        invariant
            dist@.len() == parent@.len() <= n,
            forall|i: int| 0 <= i < dist@.len() ==> dist@[i] == u32::MAX,
        decreases n - dist@.len(),
    {
        dist.push(u32::MAX);
        parent.push((0, 0));
    }
    let si = xy_idx(from.0, from.1, loc.width);
    dist.set(si, 0);
    let mut queue: Vec<(i32, i32)> = Vec::new();
    queue.push(from);
    proof {
        // The fresh search state satisfies the invariant: only the start
        // is discovered.
        assert(qv(queue@, 0) == fc);
        assert forall|c: (int, int)| #[trigger] discovered(*loc, dist@, c) implies c == fc by {
            lemma_cell_idx(w, h, c.0, c.1);
            if c != fc {
                lemma_xy_idx_injective(c.0, c.1, fc.0, fc.1, w, h);
            }
        }
        assert(bfs_inv(*loc, dist@, parent@, queue@, 0, fc));
    }
    let mut head: usize = 0;
    while head < queue.len()
        invariant
            loc.wf(),
            w == loc.width as int,
            h == loc.height as int,
            fc == (from.0 as int, from.1 as int),
            0 <= from.0 < loc.width,
            0 <= from.1 < loc.height,
            dist@.len() == n == loc.width * loc.height,
            bfs_inv(*loc, dist@, parent@, queue@, head as int, fc),
        decreases n - head,
    {
        proof {
            lemma_queue_bound(*loc, queue@);
        }
        let u = queue[head];
        let ghost uc: (int, int) = (u.0 as int, u.1 as int);
        proof {
            assert(cell_ok(*loc, qv(queue@, head as int)));
            lemma_cell_idx(w, h, uc.0, uc.1);
        }
        let du = dist[xy_idx(u.0, u.1, loc.width)];
        let ghost nc1: (int, int) = (uc.0 + 1, uc.1);
        let ghost nc2: (int, int) = (uc.0 - 1, uc.1);
        let ghost nc3: (int, int) = (uc.0, uc.1 + 1);
        let ghost nc4: (int, int) = (uc.0, uc.1 - 1);
        let ghost d0 = dist@;
        bfs_visit(loc, &mut dist, &mut parent, &mut queue, head, u, du, u.0 + 1, u.1, from);
        let ghost d1 = dist@;
        proof {
            assert(discovered(*loc, d0, uc));
            assert(qv(queue@, head as int) == uc);
            assert(dist@[cid(*loc, uc)] == du);
        }
        bfs_visit(loc, &mut dist, &mut parent, &mut queue, head, u, du, u.0 - 1, u.1, from);
        let ghost d2 = dist@;
        proof {
            assert(discovered(*loc, d1, uc));
            assert(qv(queue@, head as int) == uc);
            assert(dist@[cid(*loc, uc)] == du);
        }
        bfs_visit(loc, &mut dist, &mut parent, &mut queue, head, u, du, u.0, u.1 + 1, from);
        let ghost d3 = dist@;
        proof {
            assert(discovered(*loc, d2, uc));
            assert(qv(queue@, head as int) == uc);
            assert(dist@[cid(*loc, uc)] == du);
        }
        bfs_visit(loc, &mut dist, &mut parent, &mut queue, head, u, du, u.0, u.1 - 1, from);
        proof {
            // All four orthogonal neighbours have been expanded; each
            // stays discovered within one unit of the front's distance.
            assert(discovered(*loc, d3, uc));
            assert(qv(queue@, head as int) == uc);
            assert(dist@[cid(*loc, uc)] == du);
            if spec_step_ok(*loc, uc, nc1) {
                assert(discovered(*loc, d1, nc1) && d1[cid(*loc, nc1)] as int <= du + 1);
                assert(discovered(*loc, d2, nc1));
                assert(discovered(*loc, d3, nc1));
                assert(discovered(*loc, dist@, nc1) && dist@[cid(*loc, nc1)] as int <= du + 1);
            }
            if spec_step_ok(*loc, uc, nc2) {
                assert(discovered(*loc, d2, nc2) && d2[cid(*loc, nc2)] as int <= du + 1);
                assert(discovered(*loc, d3, nc2));
                assert(discovered(*loc, dist@, nc2) && dist@[cid(*loc, nc2)] as int <= du + 1);
            }
            if spec_step_ok(*loc, uc, nc3) {
                assert(discovered(*loc, d3, nc3) && d3[cid(*loc, nc3)] as int <= du + 1);
                assert(discovered(*loc, dist@, nc3) && dist@[cid(*loc, nc3)] as int <= du + 1);
            }
            assert forall|c2: (int, int)| #[trigger] spec_step_ok(*loc, uc, c2) implies discovered(
                *loc,
                dist@,
                c2,
            ) && dist@[cid(*loc, c2)] as int <= dist@[cid(*loc, uc)] as int + 1 by {
                assert(spec_adjacent(uc, c2));
                assert(c2 == nc1 || c2 == nc2 || c2 == nc3 || c2 == nc4);
            }
            lemma_advance_head(*loc, dist@, parent@, queue@, head as int, fc);
        }
        head += 1;
    }
    // The search is complete: every discovered cell has been expanded.
    proof {
        assert forall|c: (int, int), c2: (int, int)|
            #[trigger] discovered(*loc, dist@, c) && #[trigger] spec_step_ok(*loc, c, c2) implies
            discovered(*loc, dist@, c2) && dist@[cid(*loc, c2)] as int <= dist@[cid(*loc, c)] as int
            + 1 by {
            let j = choose|j: int| 0 <= j < queue@.len() && qv(queue@, j) == c;
            assert(processed(*loc, dist@, queue@, j));
            assert(spec_step_ok(*loc, qv(queue@, j), c2));
        }
    }
    let ti = xy_idx(to.0, to.1, loc.width);
    if dist[ti] == u32::MAX {
        proof {
            assert forall|q: Seq<(int, int)>| !spec_is_path(*loc, q, fc, tc) by {
                if spec_is_path(*loc, q, fc, tc) {
                    lemma_path_dist_bound(*loc, dist@, q, fc, tc);
                }
            }
        }
        return None;
    }
    // Walk the predecessor chain backwards from the goal, then flip it.
    let mut rev: Vec<(i32, i32)> = Vec::new();
    let mut cur: (i32, i32) = to;
    rev.push(to);
    proof {
        assert(qv(rev@, 0) == tc);
    }
    while !(cur.0 == from.0 && cur.1 == from.1)
        invariant
            loc.wf(),
            w == loc.width as int,
            h == loc.height as int,
            fc == (from.0 as int, from.1 as int),
            tc == (to.0 as int, to.1 as int),
            cell_ok(*loc, fc),
            dist@.len() == loc.width * loc.height,
            dist@[cid(*loc, fc)] == 0,
            inv_parent(*loc, dist@, parent@, fc),
            parent@.len() == loc.width * loc.height,
            discovered(*loc, dist@, (cur.0 as int, cur.1 as int)),
            rev@.len() >= 1,
            qv(rev@, 0) == tc,
            qv(rev@, rev@.len() - 1) == (cur.0 as int, cur.1 as int),
            forall|i: int|
                0 <= i < rev@.len() - 1 ==> spec_step_ok(
                    *loc,
                    qv(rev@, i + 1),
                    #[trigger] qv(rev@, i),
                ),
            dist@[cid(*loc, (cur.0 as int, cur.1 as int))] as int == dist@[cid(*loc, tc)] as int - (
            rev@.len() - 1),
        decreases dist@[cid(*loc, (cur.0 as int, cur.1 as int))] as int,
    {
        let ghost cc: (int, int) = (cur.0 as int, cur.1 as int);
        proof {
            assert(discovered(*loc, dist@, cc));
            if cc == fc {
                assert(cur.0 == from.0 && cur.1 == from.1);
            }
            assert(parent_ok(*loc, dist@, parent@, cc));
            lemma_cell_idx(w, h, cc.0, cc.1);
        }
        let ci = xy_idx(cur.0, cur.1, loc.width);
        let ghost pre = rev@;
        cur = parent[ci];
        rev.push(cur);
        proof {
            let l = rev@.len() - 1;
            assert(qv(rev@, l) == (cur.0 as int, cur.1 as int));
            assert(parent_ok(*loc, dist@, parent@, cc));
            assert(spec_step_ok(*loc, qv(rev@, l), cc));
            assert forall|i: int| 0 <= i < l implies spec_step_ok(
                *loc,
                qv(rev@, i + 1),
                #[trigger] qv(rev@, i),
            ) by {
                if i + 1 < l {
                    assert(qv(rev@, i) == qv(pre, i));
                    assert(qv(rev@, i + 1) == qv(pre, i + 1));
                    assert(spec_step_ok(*loc, qv(pre, i + 1), qv(pre, i)));
                } else {
                    assert(qv(rev@, i) == qv(pre, l - 1) && qv(pre, l - 1) == cc);
                }
            }
        }
    }
    let mut out: Vec<(i32, i32)> = Vec::new();
    let mut k: usize = rev.len();
    while k > 0
        invariant
            out@.len() == rev@.len() - k,
            k <= rev@.len(),
            forall|i: int| 0 <= i < out@.len() ==> #[trigger] qv(out@, i) == qv(
                rev@,
                rev@.len() - 1 - i,
            ),
        decreases k,
    {
        let ghost pre = out@;
        k -= 1;
        out.push(rev[k]);
        proof {
            assert forall|i: int| 0 <= i < out@.len() implies #[trigger] qv(out@, i) == qv(
                rev@,
                rev@.len() - 1 - i,
            ) by {
                if i < pre.len() {
                    assert(out@[i] == pre[i]);
                    assert(qv(pre, i) == qv(rev@, rev@.len() - 1 - i));
                } else {
                    assert(out@[i] == rev@[k as int]);
                }
            }
        }
    }
    proof {
        let p = path_view(out@);
        let l = rev@.len();
        assert(p.len() == l);
        assert(p[0] == qv(rev@, l - 1) && qv(rev@, l - 1) == fc);
        assert(p[p.len() - 1] == qv(rev@, 0));
        assert forall|i: int| 0 <= i < p.len() - 1 implies spec_step_ok(
            *loc,
            #[trigger] p[i],
            p[i + 1],
        ) by {
            assert(p[i] == qv(rev@, l - 1 - i));
            assert(p[i + 1] == qv(rev@, l - 1 - (i + 1)));
            assert(spec_step_ok(*loc, qv(rev@, (l - 2 - i) + 1), qv(rev@, l - 2 - i)));
        }
        assert(spec_is_path(*loc, p, fc, tc));
        // Minimality: the path has length `dist[to] + 1`, and the bound
        // lemma caps `dist[to]` below every route's length.
        assert(p.len() == dist@[cid(*loc, tc)] as int + 1);
        assert forall|q: Seq<(int, int)>| spec_is_path(*loc, q, fc, tc) implies q.len()
            >= out@.len() by {
            lemma_path_dist_bound(*loc, dist@, q, fc, tc);
        }
    }
    Some(out)
}

} // verus!

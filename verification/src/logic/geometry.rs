use vstd::prelude::*;
use super::board::Board;
use super::board_side::BoardSide;
use super::index::{pyramid_cell, pyramid_cells, pyramid_rank, region_cells, reserve_cells, Index};
use super::seqs::lemma_filter_step;

verus! {

/// Resting on a cell, being one of its children, and having it as a parent
/// are one relation.
pub proof fn lemma_children_are_those_resting(lower: Index, upper: Index)
    ensures
        lower.children().contains(upper) <==> upper.rests_on(lower),
        upper.parents().contains(lower) <==> upper.rests_on(lower),
{
    let above = lower.above();
    let keep = |c: Index| c.in_pyramid();
    crate::logic::seqs::lemma_filter_contains(above, keep, upper);
    if upper.rests_on(lower) {
        let dx = lower.x - upper.x;
        let dy = lower.y - upper.y;
        let k = dx + 2 * dy;
        assert(above[k] == upper);
        assert(upper.parents()[k] == lower);
    }
    if above.contains(upper) {
        let k = choose|k: int| 0 <= k < above.len() && above[k] == upper;
        assert(0 <= k < 4);
    }
    if upper.parents().contains(lower) {
        let k = choose|k: int| 0 <= k < upper.parents().len() && upper.parents()[k] == lower;
        assert(0 <= k < 4);
    }
}

/// The fixed order of the pyramid lists each of its cells once, and
/// nothing else.
pub proof fn lemma_pyramid_cells_complete(c: Index)
    ensures
        pyramid_cells().len() == 30,
        pyramid_cells().contains(c) <==> c.in_pyramid(),
        c.in_pyramid() ==> 0 <= pyramid_rank(c) < 30 && pyramid_cells()[pyramid_rank(c)] == c,
        forall|i: int|
            0 <= i < 30 ==> (#[trigger] pyramid_cells()[i]).in_pyramid() && pyramid_rank(
                pyramid_cells()[i],
            ) == i,
{
    let cells = pyramid_cells();
    assert forall|i: int| 0 <= i < 30 implies (#[trigger] cells[i]).in_pyramid() && pyramid_rank(
        cells[i],
    ) == i by {
        assert(cells[i] == pyramid_cell(i));
    }
    if c.in_pyramid() {
        assert(cells[pyramid_rank(c)] == c);
    }
    if cells.contains(c) {
        let k = choose|k: int| 0 <= k < cells.len() && cells[k] == c;
        assert(cells[k].in_pyramid());
    }
}

/// The fixed order of a reserve lists each of its cells once, and nothing
/// else.
pub proof fn lemma_reserve_cells_complete(side: BoardSide, c: Index)
    requires
        side != BoardSide::Center,
    ensures
        reserve_cells(side).len() == 15,
        reserve_cells(side).contains(c) <==> (c.in_reserve() && c.b == side),
        c.in_reserve() && c.b == side ==> reserve_cells(side)[c.y * 5 + c.x] == c,
        forall|i: int|
            0 <= i < 15 ==> {
                let d = #[trigger] reserve_cells(side)[i];
                d.in_reserve() && d.b == side && d.y * 5 + d.x == i
            },
{
    let cells = reserve_cells(side);
    if c.in_reserve() && c.b == side {
        let k = c.y * 5 + c.x;
        assert(cells[k] == c);
    }
    if cells.contains(c) {
        let k = choose|k: int| 0 <= k < cells.len() && cells[k] == c;
        assert(cells[k].in_reserve());
    }
}

impl Board {
    /// The cells that rest on `index`.
    pub fn child_indices(index: Index) -> (r: Vec<Index>)
        ensures
            r@ == index.children(),
    {
        let mut r: Vec<Index> = Vec::new();
        if !index.is_in_pyramid() {
            return r;
        }
        let Index { b, x, y, z } = index;
        let above = [
            Index { b, x, y, z: z + 1 },
            Index { b, x: x - 1, y, z: z + 1 },
            Index { b, x, y: y - 1, z: z + 1 },
            Index { b, x: x - 1, y: y - 1, z: z + 1 },
        ];
        assert(above@ =~= index.above());
        let ghost keep = |c: Index| c.in_pyramid();
        let mut k: usize = 0;
        proof {
            lemma_filter_step(above@, keep, 0);
        }
        while k < 4
            invariant
                0 <= k <= 4,
                above@ == index.above(),
                keep == (|c: Index| c.in_pyramid()),
                r@ == above@.take(k as int).filter(keep),
            decreases 4 - k,
        {
            proof {
                lemma_filter_step(above@, keep, k as int);
            }
            if above[k].is_in_pyramid() {
                r.push(above[k]);
            }
            k += 1;
        }
        assert(above@.take(4) =~= above@);
        r
    }

    /// The cells that support `index`.
    pub fn parent_indices(index: Index) -> (r: Vec<Index>)
        ensures
            r@ == index.parents(),
    {
        let mut r: Vec<Index> = Vec::new();
        if !index.is_in_pyramid() || index.z == 0 {
            return r;
        }
        let Index { b, x, y, z } = index;
        r.push(Index { b, x, y, z: z - 1 });
        r.push(Index { b, x: x + 1, y, z: z - 1 });
        r.push(Index { b, x, y: y + 1, z: z - 1 });
        r.push(Index { b, x: x + 1, y: y + 1, z: z - 1 });
        assert(r@ =~= index.parents());
        r
    }

    /// Tells whether `child` rests on `index`.
    pub fn is_child_index(index: Index, child: Index) -> (r: bool)
        ensures
            r == child.rests_on(index),
            r == index.children().contains(child),
    {
        proof {
            lemma_children_are_those_resting(index, child);
        }
        child.is_in_pyramid() && index.is_in_pyramid() && child.z == index.z + 1 && (index.x
            == child.x || index.x == child.x + 1) && (index.y == child.y || index.y == child.y
            + 1)
    }

    /// The cells of a region, in their fixed order.
    pub fn all_indices(board_side: BoardSide) -> (r: Vec<Index>)
        ensures
            r@ == region_cells(board_side),
    {
        let mut r: Vec<Index> = Vec::new();
        match board_side {
            BoardSide::Center => {
                let mut k: i8 = 0;
                while k < 30
                    invariant
                        0 <= k <= 30,
                        r@ == pyramid_cells().take(k as int),
                    decreases 30 - k,
                {
                    let c = if k < 16 {
                        Index { b: BoardSide::Center, x: k % 4, y: k / 4, z: 0 }
                    } else if k < 25 {
                        Index { b: BoardSide::Center, x: (k - 16) % 3, y: (k - 16) / 3, z: 1 }
                    } else if k < 29 {
                        Index { b: BoardSide::Center, x: (k - 25) % 2, y: (k - 25) / 2, z: 2 }
                    } else {
                        Index { b: BoardSide::Center, x: 0, y: 0, z: 3 }
                    };
                    assert(c == pyramid_cell(k as int));
                    r.push(c);
                    assert(r@ =~= pyramid_cells().take(k + 1));
                    k += 1;
                }
                assert(pyramid_cells().take(30) =~= pyramid_cells());
            },
            _ => {
                let mut y: i8 = 0;
                while y < 3
                    invariant
                        board_side != BoardSide::Center,
                        0 <= y <= 3,
                        r@ == reserve_cells(board_side).take(y * 5),
                    decreases 3 - y,
                {
                    let mut x: i8 = 0;
                    while x < 5
                        invariant
                            board_side != BoardSide::Center,
                            0 <= y < 3,
                            0 <= x <= 5,
                            r@ == reserve_cells(board_side).take(y * 5 + x),
                        decreases 5 - x,
                    {
                        r.push(Index { b: board_side, x, y, z: 0 });
                        assert(r@ =~= reserve_cells(board_side).take(y * 5 + x + 1));
                        x += 1;
                    }
                    y += 1;
                }
                assert(reserve_cells(board_side).take(15) =~= reserve_cells(board_side));
            },
        }
        r
    }
}

} // verus!

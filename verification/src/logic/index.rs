use vstd::prelude::*;
use super::board_side::BoardSide;

verus! {

/// A coordinate: a region and a cell in it.
///
/// A reserve is a grid of 5 by 3 cells, all at `z == 0`. Level `z` of the
/// pyramid is a grid of `4 - z` by `4 - z` cells, for `z` from 0 (the base)
/// to 3 (the apex). Other values name no cell.
#[derive(Clone, Copy, Debug, PartialEq, Eq, Structural, Hash)]
pub struct Index {
    pub b: BoardSide,
    pub x: i8,
    pub y: i8,
    pub z: i8,
}

impl Index {
    /// The pyramid coordinate `(x, y, z)`.
    pub open spec fn center(x: int, y: int, z: int) -> Index {
        Index { b: BoardSide::Center, x: x as i8, y: y as i8, z: z as i8 }
    }

    /// The coordinate `(x, y)` of the reserve `side`.
    pub open spec fn reserve(side: BoardSide, x: int, y: int) -> Index {
        Index { b: side, x: x as i8, y: y as i8, z: 0 }
    }

    /// This coordinate names a cell of the pyramid.
    pub open spec fn in_pyramid(self) -> bool {
        &&& self.b == BoardSide::Center
        &&& 0 <= self.z < 4
        &&& 0 <= self.x < 4 - self.z
        &&& 0 <= self.y < 4 - self.z
    }

    /// This coordinate names a cell of a reserve.
    pub open spec fn in_reserve(self) -> bool {
        &&& self.b != BoardSide::Center
        &&& 0 <= self.x < 5
        &&& 0 <= self.y < 3
        &&& self.z == 0
    }

    /// This coordinate names a cell.
    pub open spec fn on_board(self) -> bool {
        self.in_pyramid() || self.in_reserve()
    }

    /// The top cell of the pyramid.
    pub open spec fn is_apex(self) -> bool {
        self.in_pyramid() && self.z == 3
    }

    /// `self` rests on `lower`: it lies one level higher, on one of the
    /// (up to) four cells whose 2 by 2 block beneath holds `lower`.
    pub open spec fn rests_on(self, lower: Index) -> bool {
        &&& self.in_pyramid()
        &&& lower.in_pyramid()
        &&& self.z == lower.z + 1
        &&& (lower.x == self.x || lower.x == self.x + 1)
        &&& (lower.y == self.y || lower.y == self.y + 1)
    }

    /// The four cells that support this one, for a pyramid cell above the
    /// base; no cell otherwise.
    pub open spec fn parents(self) -> Seq<Index> {
        if self.in_pyramid() && self.z > 0 {
            seq![
                Index::center(self.x as int, self.y as int, self.z - 1),
                Index::center(self.x + 1, self.y as int, self.z - 1),
                Index::center(self.x as int, self.y + 1, self.z - 1),
                Index::center(self.x + 1, self.y + 1, self.z - 1),
            ]
        } else {
            Seq::empty()
        }
    }

    /// The cells above a pyramid cell that could rest on it, were the
    /// pyramid unbounded.
    pub open spec fn above(self) -> Seq<Index> {
        seq![
            Index::center(self.x as int, self.y as int, self.z + 1),
            Index::center(self.x - 1, self.y as int, self.z + 1),
            Index::center(self.x as int, self.y - 1, self.z + 1),
            Index::center(self.x - 1, self.y - 1, self.z + 1),
        ]
    }

    /// The cells that rest on this one: up to four cells of the next level.
    pub open spec fn children(self) -> Seq<Index> {
        if self.in_pyramid() {
            self.above().filter(|c: Index| c.in_pyramid())
        } else {
            Seq::empty()
        }
    }

    /// Returns the pyramid coordinate `(x, y, z)`.
    pub fn new_c(x: i8, y: i8, z: i8) -> (r: Index)
        ensures
            r == (Index { b: BoardSide::Center, x, y, z }),
    {
        let b = BoardSide::Center;
        Index { b, x, y, z }
    }

    /// Tells whether this coordinate names a cell of the pyramid.
    pub fn is_in_pyramid(&self) -> (r: bool)
        ensures
            r == self.in_pyramid(),
    {
        self.b == BoardSide::Center && 0 <= self.z && self.z < 4 && 0 <= self.x && self.x < 4
            - self.z && 0 <= self.y && self.y < 4 - self.z
    }

    /// Tells whether this coordinate names a cell of a reserve.
    pub fn is_in_reserve(&self) -> (r: bool)
        ensures
            r == self.in_reserve(),
    {
        self.b != BoardSide::Center && 0 <= self.x && self.x < 5 && 0 <= self.y && self.y < 3
            && self.z == 0
    }
}

/// The `k`-th cell of the pyramid: level by level from the base up, each
/// level row by row.
pub open spec fn pyramid_cell(k: int) -> Index {
    if k < 16 {
        Index::center(k % 4, k / 4, 0)
    } else if k < 25 {
        Index::center((k - 16) % 3, (k - 16) / 3, 1)
    } else if k < 29 {
        Index::center((k - 25) % 2, (k - 25) / 2, 2)
    } else {
        Index::center(0, 0, 3)
    }
}

/// Where a cell of the pyramid stands in the fixed order.
pub open spec fn pyramid_rank(c: Index) -> int {
    if c.z == 0 {
        c.y * 4 + c.x
    } else if c.z == 1 {
        16 + c.y * 3 + c.x
    } else if c.z == 2 {
        25 + c.y * 2 + c.x
    } else {
        29
    }
}

/// The thirty cells of the pyramid in their fixed order.
pub open spec fn pyramid_cells() -> Seq<Index> {
    Seq::new(30, |k: int| pyramid_cell(k))
}

/// The fifteen cells of the reserve `side` in their fixed order, row by
/// row.
pub open spec fn reserve_cells(side: BoardSide) -> Seq<Index> {
    Seq::new(15, |k: int| Index::reserve(side, k % 5, k / 5))
}

/// The cells of a region in their fixed order.
pub open spec fn region_cells(side: BoardSide) -> Seq<Index> {
    match side {
        BoardSide::Center => pyramid_cells(),
        _ => reserve_cells(side),
    }
}

} // verus!

//! Board coordinates.

use vstd::prelude::*;

verus! {

/// A coordinate as the notation sees it: `file` counts from 0 for file 1,
/// `rank` from 0 for rank `a`.
pub struct Coord {
    pub file: int,
    pub rank: int,
}

impl Coord {
    /// Both coordinates lie on the board.
    pub open spec fn wf(self) -> bool {
        0 <= self.file < 9 && 0 <= self.rank < 9
    }
}

/// One of the 81 squares of the board.
#[derive(Clone, Copy, Debug, PartialEq, Eq, Structural)]
pub struct Square(u8);

impl View for Square {
    type V = Coord;

    closed spec fn view(&self) -> Coord {
        Coord { file: self.0 as int % 9, rank: self.0 as int / 9 }
    }
}

/// The place of the cell `(x, y)` in a board's row-major list of cells.
pub open spec fn cell_index(x: int, y: int) -> int {
    9 * y + x
}

pub(crate) fn xy2idx(x: u8, y: u8) -> (idx: usize)
    requires
        x < 9,
        y < 9,
    ensures
        idx == cell_index(x as int, y as int),
        idx < 81,
{
    (9 * y + x) as usize
}

impl Square {
    /// Every square lies on the board.
    #[verifier::type_invariant]
    pub closed spec fn inv(self) -> bool {
        self.0 < 81
    }

    /// The square on file `x` and rank `y`, both counted from 0.
    pub fn new(x: u8, y: u8) -> (sq: Square)
        requires
            x < 9,
            y < 9,
        ensures
            sq@ == (Coord { file: x as int, rank: y as int }),
    {
        Square(9 * y + x)
    }

    /// The file, counted from 0.
    pub fn x(&self) -> (x: u8)
        ensures
            x == self@.file,
            x < 9,
    {
        proof {
            use_type_invariant(self);
        }
        self.0 % 9
    }

    /// The rank, counted from 0.
    pub fn y(&self) -> (y: u8)
        ensures
            y == self@.rank,
            y < 9,
    {
        proof {
            use_type_invariant(self);
        }
        self.0 / 9
    }

    /// A square's coordinates lie on the board.
    pub proof fn lemma_view_wf(self)
        requires
            self.inv(),
        ensures
            self@.wf(),
    {
    }

    /// Squares with the same coordinates are the same square.
    pub proof fn lemma_view_injective(self, other: Square)
        requires
            self@ == other@,
        ensures
            self == other,
    {
    }
}

} // verus!

//! The 81 cells of the board.

use vstd::prelude::*;
use crate::piece::BoardCell;
use crate::square::{cell_index, xy2idx};

verus! {

/// The board: nine rows of nine cells. Row 0 is rank `a`, column 0 is file 1.
/// Any placement of pieces can be held, legal or not.
#[derive(Clone, Debug, PartialEq, Eq)]
pub struct Board([BoardCell; 81]);

impl View for Board {
    type V = Seq<BoardCell>;

    /// The cells in row-major order: the cell `(x, y)` stands at `cell_index(x, y)`.
    closed spec fn view(&self) -> Seq<BoardCell> {
        self.0@
    }
}

impl Board {
    /// The board whose cell `(x, y)` is what `f(x, y)` returns, for every file
    /// `x` and rank `y` below 9.
    pub fn new<F>(f: F) -> (board: Board) where F: Fn(u8, u8) -> BoardCell
        requires
            forall|x: u8, y: u8| x < 9 && y < 9 ==> call_requires(f, (x, y)),
        ensures
            board@.len() == 81,
            forall|x: u8, y: u8|
                x < 9 && y < 9 ==> call_ensures(
                    f,
                    (x, y),
                    #[trigger] board@[cell_index(x as int, y as int)],
                ),
    {
        let mut cells = [BoardCell::Empty;81];
        let mut y: u8 = 0;
        while y < 9
            invariant
                y <= 9,
                forall|x: u8, y: u8| x < 9 && y < 9 ==> call_requires(f, (x, y)),
                forall|a: u8, b: u8|
                    a < 9 && b < y ==> call_ensures(
                        f,
                        (a, b),
                        #[trigger] cells@[cell_index(a as int, b as int)],
                    ),
            decreases 9 - y,
        {
            let mut x: u8 = 0;
            while x < 9
                invariant
                    x <= 9,
                    y < 9,
                    forall|x: u8, y: u8| x < 9 && y < 9 ==> call_requires(f, (x, y)),
                    forall|a: u8, b: u8|
                        a < 9 && b < y ==> call_ensures(
                            f,
                            (a, b),
                            #[trigger] cells@[cell_index(a as int, b as int)],
                        ),
                    forall|a: u8|
                        a < x ==> call_ensures(
                            f,
                            (a, y),
                            #[trigger] cells@[cell_index(a as int, y as int)],
                        ),
                decreases 9 - x,
            {
                let cell = f(x, y);
                cells[xy2idx(x, y)] = cell;
                x += 1;
            }
            y += 1;
        }
        Board(cells)
    }

    /// The board that holds exactly `cells`.
    pub(crate) fn from_cells(cells: [BoardCell; 81]) -> (board: Board)
        ensures
            board@ == cells@,
    {
        Board(cells)
    }

    /// The content of the cell on file `x` and rank `y`, both counted from 0.
    pub fn at(&self, x: u8, y: u8) -> (cell: BoardCell)
        requires
            x < 9,
            y < 9,
        ensures
            cell == self@[cell_index(x as int, y as int)],
    {
        self.0[xy2idx(x, y)]
    }

    /// A board has 81 cells.
    pub proof fn lemma_view_len(self)
        ensures
            self@.len() == 81,
    {
    }

    /// Boards with the same cells are the same board.
    pub proof fn lemma_view_injective(self, other: Board)
        requires
            self@ == other@,
        ensures
            self == other,
    {
        assert(self.0 =~= other.0);
    }
}

} // verus!

//! A position: the board, both hands, the side to move and the ply count.

use vstd::prelude::*;
use crate::board::Board;
use crate::hand::Hand;
use crate::piece::{BoardCell, Side};

verus! {

/// A position as the notation sees it.
pub struct PositionView {
    /// The side to move.
    pub side: Side,
    /// The 81 cells of the board in row-major order.
    pub board: Seq<BoardCell>,
    /// The seven counts of the hand of `Side::Sente`.
    pub hand_sente: Seq<u8>,
    /// The seven counts of the hand of `Side::Gote`.
    pub hand_gote: Seq<u8>,
    /// The ply count.
    pub ply: i32,
}

impl PositionView {
    /// The board has 81 cells and each hand seven counts.
    pub open spec fn wf(self) -> bool {
        &&& self.board.len() == 81
        &&& self.hand_sente.len() == 7
        &&& self.hand_gote.len() == 7
    }
}

/// A position. The ply count is a label that is carried along as it is.
#[derive(Clone, Debug, PartialEq, Eq)]
pub struct Position {
    side: Side,
    board: Board,
    hands: [Hand; 2],
    ply: i32,
}

impl View for Position {
    type V = PositionView;

    closed spec fn view(&self) -> PositionView {
        PositionView {
            side: self.side,
            board: self.board@,
            hand_sente: self.hands@[0]@,
            hand_gote: self.hands@[1]@,
            ply: self.ply,
        }
    }
}

impl Position {
    /// The position made of the given parts.
    pub fn new(side: Side, board: Board, hand_sente: Hand, hand_gote: Hand, ply: i32) -> (pos:
        Position)
        ensures
            pos@ == (PositionView {
                side,
                board: board@,
                hand_sente: hand_sente@,
                hand_gote: hand_gote@,
                ply,
            }),
    {
        Position { side, board, hands: [hand_sente, hand_gote], ply }
    }

    /// The side to move.
    pub fn side(&self) -> (side: Side)
        ensures
            side == self@.side,
    {
        self.side
    }

    /// The board.
    pub fn board(&self) -> (board: &Board)
        ensures
            board@ == self@.board,
    {
        &self.board
    }

    /// The hand of `side`.
    pub fn hand(&self, side: Side) -> (hand: &Hand)
        ensures
            hand@ == match side {
                Side::Sente => self@.hand_sente,
                Side::Gote => self@.hand_gote,
            },
    {
        match side {
            Side::Sente => &self.hands[0],
            Side::Gote => &self.hands[1],
        }
    }

    /// The ply count.
    pub fn ply(&self) -> (ply: i32)
        ensures
            ply == self@.ply,
    {
        self.ply
    }

    /// The parts of a position have the sizes that the notation expects.
    pub proof fn lemma_view_wf(self)
        ensures
            self@.wf(),
    {
        self.board.lemma_view_len();
        self.hands@[0].lemma_view_len();
        self.hands@[1].lemma_view_len();
    }

    /// Positions that look the same to the notation are the same position.
    pub proof fn lemma_view_injective(self, other: Position)
        requires
            self@ == other@,
        ensures
            self == other,
    {
        self.board.lemma_view_injective(other.board);
        self.hands@[0].lemma_view_injective(other.hands@[0]);
        self.hands@[1].lemma_view_injective(other.hands@[1]);
        assert(self.hands =~= other.hands);
    }
}

} // verus!

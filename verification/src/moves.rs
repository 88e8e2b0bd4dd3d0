//! Moves: a piece moved on the board, or a piece dropped from the hand.

use vstd::prelude::*;
use crate::piece::PieceType;
use crate::square::{Coord, Square};

verus! {

/// A move as the notation sees it.
pub enum MoveView {
    /// A piece goes from `src` to `dst` and promotes there if `promotion` is set.
    Nondrop { src: Coord, dst: Coord, promotion: bool },
    /// A piece of type `piece` is put from the hand onto `dst`.
    Drop { piece: PieceType, dst: Coord },
}

impl MoveView {
    /// The squares of the move lie on the board.
    pub open spec fn wf(self) -> bool {
        match self {
            MoveView::Nondrop { src, dst, promotion } => src.wf() && dst.wf(),
            MoveView::Drop { piece, dst } => dst.wf(),
        }
    }

    /// The move as it is written: a drop names the unpromoted type that its
    /// piece is or was. Any other move is written as it is.
    pub open spec fn canonical(self) -> MoveView {
        match self {
            MoveView::Nondrop { src, dst, promotion } => self,
            MoveView::Drop { piece, dst } => MoveView::Drop { piece: piece.spec_base(), dst },
        }
    }
}

/// The moves of a list as they are written.
pub open spec fn canonical_moves(mvs: Seq<MoveView>) -> Seq<MoveView> {
    mvs.map_values(|mv: MoveView| mv.canonical())
}

/// Every move of a list has its squares on the board.
pub open spec fn moves_wf(mvs: Seq<MoveView>) -> bool {
    forall|i: int| 0 <= i < mvs.len() ==> (#[trigger] mvs[i]).wf()
}

/// A move of a piece that stands on the board.
#[derive(Clone, Copy, Debug, PartialEq, Eq, Structural)]
pub struct MoveNondrop {
    src: Square,
    dst: Square,
    is_promotion: bool,
}

impl MoveNondrop {
    pub closed spec fn spec_src(&self) -> Square {
        self.src
    }

    pub closed spec fn spec_dst(&self) -> Square {
        self.dst
    }

    pub closed spec fn spec_is_promotion(&self) -> bool {
        self.is_promotion
    }

    /// The square that the piece leaves.
    #[verifier::when_used_as_spec(spec_src)]
    pub fn src(&self) -> (sq: Square)
        ensures
            sq == self.spec_src(),
    {
        self.src
    }

    /// The square that the piece goes to.
    #[verifier::when_used_as_spec(spec_dst)]
    pub fn dst(&self) -> (sq: Square)
        ensures
            sq == self.spec_dst(),
    {
        self.dst
    }

    /// Whether the piece promotes on arrival.
    #[verifier::when_used_as_spec(spec_is_promotion)]
    pub fn is_promotion(&self) -> (r: bool)
        ensures
            r == self.spec_is_promotion(),
    {
        self.is_promotion
    }
}

/// A drop of a piece from the hand.
#[derive(Clone, Copy, Debug, PartialEq, Eq, Structural)]
pub struct MoveDrop {
    pt: PieceType,
    dst: Square,
}

impl MoveDrop {
    pub closed spec fn spec_pt(&self) -> PieceType {
        self.pt
    }

    pub closed spec fn spec_dst(&self) -> Square {
        self.dst
    }

    /// The type of the piece that is dropped.
    #[verifier::when_used_as_spec(spec_pt)]
    pub fn pt(&self) -> (pt: PieceType)
        ensures
            pt == self.spec_pt(),
    {
        self.pt
    }

    /// The square that the piece is put on.
    #[verifier::when_used_as_spec(spec_dst)]
    pub fn dst(&self) -> (sq: Square)
        ensures
            sq == self.spec_dst(),
    {
        self.dst
    }
}

/// A move of either kind.
#[derive(Clone, Copy, Debug, PartialEq, Eq, Structural)]
pub enum Move {
    Nondrop(MoveNondrop),
    Drop(MoveDrop),
}

impl View for Move {
    type V = MoveView;

    open spec fn view(&self) -> MoveView {
        match self {
            Move::Nondrop(m) => MoveView::Nondrop {
                src: m.spec_src()@,
                dst: m.spec_dst()@,
                promotion: m.spec_is_promotion(),
            },
            Move::Drop(m) => MoveView::Drop { piece: m.spec_pt(), dst: m.spec_dst()@ },
        }
    }
}

/// The moves of a list as the notation sees them.
pub open spec fn move_views(mvs: Seq<Move>) -> Seq<MoveView> {
    mvs.map_values(|mv: Move| mv@)
}

impl Move {
    /// The move of a piece from `src` to `dst`, promoting if `is_promotion` is set.
    pub fn nondrop(src: Square, dst: Square, is_promotion: bool) -> (mv: Move)
        ensures
            mv@ == (MoveView::Nondrop { src: src@, dst: dst@, promotion: is_promotion }),
    {
        Move::Nondrop(MoveNondrop { src, dst, is_promotion })
    }

    /// The drop of a piece of type `pt` onto `dst`.
    pub fn drop(pt: PieceType, dst: Square) -> (mv: Move)
        ensures
            mv@ == (MoveView::Drop { piece: pt, dst: dst@ }),
    {
        Move::Drop(MoveDrop { pt, dst })
    }

    /// Moves that look the same to the notation are the same move.
    pub proof fn lemma_view_injective(self, other: Move)
        requires
            self@ == other@,
        ensures
            self == other,
    {
        match (self, other) {
            (Move::Nondrop(a), Move::Nondrop(b)) => {
                a.src.lemma_view_injective(b.src);
                a.dst.lemma_view_injective(b.dst);
            },
            (Move::Drop(a), Move::Drop(b)) => {
                a.dst.lemma_view_injective(b.dst);
            },
            _ => {},
        }
    }
}

} // verus!

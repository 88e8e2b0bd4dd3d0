//! Sides, piece types and the content of one board cell.

use vstd::prelude::*;

verus! {

/// The two players. `Sente` moves first.
#[derive(Clone, Copy, Debug, PartialEq, Eq, Structural)]
pub enum Side {
    Sente,
    Gote,
}

/// The fourteen kinds of piece: eight unpromoted ones and six promoted ones.
#[derive(Clone, Copy, Debug, PartialEq, Eq, Structural)]
pub enum PieceType {
    Pawn,
    Lance,
    Knight,
    Silver,
    Bishop,
    Rook,
    Gold,
    King,
    ProPawn,
    ProLance,
    ProKnight,
    ProSilver,
    Horse,
    Dragon,
}

impl PieceType {
    /// Whether a piece of this type can be held in hand: the seven unpromoted
    /// types other than the king.
    pub open spec fn spec_is_hand(&self) -> bool {
        match self {
            PieceType::Pawn
            | PieceType::Lance
            | PieceType::Knight
            | PieceType::Silver
            | PieceType::Bishop
            | PieceType::Rook
            | PieceType::Gold => true,
            _ => false,
        }
    }

    /// Whether this is one of the six promoted types.
    pub open spec fn spec_is_promoted(&self) -> bool {
        match self {
            PieceType::ProPawn
            | PieceType::ProLance
            | PieceType::ProKnight
            | PieceType::ProSilver
            | PieceType::Horse
            | PieceType::Dragon => true,
            _ => false,
        }
    }

    /// The promoted form of a type that has one.
    pub open spec fn spec_to_promoted(&self) -> Option<PieceType> {
        match self {
            PieceType::Pawn => Some(PieceType::ProPawn),
            PieceType::Lance => Some(PieceType::ProLance),
            PieceType::Knight => Some(PieceType::ProKnight),
            PieceType::Silver => Some(PieceType::ProSilver),
            PieceType::Bishop => Some(PieceType::Horse),
            PieceType::Rook => Some(PieceType::Dragon),
            _ => None,
        }
    }

    /// The unpromoted type that a piece of this type started as.
    pub open spec fn spec_base(&self) -> PieceType {
        match self {
            PieceType::ProPawn => PieceType::Pawn,
            PieceType::ProLance => PieceType::Lance,
            PieceType::ProKnight => PieceType::Knight,
            PieceType::ProSilver => PieceType::Silver,
            PieceType::Horse => PieceType::Bishop,
            PieceType::Dragon => PieceType::Rook,
            _ => *self,
        }
    }

    /// The place of a hand piece type in a hand's list of counts.
    pub open spec fn spec_hand_index(&self) -> int {
        match self {
            PieceType::Pawn => 0,
            PieceType::Lance => 1,
            PieceType::Knight => 2,
            PieceType::Silver => 3,
            PieceType::Bishop => 4,
            PieceType::Rook => 5,
            _ => 6,
        }
    }

    #[verifier::when_used_as_spec(spec_is_hand)]
    pub fn is_hand(&self) -> (r: bool)
        ensures
            r == self.spec_is_hand(),
    {
        match self {
            PieceType::Pawn
            | PieceType::Lance
            | PieceType::Knight
            | PieceType::Silver
            | PieceType::Bishop
            | PieceType::Rook
            | PieceType::Gold => true,
            _ => false,
        }
    }

    #[verifier::when_used_as_spec(spec_is_promoted)]
    pub fn is_promoted(&self) -> (r: bool)
        ensures
            r == self.spec_is_promoted(),
    {
        match self {
            PieceType::ProPawn
            | PieceType::ProLance
            | PieceType::ProKnight
            | PieceType::ProSilver
            | PieceType::Horse
            | PieceType::Dragon => true,
            _ => false,
        }
    }

    #[verifier::when_used_as_spec(spec_to_promoted)]
    pub fn to_promoted(&self) -> (r: Option<PieceType>)
        ensures
            r == self.spec_to_promoted(),
    {
        match self {
            PieceType::Pawn => Some(PieceType::ProPawn),
            PieceType::Lance => Some(PieceType::ProLance),
            PieceType::Knight => Some(PieceType::ProKnight),
            PieceType::Silver => Some(PieceType::ProSilver),
            PieceType::Bishop => Some(PieceType::Horse),
            PieceType::Rook => Some(PieceType::Dragon),
            _ => None,
        }
    }
}

/// What one square of the board holds.
#[derive(Clone, Copy, Debug, PartialEq, Eq, Structural)]
pub enum BoardCell {
    Empty,
    Piece(Side, PieceType),
}

} // verus!

//! The pieces that one side holds in hand.

use vstd::prelude::*;
use crate::piece::PieceType;

verus! {

/// The hand piece type that stands at place `i` of a hand's list of counts.
pub open spec fn hand_type(i: int) -> PieceType {
    if i == 0 {
        PieceType::Pawn
    } else if i == 1 {
        PieceType::Lance
    } else if i == 2 {
        PieceType::Knight
    } else if i == 3 {
        PieceType::Silver
    } else if i == 4 {
        PieceType::Bishop
    } else if i == 5 {
        PieceType::Rook
    } else {
        PieceType::Gold
    }
}

/// A hand with no piece in it.
pub open spec fn empty_hand() -> Seq<u8> {
    Seq::new(7, |i: int| 0u8)
}

/// Whether every count of a hand is zero.
pub open spec fn hand_is_empty(counts: Seq<u8>) -> bool {
    forall|i: int| 0 <= i < counts.len() ==> counts[i] == 0
}

/// The place of a hand piece type in a hand's list of counts.
pub(crate) fn hand_index(pt: PieceType) -> (i: usize)
    requires
        pt.is_hand(),
    ensures
        i == pt.spec_hand_index(),
        i < 7,
        hand_type(i as int) == pt,
{
    match pt {
        PieceType::Pawn => 0,
        PieceType::Lance => 1,
        PieceType::Knight => 2,
        PieceType::Silver => 3,
        PieceType::Bishop => 4,
        PieceType::Rook => 5,
        _ => 6,
    }
}

/// The hand piece type that stands at place `i`.
pub(crate) fn hand_type_at(i: usize) -> (pt: PieceType)
    requires
        i < 7,
    ensures
        pt == hand_type(i as int),
        pt.is_hand(),
        pt.spec_hand_index() == i,
{
    if i == 0 {
        PieceType::Pawn
    } else if i == 1 {
        PieceType::Lance
    } else if i == 2 {
        PieceType::Knight
    } else if i == 3 {
        PieceType::Silver
    } else if i == 4 {
        PieceType::Bishop
    } else if i == 5 {
        PieceType::Rook
    } else {
        PieceType::Gold
    }
}

/// One side's hand: how many pieces of each of the seven hand piece types it
/// holds.
#[derive(Clone, Debug, PartialEq, Eq)]
pub struct Hand([u8; 7]);

impl View for Hand {
    type V = Seq<u8>;

    /// The seven counts; that of a piece type stands at its `spec_hand_index`.
    closed spec fn view(&self) -> Seq<u8> {
        self.0@
    }
}

impl Hand {
    /// The hand that holds `f(pt)` pieces of each hand piece type `pt`.
    pub fn new<F>(f: F) -> (hand: Hand) where F: Fn(PieceType) -> u8
        requires
            forall|pt: PieceType| pt.is_hand() ==> call_requires(f, (pt,)),
        ensures
            hand@.len() == 7,
            forall|pt: PieceType|
                pt.is_hand() ==> call_ensures(f, (pt,), #[trigger] hand@[pt.spec_hand_index()]),
    {
        let mut counts = [0u8;7];
        let mut i: usize = 0;
        while i < 7
            invariant
                i <= 7,
                forall|pt: PieceType| pt.is_hand() ==> call_requires(f, (pt,)),
                forall|pt: PieceType|
                    pt.is_hand() && pt.spec_hand_index() < i ==> call_ensures(
                        f,
                        (pt,),
                        #[trigger] counts@[pt.spec_hand_index()],
                    ),
            decreases 7 - i,
        {
            let n = f(hand_type_at(i));
            counts[i] = n;
            i += 1;
        }
        Hand(counts)
    }

    /// The hand that holds exactly `counts`.
    pub(crate) fn from_counts(counts: [u8; 7]) -> (hand: Hand)
        ensures
            hand@ == counts@,
    {
        Hand(counts)
    }

    /// How many pieces of type `pt` the hand holds.
    pub fn count(&self, pt: PieceType) -> (n: u8)
        requires
            pt.is_hand(),
        ensures
            n == self@[pt.spec_hand_index()],
    {
        self.0[hand_index(pt)]
    }

    /// Each hand piece type with its count, in the order pawn, lance, knight,
    /// silver, bishop, rook, gold.
    pub fn enumerate(&self) -> (list: Vec<(PieceType, u8)>)
        ensures
            list@.len() == 7,
            forall|i: int| 0 <= i < 7 ==> #[trigger] list@[i] == (hand_type(i), self@[i]),
    {
        let mut list: Vec<(PieceType, u8)> = Vec::new();
        let mut i: usize = 0;
        while i < 7
            invariant
                i <= 7,
                list@.len() == i,
                forall|j: int| 0 <= j < i ==> #[trigger] list@[j] == (hand_type(j), self@[j]),
            decreases 7 - i,
        {
            list.push((hand_type_at(i), self.0[i]));
            i += 1;
        }
        list
    }

    /// The hand with no piece in it.
    pub(crate) fn empty() -> (hand: Hand)
        ensures
            hand@ == empty_hand(),
    {
        let hand = Hand([0u8;7]);
        assert(hand@ =~= empty_hand());
        hand
    }

    /// Whether the hand holds no piece.
    pub(crate) fn is_empty(&self) -> (r: bool)
        ensures
            r == hand_is_empty(self@),
    {
        let mut i: usize = 0;
        while i < 7
            invariant
                i <= 7,
                forall|j: int| 0 <= j < i ==> self@[j] == 0,
            decreases 7 - i,
        {
            if self.0[i] != 0 {
                return false;
            }
            i += 1;
        }
        true
    }

    /// A hand has seven counts.
    pub proof fn lemma_view_len(self)
        ensures
            self@.len() == 7,
    {
    }

    /// Hands with the same counts are the same hand.
    pub proof fn lemma_view_injective(self, other: Hand)
        requires
            self@ == other@,
        ensures
            self == other,
    {
        assert(self.0 =~= other.0);
    }
}

} // verus!

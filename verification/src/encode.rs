//! Writing a record.

use vstd::prelude::*;
use vstd::string::StringExecFns;
use crate::board::Board;
use crate::grammar::{
    board_row, board_text, decoded, encoded, hand_entry_text, hand_order, hands_text,
    hands_text_from, move_text, move_texts, moves_text, piece_letter, piece_text, ply_text,
    position_text, row_text, row_text_from, row_texts, run_text, side_text, square_text,
    type_letter, Reading,
};
use crate::hand::Hand;
use crate::laws::record::lemma_encoded_roundtrip;
use crate::moves::{canonical_moves, move_views, Move, MoveView};
use crate::piece::{BoardCell, PieceType, Side};
use crate::position::{Position, PositionView};
use crate::square::{cell_index, Square};
use crate::text::{digit_of, join_strings, push_char, push_nat, string_texts};

verus! {

/// The capital letter of the unpromoted type that `pt` is or was.
fn type_char(pt: PieceType) -> (c: char)
    ensures
        c == type_letter(pt),
        'A' <= c <= 'Z',
{
    match pt {
        PieceType::Pawn | PieceType::ProPawn => 'P',
        PieceType::Lance | PieceType::ProLance => 'L',
        PieceType::Knight | PieceType::ProKnight => 'N',
        PieceType::Silver | PieceType::ProSilver => 'S',
        PieceType::Bishop | PieceType::Horse => 'B',
        PieceType::Rook | PieceType::Dragon => 'R',
        PieceType::Gold => 'G',
        PieceType::King => 'K',
    }
}

/// The letter of a piece of `side`.
fn piece_char(side: Side, pt: PieceType) -> (c: char)
    ensures
        c == piece_letter(side, pt),
{
    let upper = type_char(pt);
    match side {
        Side::Sente => upper,
        Side::Gote => ((upper as u8) + 32) as char,
    }
}

/// The text of a piece type: its capital letter, with `+` before it if it is
/// promoted.
pub fn encode_pt(pt: PieceType) -> (s: String)
    ensures
        s@ == piece_text(Side::Sente, pt),
{
    encode_piece(Side::Sente, pt)
}

/// The text of a piece on the board.
pub fn encode_piece(side: Side, pt: PieceType) -> (s: String)
    ensures
        s@ == piece_text(side, pt),
{
    let mut s = String::new();
    if pt.is_promoted() {
        push_char(&mut s, '+');
    }
    push_char(&mut s, piece_char(side, pt));
    assert(s@ =~= piece_text(side, pt));
    s
}

/// Puts the text of a square at the end of `s`.
fn push_sq(s: &mut String, sq: Square)
    ensures
        final(s)@ == old(s)@ + square_text(sq@),
        sq@.wf(),
{
    let x = sq.x();
    let y = sq.y();
    push_char(s, (x + ('1' as u8)) as char);
    push_char(s, (y + ('a' as u8)) as char);
    assert(s@ =~= old(s)@ + square_text(sq@));
}

/// The text of a move.
pub fn encode_move(mv: Move) -> (s: String)
    ensures
        s@ == move_text(mv@),
        mv@.wf(),
{
    let mut s = String::new();
    match mv {
        Move::Nondrop(nondrop) => {
            push_sq(&mut s, nondrop.src());
            push_sq(&mut s, nondrop.dst());
            if nondrop.is_promotion() {
                push_char(&mut s, '+');
            }
        },
        Move::Drop(drop) => {
            push_char(&mut s, type_char(drop.pt()));
            push_char(&mut s, '*');
            push_sq(&mut s, drop.dst());
        },
    }
    assert(s@ =~= move_text(mv@));
    s
}

/// The writing of one row of the board: the text so far and the length of
/// the run of empty cells that is not written yet.
struct RowText {
    s_row: String,
    n_empty: u8,
}

impl RowText {
    fn new() -> (st: RowText)
        ensures
            st.s_row@ == Seq::<char>::empty(),
            st.n_empty == 0,
    {
        RowText { s_row: String::new(), n_empty: 0 }
    }

    /// Takes in the next cell of the row.
    fn eat(&mut self, cell: BoardCell)
        requires
            old(self).n_empty < 9,
        ensures
            match cell {
                BoardCell::Empty => final(self).s_row@ == old(self).s_row@ && final(self).n_empty
                    == old(self).n_empty + 1,
                BoardCell::Piece(side, pt) => final(self).s_row@ == old(self).s_row@ + run_text(
                    old(self).n_empty as nat,
                ) + piece_text(side, pt) && final(self).n_empty == 0,
            },
    {
        match cell {
            BoardCell::Empty => {
                self.n_empty += 1;
            },
            BoardCell::Piece(side, pt) => {
                self.flush_emptys();
                let s_piece = encode_piece(side, pt);
                self.s_row.append(s_piece.as_str());
            },
        }
    }

    /// Writes the run of empty cells, if there is one.
    fn flush_emptys(&mut self)
        requires
            old(self).n_empty <= 9,
        ensures
            final(self).s_row@ == old(self).s_row@ + run_text(old(self).n_empty as nat),
            final(self).n_empty == 0,
    {
        if self.n_empty > 0 {
            push_char(&mut self.s_row, digit_of(self.n_empty));
            self.n_empty = 0;
            assert(self.s_row@ =~= old(self).s_row@ + run_text(old(self).n_empty as nat));
        } else {
            assert(self.s_row@ =~= old(self).s_row@ + run_text(old(self).n_empty as nat));
        }
    }
}

/// The text of one row of the board.
pub fn encode_board_row(row: &Vec<BoardCell>) -> (s: String)
    requires
        row@.len() <= 9,
    ensures
        s@ == row_text(row@),
{
    let mut state = RowText::new();
    let mut i: usize = 0;
    assert(row@.skip(0) =~= row@);
    assert(Seq::<char>::empty() + row_text(row@) =~= row_text(row@));
    while i < row.len()
        invariant
            i <= row.len(),
            row@.len() <= 9,
            state.n_empty <= i,
            row_text(row@) == state.s_row@ + row_text_from(
                state.n_empty as nat,
                row@.skip(i as int),
            ),
        decreases row.len() - i,
    {
        let ghost before = state.s_row@;
        let ghost run = state.n_empty as nat;
        proof {
            assert(row@.skip(i as int).drop_first() =~= row@.skip(i + 1));
        }
        state.eat(row[i]);
        proof {
            let rest = row_text_from(0, row@.skip(i + 1));
            match row@[i as int] {
                BoardCell::Empty => {},
                BoardCell::Piece(side, pt) => {
                    assert(before + (run_text(run) + piece_text(side, pt) + rest) =~= before
                        + run_text(run) + piece_text(side, pt) + rest);
                },
            }
        }
        i += 1;
    }
    state.flush_emptys();
    state.s_row
}

/// The text of the board.
pub fn encode_board(board: &Board) -> (s: String)
    ensures
        s@ == board_text(board@),
{
    proof {
        board.lemma_view_len();
    }
    let mut parts: Vec<String> = Vec::new();
    let mut y: u8 = 0;
    while y < 9
        invariant
            y <= 9,
            board@.len() == 81,
            parts@.len() == y,
            forall|j: int| 0 <= j < y ==> (#[trigger] parts@[j])@ == row_text(board_row(board@, j)),
        decreases 9 - y,
    {
        let mut row: Vec<BoardCell> = Vec::new();
        let mut x: u8 = 0;
        while x < 9
            invariant
                x <= 9,
                y < 9,
                board@.len() == 81,
                row@.len() == x,
                forall|i: int| 0 <= i < x ==> row@[i] == board@[cell_index(i, y as int)],
            decreases 9 - x,
        {
            row.push(board.at(x, y));
            x += 1;
        }
        assert(row@ =~= board_row(board@, y as int));
        parts.push(encode_board_row(&row));
        y += 1;
    }
    assert(string_texts(parts@) =~= row_texts(board@));
    join_strings(&parts, "/")
}

/// The text of the side to move.
pub fn encode_side(side: Side) -> (s: String)
    ensures
        s@ == side_text(side),
{
    match side {
        Side::Sente => String::from_str("b"),
        Side::Gote => String::from_str("w"),
    }
}

/// The hand piece type at place `k` of the order in which a hand is written.
fn hand_order_at(k: usize) -> (pt: PieceType)
    requires
        k < 7,
    ensures
        pt == hand_order()[k as int],
        pt.is_hand(),
{
    if k == 0 {
        PieceType::Rook
    } else if k == 1 {
        PieceType::Bishop
    } else if k == 2 {
        PieceType::Gold
    } else if k == 3 {
        PieceType::Silver
    } else if k == 4 {
        PieceType::Knight
    } else if k == 5 {
        PieceType::Lance
    } else {
        PieceType::Pawn
    }
}

/// Puts the entry of `n` pieces of type `pt` in the hand of `side` at the end
/// of `s`.
fn push_hand_entry(s: &mut String, side: Side, pt: PieceType, n: u8)
    ensures
        final(s)@ == old(s)@ + hand_entry_text(side, pt, n),
{
    if n >= 2 {
        push_nat(s, n as u32);
    }
    if n >= 1 {
        push_char(s, piece_char(side, pt));
    }
    assert(s@ =~= old(s)@ + hand_entry_text(side, pt, n));
}

/// The text of the two hands.
pub fn encode_hands(hand_sente: &Hand, hand_gote: &Hand) -> (s: String)
    ensures
        s@ == hands_text(hand_sente@, hand_gote@),
{
    if hand_sente.is_empty() && hand_gote.is_empty() {
        return String::from_str("-");
    }
    let mut s = String::new();
    let mut k: usize = 0;
    assert(s@ + hands_text_from(hand_sente@, hand_gote@, 0) =~= hands_text_from(
        hand_sente@,
        hand_gote@,
        0,
    ));
    while k < 7
        invariant
            k <= 7,
            hands_text_from(hand_sente@, hand_gote@, 0) == s@ + hands_text_from(
                hand_sente@,
                hand_gote@,
                k as int,
            ),
        decreases 7 - k,
    {
        let ghost before = s@;
        let pt = hand_order_at(k);
        let n_sente = hand_sente.count(pt);
        let n_gote = hand_gote.count(pt);
        push_hand_entry(&mut s, Side::Sente, pt, n_sente);
        push_hand_entry(&mut s, Side::Gote, pt, n_gote);
        proof {
            let rest = hands_text_from(hand_sente@, hand_gote@, k + 1);
            assert(before + (hand_entry_text(Side::Sente, pt, n_sente) + hand_entry_text(
                Side::Gote,
                pt,
                n_gote,
            ) + rest) =~= s@ + rest);
        }
        k += 1;
    }
    assert(s@ + hands_text_from(hand_sente@, hand_gote@, 7) =~= s@);
    s
}

/// The text of the ply count.
pub fn encode_ply(ply: i32) -> (s: String)
    ensures
        s@ == ply_text(ply),
{
    let mut s = String::new();
    if ply < 0 {
        push_char(&mut s, '-');
        push_nat(&mut s, (-(ply as i64)) as u32);
    } else {
        push_nat(&mut s, ply as u32);
    }
    assert(s@ =~= ply_text(ply));
    s
}

/// The text of a list of moves, with the word `moves` before them.
pub fn encode_moves(mvs: &[Move]) -> (s: String)
    ensures
        s@ == moves_text(move_views(mvs@)),
        forall|i: int| 0 <= i < mvs@.len() ==> (#[trigger] mvs@[i])@.wf(),
{
    let mut parts: Vec<String> = Vec::new();
    parts.push(String::from_str("moves"));
    let mut i: usize = 0;
    while i < mvs.len()
        invariant
            i <= mvs.len(),
            parts@.len() == i + 1,
            parts@[0]@ == "moves"@,
            forall|j: int| 1 <= j <= i ==> (#[trigger] parts@[j])@ == move_text(mvs@[j - 1]@),
            forall|j: int| 0 <= j < i ==> (#[trigger] mvs@[j])@.wf(),
        decreases mvs.len() - i,
    {
        parts.push(encode_move(mvs[i]));
        i += 1;
    }
    assert(string_texts(parts@) =~= seq!["moves"@] + move_texts(move_views(mvs@)));
    join_strings(&parts, " ")
}

/// The text of a position.
pub fn encode_pos(pos: &Position) -> (s: String)
    ensures
        s@ == position_text(pos@),
{
    let s_board = encode_board(pos.board());
    let s_side = encode_side(pos.side());
    let s_hands = encode_hands(pos.hand(Side::Sente), pos.hand(Side::Gote));
    let s_ply = encode_ply(pos.ply());
    let mut s = String::from_str("sfen");
    s.append(" ");
    s.append(s_board.as_str());
    s.append(" ");
    s.append(s_side.as_str());
    s.append(" ");
    s.append(s_hands.as_str());
    s.append(" ");
    s.append(s_ply.as_str());
    s
}

/// Writes a record: the canonical text of a position and the moves that
/// follow it. The moves are left out where there is none. Reading the text
/// gives the position back, and the moves as they are written.
pub fn encode(pos: &Position, mvs: &[Move]) -> (s: String)
    ensures
        s@ == encoded(pos@, move_views(mvs@)),
        decoded(s@) == Reading::<(PositionView, Seq<MoveView>)>::Ok(
            (pos@, canonical_moves(move_views(mvs@))),
        ),
{
    let mut s = encode_pos(pos);
    if mvs.len() > 0 {
        let s_moves = encode_moves(mvs);
        s.append(" ");
        s.append(s_moves.as_str());
    }
    proof {
        pos.lemma_view_wf();
        lemma_encoded_roundtrip(pos@, move_views(mvs@));
    }
    s
}

} // verus!

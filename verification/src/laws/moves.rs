//! Squares, moves and ply counts.

use vstd::prelude::*;
use crate::grammar::{
    file_char, move_list_of, move_of, move_text, move_texts, ply_digits, ply_of, ply_step, ply_text,
    rank_char, square_of, Reading,
};
use crate::laws::board::{lemma_base_of_type, lemma_letter_of_piece};
use crate::laws::words::{lemma_digit_char, lemma_nat_text_digits, spaceless};
use crate::moves::{canonical_moves, moves_wf, MoveView};
use crate::piece::Side;
use crate::square::Coord;
use crate::text::{digit_char, is_digit, is_space, nat_text};

verus! {

/// Reading the two characters of a square's text gives the square.
pub proof fn lemma_square_of_text(sq: Coord)
    requires
        sq.wf(),
    ensures
        square_of(file_char(sq.file), rank_char(sq.rank)) == Reading::<Coord>::Ok(sq),
        '1' <= file_char(sq.file) <= '9',
        'a' <= rank_char(sq.rank) <= 'i',
{
}

/// Reading the text of a move gives the move as it is written, and the move
/// as it is written has the same text. The text is one word.
pub proof fn lemma_move_of_text(mv: MoveView)
    requires
        mv.wf(),
    ensures
        move_of(move_text(mv)) == Reading::<MoveView>::Ok(mv.canonical()),
        move_text(mv.canonical()) == move_text(mv),
        move_text(mv).len() > 0,
        spaceless(move_text(mv)),
{
    match mv {
        MoveView::Nondrop { src, dst, promotion } => {
            lemma_square_of_text(src);
            lemma_square_of_text(dst);
        },
        MoveView::Drop { piece, dst } => {
            lemma_square_of_text(dst);
            lemma_letter_of_piece(Side::Sente, piece);
            lemma_base_of_type(piece);
        },
    }
}

/// Reading the texts of a list of moves gives the moves as they are written.
pub proof fn lemma_move_list_of_texts(mvs: Seq<MoveView>)
    requires
        moves_wf(mvs),
    ensures
        move_list_of(move_texts(mvs)) == Reading::<Seq<MoveView>>::Ok(canonical_moves(mvs)),
        move_texts(canonical_moves(mvs)) == move_texts(mvs),
    decreases mvs.len(),
{
    if mvs.len() == 0 {
        assert(canonical_moves(mvs) =~= Seq::<MoveView>::empty());
    } else {
        let tail = mvs.drop_first();
        assert(move_texts(mvs).drop_first() =~= move_texts(tail));
        assert forall|i: int| 0 <= i < tail.len() implies (#[trigger] tail[i]).wf() by {
            assert(tail[i] == mvs[i + 1]);
        }
        lemma_move_of_text(mvs[0]);
        lemma_move_list_of_texts(tail);
        assert(seq![mvs[0].canonical()] + canonical_moves(tail) =~= canonical_moves(mvs));
    }
    assert forall|i: int| 0 <= i < mvs.len() implies move_text(#[trigger] mvs[i].canonical())
        == move_text(mvs[i]) by {
        lemma_move_of_text(mvs[i]);
    }
    assert(move_texts(canonical_moves(mvs)) =~= move_texts(mvs));
}

/// Reading a text of digits in two pieces is reading the first piece and
/// then, from the number that it gave, the second.
pub proof fn lemma_ply_digits_concat(acc: int, negative: bool, a: Seq<char>, b: Seq<char>)
    ensures
        ply_digits(acc, negative, a + b) == match ply_digits(acc, negative, a) {
            Err(msg) => Err(msg),
            Ok(mid) => ply_digits(mid, negative, b),
        },
    decreases a.len(),
{
    if a.len() == 0 {
        assert(a + b =~= b);
    } else {
        assert((a + b)[0] == a[0]);
        assert((a + b).drop_first() =~= a.drop_first() + b);
        match ply_step(acc, negative, a[0]) {
            Err(_) => {},
            Ok(next) => {
                lemma_ply_digits_concat(next, negative, a.drop_first(), b);
            },
        }
    }
}

/// Reading the decimal text of a number gives the number, or the number
/// below zero of the same size, where that is in the range of a ply count.
pub proof fn lemma_ply_digits_of_text(n: nat, negative: bool)
    requires
        negative ==> n <= 0x8000_0000,
        !negative ==> n <= 0x7fff_ffff,
    ensures
        ply_digits(0, negative, nat_text(n)) == Reading::<int>::Ok(
            if negative {
                -(n as int)
            } else {
                n as int
            },
        ),
    decreases n,
{
    reveal_with_fuel(ply_digits, 2);
    lemma_digit_char((n % 10) as int);
    let last = seq![digit_char((n % 10) as int)];
    assert(last.drop_first() =~= Seq::<char>::empty());
    if n >= 10 {
        lemma_ply_digits_of_text(n / 10, negative);
        lemma_ply_digits_concat(0, negative, nat_text(n / 10), last);
        assert(nat_text(n) =~= nat_text(n / 10) + last);
    } else {
        assert(nat_text(n) =~= last);
    }
}

/// Reading the text of a ply count gives the ply count. The text is one word.
pub proof fn lemma_ply_of_text(ply: i32)
    ensures
        ply_of(ply_text(ply)) == Reading::<i32>::Ok(ply),
        ply_text(ply).len() > 0,
        spaceless(ply_text(ply)),
{
    if ply < 0 {
        let n = (-(ply as int)) as nat;
        lemma_nat_text_digits(n);
        lemma_ply_digits_of_text(n, true);
        assert(ply_text(ply).drop_first() =~= nat_text(n));
        assert forall|i: int| 0 <= i < ply_text(ply).len() implies !is_space(
            #[trigger] ply_text(ply)[i],
        ) by {
            if i > 0 {
                assert(ply_text(ply)[i] == nat_text(n)[i - 1]);
            }
        }
    } else {
        let n = ply as nat;
        lemma_nat_text_digits(n);
        lemma_ply_digits_of_text(n, false);
        assert(is_digit(nat_text(n)[0]));
    }
}

} // verus!

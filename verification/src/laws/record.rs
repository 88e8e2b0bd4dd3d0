//! Whole records.

use vstd::prelude::*;
use crate::grammar::{
    board_of, board_text, decoded, encoded, fields_position, hands_text, move_texts, ply_text,
    row_of, rows_of, side_of, side_text, Reading,
};
use crate::laws::board::{lemma_board_of_text, lemma_row_overflow_refused, row_width};
use crate::laws::hands::lemma_hands_of_text;
use crate::laws::moves::{lemma_move_list_of_texts, lemma_move_of_text, lemma_ply_of_text};
use crate::laws::words::{lemma_tokens_of_join, spaceless};
use crate::moves::{canonical_moves, moves_wf, MoveView};
use crate::piece::Side;
use crate::position::PositionView;
use crate::text::{join, split, tokens};

verus! {

/// The words of the canonical text of a position and a list of moves.
pub open spec fn record_words(pos: PositionView, mvs: Seq<MoveView>) -> Seq<Seq<char>> {
    let fields = seq![
        "sfen"@,
        board_text(pos.board),
        side_text(pos.side),
        hands_text(pos.hand_sente, pos.hand_gote),
        ply_text(pos.ply),
    ];
    if mvs.len() == 0 {
        fields
    } else {
        fields + (seq!["moves"@] + move_texts(mvs))
    }
}

/// A text made of a first part, the separator and the parts behind it.
proof fn lemma_join_first(first: Seq<char>, rest: Seq<Seq<char>>, sep: Seq<char>)
    requires
        rest.len() > 0,
    ensures
        join(seq![first] + rest, sep) == first + sep + join(rest, sep),
{
    assert((seq![first] + rest).drop_first() =~= rest);
}

/// The canonical text of a record is its words with one space between each
/// two.
pub proof fn lemma_encoded_words(pos: PositionView, mvs: Seq<MoveView>)
    ensures
        encoded(pos, mvs) == join(record_words(pos, mvs), " "@),
{
    let sp = " "@;
    let board = board_text(pos.board);
    let side = side_text(pos.side);
    let hands = hands_text(pos.hand_sente, pos.hand_gote);
    let ply = ply_text(pos.ply);
    let tail = if mvs.len() == 0 {
        Seq::<Seq<char>>::empty()
    } else {
        seq!["moves"@] + move_texts(mvs)
    };
    let w4 = seq![ply] + tail;
    let w3 = seq![hands] + w4;
    let w2 = seq![side] + w3;
    let w1 = seq![board] + w2;
    let w0 = seq!["sfen"@] + w1;
    assert(w0 =~= record_words(pos, mvs));
    lemma_join_first("sfen"@, w1, sp);
    lemma_join_first(board, w2, sp);
    lemma_join_first(side, w3, sp);
    lemma_join_first(hands, w4, sp);
    if mvs.len() == 0 {
        assert(w4 =~= seq![ply]);
        assert(encoded(pos, mvs) =~= join(w0, sp));
    } else {
        lemma_join_first(ply, tail, sp);
        assert(encoded(pos, mvs) =~= join(w0, sp));
    }
}

/// Reading the canonical text of a position and a list of moves gives the
/// position and the moves as they are written, and these have the same
/// canonical text: what `encode` writes, `decode` reads, and writing that
/// again gives the same text.
pub proof fn lemma_encoded_roundtrip(pos: PositionView, mvs: Seq<MoveView>)
    requires
        pos.wf(),
        moves_wf(mvs),
    ensures
        decoded(encoded(pos, mvs)) == Reading::<(PositionView, Seq<MoveView>)>::Ok(
            (pos, canonical_moves(mvs)),
        ),
        encoded(pos, canonical_moves(mvs)) == encoded(pos, mvs),
{
    let words = record_words(pos, mvs);
    reveal_strlit("sfen");
    reveal_strlit("startpos");
    reveal_strlit("moves");
    reveal_strlit("b");
    reveal_strlit("w");
    lemma_board_of_text(pos.board);
    lemma_hands_of_text(pos.hand_sente, pos.hand_gote);
    lemma_ply_of_text(pos.ply);
    lemma_move_list_of_texts(mvs);
    assert(side_of(side_text(pos.side)) == Reading::<Side>::Ok(pos.side)) by {
        assert("b"@[0] != "w"@[0]);
    }
    assert forall|i: int| 0 <= i < words.len() implies (#[trigger] words[i]).len() > 0
        && spaceless(words[i]) by {
        if i >= 6 {
            assert(words[i] == move_texts(mvs)[i - 6]);
            lemma_move_of_text(mvs[i - 6]);
        }
    }
    lemma_encoded_words(pos, mvs);
    lemma_tokens_of_join(words);
    assert(words[0] != "startpos"@) by {
        assert("sfen"@.len() != "startpos"@.len());
    }
    assert(fields_position(words[1], words[2], words[3], words[4]) == Reading::<
        PositionView,
    >::Ok(pos));
    if mvs.len() == 0 {
        assert(words.skip(5) =~= Seq::<Seq<char>>::empty());
        assert(canonical_moves(mvs) =~= Seq::<MoveView>::empty());
    } else {
        assert(words.skip(5) =~= seq!["moves"@] + move_texts(mvs));
        assert(words.skip(5).drop_first() =~= move_texts(mvs));
    }
}

/// The word `startpos` stands for what the record of the opening position
/// stands for.
pub proof fn lemma_startpos()
    ensures
        decoded("startpos"@) == decoded(
            "sfen lnsgkgsnl/1r5b1/ppppppppp/9/9/9/PPPPPPPPP/1B5R1/LNSGKGSNL b - 1"@,
        ),
{
    let board = "lnsgkgsnl/1r5b1/ppppppppp/9/9/9/PPPPPPPPP/1B5R1/LNSGKGSNL"@;
    let record = "sfen lnsgkgsnl/1r5b1/ppppppppp/9/9/9/PPPPPPPPP/1B5R1/LNSGKGSNL b - 1"@;
    let short = seq!["startpos"@];
    let long = seq!["sfen"@, board, "b"@, "-"@, "1"@];
    reveal_strlit("startpos");
    reveal_strlit("sfen");
    reveal_strlit("lnsgkgsnl/1r5b1/ppppppppp/9/9/9/PPPPPPPPP/1B5R1/LNSGKGSNL");
    reveal_strlit("b");
    reveal_strlit("-");
    reveal_strlit("1");
    reveal_strlit(" ");
    reveal_strlit("sfen lnsgkgsnl/1r5b1/ppppppppp/9/9/9/PPPPPPPPP/1B5R1/LNSGKGSNL b - 1");
    lemma_tokens_of_join(short);
    lemma_tokens_of_join(long);
    assert(short.skip(1) =~= Seq::<Seq<char>>::empty());
    assert(long.skip(5) =~= Seq::<Seq<char>>::empty());
    assert("sfen"@.len() != "startpos"@.len());
    reveal_with_fuel(join, 5);
    assert(long.drop_first() =~= seq![board, "b"@, "-"@, "1"@]);
    assert(long.drop_first().drop_first() =~= seq!["b"@, "-"@, "1"@]);
    assert(long.drop_first().drop_first().drop_first() =~= seq!["-"@, "1"@]);
    assert(long.drop_first().drop_first().drop_first().drop_first() =~= seq!["1"@]);
    assert(join(long, " "@) =~= record);
}

/// Where one row of a board is refused, the board is refused.
pub proof fn lemma_rows_of_refused(rows: Seq<Seq<char>>, y: int)
    requires
        0 <= y < rows.len(),
        row_of(rows[y]) is Err,
    ensures
        rows_of(rows) is Err,
    decreases rows.len(),
{
    if y > 0 {
        lemma_rows_of_refused(rows.drop_first(), y - 1);
    }
}

/// A board with a row whose text asks for more than nine cells is refused.
pub proof fn lemma_board_overflow_refused(s: Seq<char>, y: int)
    requires
        0 <= y < split(s, '/').len(),
        row_width(split(s, '/')[y]) > 9,
    ensures
        board_of(s) is Err,
{
    lemma_row_overflow_refused(split(s, '/')[y]);
    lemma_rows_of_refused(split(s, '/'), y);
}

/// A record whose board has a row that asks for more than nine cells is
/// refused.
pub proof fn lemma_record_overflow_refused(text: Seq<char>, y: int)
    requires
        tokens(text).len() >= 2,
        tokens(text)[0] == "sfen"@,
        0 <= y < split(tokens(text)[1], '/').len(),
        row_width(split(tokens(text)[1], '/')[y]) > 9,
    ensures
        decoded(text) is Err,
{
    reveal_strlit("sfen");
    reveal_strlit("startpos");
    assert("sfen"@.len() != "startpos"@.len());
    lemma_board_overflow_refused(tokens(text)[1], y);
}

} // verus!

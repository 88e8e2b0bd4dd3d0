//! Rows and boards.

use vstd::prelude::*;
use crate::grammar::{
    board_of, board_row, board_text, empty_cells, letter_piece, letter_type, piece_letter,
    piece_text, row_of, row_scan, row_step, row_text, row_text_from, row_texts, rows_of, run_text,
    type_letter, Reading, RowScan,
};
use crate::laws::words::{free_of, lemma_digit_char, lemma_split_of_join, spaceless};
use crate::piece::{BoardCell, PieceType, Side};
use crate::text::{digit_value, is_digit, is_space, join};

verus! {

/// The letters of the alphabet of either case.
pub open spec fn is_letter(c: char) -> bool {
    'A' <= c <= 'Z' || 'a' <= c <= 'z'
}

/// Every character of `s` is a letter, a digit or `+`.
pub open spec fn cell_chars(s: Seq<char>) -> bool {
    forall|i: int| 0 <= i < s.len() ==> is_letter(#[trigger] s[i]) || is_digit(s[i]) || s[i] == '+'
}

/// The letter of a piece is a letter, and it stands for the side of the piece
/// and for the unpromoted type that the piece is or was. The capital letter
/// stands for that type.
pub proof fn lemma_letter_of_piece(side: Side, pt: PieceType)
    ensures
        is_letter(piece_letter(side, pt)),
        letter_piece(piece_letter(side, pt)) == Some((side, pt.spec_base())),
        letter_type(type_letter(pt)) == Some(pt.spec_base()),
        'A' <= type_letter(pt) <= 'Z',
{
}

/// A promoted type is the promoted form of its unpromoted type, and a type
/// that is not promoted is its own unpromoted type.
pub proof fn lemma_base_of_type(pt: PieceType)
    ensures
        pt.spec_is_promoted() ==> pt.spec_base().spec_to_promoted() == Some(pt),
        !pt.spec_is_promoted() ==> pt.spec_base() == pt,
        !pt.spec_base().spec_is_promoted(),
{
}

/// Reading a text in two pieces is reading the first piece and then, from
/// where that ended, the second.
pub proof fn lemma_row_scan_concat(st: RowScan, a: Seq<char>, b: Seq<char>)
    ensures
        row_scan(st, a + b) == match row_scan(st, a) {
            Err(msg) => Err(msg),
            Ok(mid) => row_scan(mid, b),
        },
    decreases a.len(),
{
    if a.len() == 0 {
        assert(a + b =~= b);
    } else {
        assert((a + b)[0] == a[0]);
        assert((a + b).drop_first() =~= a.drop_first() + b);
        match row_step(st, a[0]) {
            Err(_) => {},
            Ok(next) => {
                lemma_row_scan_concat(next, a.drop_first(), b);
            },
        }
    }
}

/// Reading the text of a run of empty cells adds those cells.
pub proof fn lemma_row_scan_run(st: RowScan, run: nat)
    requires
        !st.promote,
        st.cells.len() + run <= 9,
    ensures
        row_scan(st, run_text(run)) == Reading::<RowScan>::Ok(
            RowScan { cells: st.cells + empty_cells(run as int), promote: false },
        ),
{
    reveal_with_fuel(row_scan, 2);
    if run == 0 {
        assert(st.cells + empty_cells(0) =~= st.cells);
    } else {
        lemma_digit_char(run as int);
        assert(run_text(run).drop_first() =~= Seq::<char>::empty());
    }
}

/// Reading the text of a piece adds that piece.
pub proof fn lemma_row_scan_piece(st: RowScan, side: Side, pt: PieceType)
    requires
        !st.promote,
        st.cells.len() < 9,
    ensures
        row_scan(st, piece_text(side, pt)) == Reading::<RowScan>::Ok(
            RowScan { cells: st.cells.push(BoardCell::Piece(side, pt)), promote: false },
        ),
{
    reveal_with_fuel(row_scan, 3);
    lemma_letter_of_piece(side, pt);
    lemma_base_of_type(pt);
    let text = piece_text(side, pt);
    if pt.spec_is_promoted() {
        assert(text.drop_first() =~= seq![piece_letter(side, pt)]);
        assert(text.drop_first().drop_first() =~= Seq::<char>::empty());
    } else {
        assert(text.drop_first() =~= Seq::<char>::empty());
    }
}

/// Reading the text of the rest of a row, from where the cells before it
/// were read, gives the whole row.
pub proof fn lemma_row_scan_text(done: Seq<BoardCell>, run: nat, cells: Seq<BoardCell>)
    requires
        done.len() + run + cells.len() <= 9,
    ensures
        row_scan(RowScan { cells: done, promote: false }, row_text_from(run, cells))
            == Reading::<RowScan>::Ok(
            RowScan { cells: done + empty_cells(run as int) + cells, promote: false },
        ),
    decreases cells.len(),
{
    let st = RowScan { cells: done, promote: false };
    if cells.len() == 0 {
        lemma_row_scan_run(st, run);
        assert(done + empty_cells(run as int) + cells =~= done + empty_cells(run as int));
    } else {
        let tail = cells.drop_first();
        match cells[0] {
            BoardCell::Empty => {
                lemma_row_scan_text(done, run + 1, tail);
                assert(done + empty_cells(run as int + 1) + tail =~= done + empty_cells(run as int)
                    + cells);
            },
            BoardCell::Piece(side, pt) => {
                let filled = done + empty_cells(run as int);
                let mid = RowScan { cells: filled, promote: false };
                let next = RowScan { cells: filled.push(cells[0]), promote: false };
                lemma_row_scan_run(st, run);
                lemma_row_scan_concat(st, run_text(run), piece_text(side, pt));
                lemma_row_scan_piece(mid, side, pt);
                lemma_row_scan_concat(
                    st,
                    run_text(run) + piece_text(side, pt),
                    row_text_from(0, tail),
                );
                lemma_row_scan_text(next.cells, 0, tail);
                assert(next.cells + empty_cells(0) + tail =~= done + empty_cells(run as int)
                    + cells);
            },
        }
    }
}

/// Reading the text of a row gives the row.
pub proof fn lemma_row_of_text(cells: Seq<BoardCell>)
    requires
        cells.len() <= 9,
    ensures
        row_of(row_text(cells)) == Reading::<Seq<BoardCell>>::Ok(cells),
{
    let empty = Seq::<BoardCell>::empty();
    lemma_row_scan_text(empty, 0, cells);
    assert(empty + empty_cells(0) + cells =~= cells);
}

/// The text of a row is made of letters, digits and `+`.
pub proof fn lemma_row_text_chars(run: nat, cells: Seq<BoardCell>)
    requires
        run + cells.len() <= 9,
    ensures
        cell_chars(row_text_from(run, cells)),
    decreases cells.len(),
{
    lemma_digit_char(run as int);
    if cells.len() > 0 {
        match cells[0] {
            BoardCell::Empty => {
                lemma_row_text_chars(run + 1, cells.drop_first());
            },
            BoardCell::Piece(side, pt) => {
                lemma_letter_of_piece(side, pt);
                lemma_row_text_chars(0, cells.drop_first());
            },
        }
    }
}

/// Reading the texts of the rows of a board from row `k` on gives the cells
/// of the board from that row on.
pub proof fn lemma_rows_of_texts(board: Seq<BoardCell>, k: int)
    requires
        board.len() == 81,
        0 <= k <= 9,
    ensures
        rows_of(row_texts(board).skip(k)) == Reading::<Seq<BoardCell>>::Ok(board.skip(9 * k)),
    decreases 9 - k,
{
    let rows = row_texts(board).skip(k);
    if k == 9 {
        assert(board.skip(81) =~= Seq::<BoardCell>::empty());
    } else {
        assert(rows[0] == row_text(board_row(board, k)));
        assert(rows.drop_first() =~= row_texts(board).skip(k + 1));
        lemma_row_of_text(board_row(board, k));
        lemma_rows_of_texts(board, k + 1);
        assert(board_row(board, k) + board.skip(9 * (k + 1)) =~= board.skip(9 * k));
    }
}

/// Reading the text of a board gives the board.
pub proof fn lemma_board_of_text(board: Seq<BoardCell>)
    requires
        board.len() == 81,
    ensures
        board_of(board_text(board)) == Reading::<Seq<BoardCell>>::Ok(board),
        board_text(board).len() > 0,
        spaceless(board_text(board)),
{
    reveal_strlit("/");
    assert("/"@ =~= seq!['/']);
    let rows = row_texts(board);
    assert forall|y: int| 0 <= y < 9 implies free_of(#[trigger] rows[y], '/') && spaceless(
        rows[y],
    ) by {
        lemma_row_text_chars(0, board_row(board, y));
    }
    lemma_split_of_join(rows, '/');
    lemma_rows_of_texts(board, 0);
    assert(rows.skip(0) =~= rows);
    assert(board.skip(0) =~= board);
    lemma_join_chars(rows, '/');
}

/// A text made of parts with a separator between each two is not empty where
/// there are two parts or more, and has no space in it where the parts have
/// none and the separator is none.
pub proof fn lemma_join_chars(parts: Seq<Seq<char>>, sep: char)
    requires
        !is_space(sep),
        forall|i: int| 0 <= i < parts.len() ==> spaceless(#[trigger] parts[i]),
    ensures
        spaceless(join(parts, seq![sep])),
        parts.len() >= 2 ==> join(parts, seq![sep]).len() > 0,
    decreases parts.len(),
{
    if parts.len() >= 2 {
        let rest = parts.drop_first();
        assert forall|i: int| 0 <= i < rest.len() implies spaceless(#[trigger] rest[i]) by {
            assert(rest[i] == parts[i + 1]);
        }
        lemma_join_chars(rest, sep);
    }
}

/// How many cells the text of a row asks for: a digit for as many as it says,
/// a letter of a piece for one.
pub open spec fn row_width(s: Seq<char>) -> int
    decreases s.len(),
{
    if s.len() == 0 {
        0
    } else {
        let first = if '1' <= s[0] <= '9' {
            digit_value(s[0])
        } else if letter_piece(s[0]) is Some {
            1
        } else {
            0
        };
        first + row_width(s.drop_first())
    }
}

/// A row that is read to the end has as many cells more as its text asks
/// for, and never more than nine.
pub proof fn lemma_row_scan_width(st: RowScan, s: Seq<char>)
    requires
        st.cells.len() <= 9,
    ensures
        row_scan(st, s) matches Ok(end) ==> end.cells.len() == st.cells.len() + row_width(s)
            && end.cells.len() <= 9,
    decreases s.len(),
{
    if s.len() > 0 {
        match row_step(st, s[0]) {
            Err(_) => {},
            Ok(next) => {
                lemma_row_scan_width(next, s.drop_first());
            },
        }
    }
}

/// A row whose text asks for more than nine cells is refused.
pub proof fn lemma_row_overflow_refused(s: Seq<char>)
    requires
        row_width(s) > 9,
    ensures
        row_of(s) is Err,
{
    lemma_row_scan_width(RowScan { cells: Seq::empty(), promote: false }, s);
}

/// The text of a row asks for as many cells as the row has.
pub proof fn lemma_row_text_width(cells: Seq<BoardCell>)
    requires
        cells.len() <= 9,
    ensures
        row_width(row_text(cells)) == cells.len(),
{
    lemma_row_of_text(cells);
    lemma_row_scan_width(RowScan { cells: Seq::empty(), promote: false }, row_text(cells));
}

} // verus!

//! The notation itself, as functions on texts.
//!
//! The functions whose names end in `_text` say what the canonical text of a
//! value is. The functions whose names end in `_of` say what a text stands
//! for, or with which message it is refused. A text is read from left to
//! right, and the first fault that is met decides the message.

use vstd::prelude::*;
use crate::moves::MoveView;
use crate::piece::{BoardCell, PieceType, Side};
use crate::position::PositionView;
use crate::square::Coord;
use crate::hand::{empty_hand, hand_is_empty};
use crate::text::{digit_char, digit_value, is_digit, join, nat_text, int_text, split, tokens};

verus! {

/// What reading a text gives: a value, or the message that says why the text
/// was refused.
pub type Reading<T> = Result<T, Seq<char>>;

/// The capital letter of the unpromoted type that `pt` is or was.
pub open spec fn type_letter(pt: PieceType) -> char {
    match pt.spec_base() {
        PieceType::Pawn => 'P',
        PieceType::Lance => 'L',
        PieceType::Knight => 'N',
        PieceType::Silver => 'S',
        PieceType::Bishop => 'B',
        PieceType::Rook => 'R',
        PieceType::Gold => 'G',
        _ => 'K',
    }
}

/// The unpromoted piece type that a capital letter stands for.
pub open spec fn letter_type(c: char) -> Option<PieceType> {
    if c == 'P' {
        Some(PieceType::Pawn)
    } else if c == 'L' {
        Some(PieceType::Lance)
    } else if c == 'N' {
        Some(PieceType::Knight)
    } else if c == 'S' {
        Some(PieceType::Silver)
    } else if c == 'B' {
        Some(PieceType::Bishop)
    } else if c == 'R' {
        Some(PieceType::Rook)
    } else if c == 'G' {
        Some(PieceType::Gold)
    } else if c == 'K' {
        Some(PieceType::King)
    } else {
        None
    }
}

/// The small letter that belongs to a capital letter; any other character
/// as it is.
pub open spec fn to_lower(c: char) -> char {
    if 'A' <= c <= 'Z' {
        (c as int + 32) as char
    } else {
        c
    }
}

/// The capital letter that belongs to a small letter; any other character
/// as it is.
pub open spec fn to_upper(c: char) -> char {
    if 'a' <= c <= 'z' {
        (c as int - 32) as char
    } else {
        c
    }
}

/// The letter of a piece: a capital letter for `Side::Sente`, a small one for
/// `Side::Gote`.
pub open spec fn piece_letter(side: Side, pt: PieceType) -> char {
    match side {
        Side::Sente => type_letter(pt),
        Side::Gote => to_lower(type_letter(pt)),
    }
}

/// The side and the unpromoted piece type that a letter stands for.
pub open spec fn letter_piece(c: char) -> Option<(Side, PieceType)> {
    if 'A' <= c <= 'Z' {
        match letter_type(c) {
            Some(pt) => Some((Side::Sente, pt)),
            None => None,
        }
    } else if 'a' <= c <= 'z' {
        match letter_type(to_upper(c)) {
            Some(pt) => Some((Side::Gote, pt)),
            None => None,
        }
    } else {
        None
    }
}

// ---------------------------------------------------------------------------
// Squares and moves
// ---------------------------------------------------------------------------

/// The digit of a file: `1` for file 0 up to `9` for file 8.
pub open spec fn file_char(file: int) -> char {
    ('1' as int + file) as char
}

/// The letter of a rank: `a` for rank 0 up to `i` for rank 8.
pub open spec fn rank_char(rank: int) -> char {
    ('a' as int + rank) as char
}

/// The text of a square: the digit of its file, then the letter of its rank.
pub open spec fn square_text(sq: Coord) -> Seq<char> {
    seq![file_char(sq.file), rank_char(sq.rank)]
}

/// The text of a move. A move on the board is its two squares, with `+` behind
/// them if the piece promotes. A drop is the capital letter of the piece's
/// unpromoted type, `*`, and the square.
pub open spec fn move_text(mv: MoveView) -> Seq<char> {
    match mv {
        MoveView::Nondrop { src, dst, promotion } => if promotion {
            square_text(src) + square_text(dst) + seq!['+']
        } else {
            square_text(src) + square_text(dst)
        },
        MoveView::Drop { piece, dst } => seq![type_letter(piece), '*'] + square_text(dst),
    }
}

/// The square that the characters `cx` and `cy` stand for.
pub open spec fn square_of(cx: char, cy: char) -> Reading<Coord> {
    if !('1' <= cx <= '9') {
        Err("square: invalid x: "@.push(cx))
    } else if !('a' <= cy <= 'i') {
        Err("square: invalid y: "@.push(cy))
    } else {
        Ok(Coord { file: cx as int - '1' as int, rank: cy as int - 'a' as int })
    }
}

/// The move that a word stands for.
pub open spec fn move_of(word: Seq<char>) -> Reading<MoveView> {
    if word.len() < 4 || word.len() > 5 {
        Err("move: invalid string: "@ + word)
    } else if word[1] == '*' {
        if word.len() != 4 {
            Err("move: invalid string: "@ + word)
        } else {
            match letter_type(word[0]) {
                None => Err("move: invalid piece: "@.push(word[0])),
                Some(piece) => match square_of(word[2], word[3]) {
                    Err(msg) => Err(msg),
                    Ok(dst) => Ok(MoveView::Drop { piece, dst }),
                },
            }
        }
    } else if word.len() == 5 && word[4] != '+' {
        Err("move: '+' expected: "@ + word)
    } else {
        match square_of(word[0], word[1]) {
            Err(msg) => Err(msg),
            Ok(src) => match square_of(word[2], word[3]) {
                Err(msg) => Err(msg),
                Ok(dst) => Ok(MoveView::Nondrop { src, dst, promotion: word.len() == 5 }),
            },
        }
    }
}

/// The moves that a list of words stands for, one move for each word.
pub open spec fn move_list_of(words: Seq<Seq<char>>) -> Reading<Seq<MoveView>>
    decreases words.len(),
{
    if words.len() == 0 {
        Ok(Seq::empty())
    } else {
        match move_of(words[0]) {
            Err(msg) => Err(msg),
            Ok(mv) => match move_list_of(words.drop_first()) {
                Err(msg) => Err(msg),
                Ok(rest) => Ok(seq![mv] + rest),
            },
        }
    }
}

/// The moves that the words behind a position stand for: none where there is
/// no word, else the word `moves` followed by one word for each move.
pub open spec fn moves_of(words: Seq<Seq<char>>) -> Reading<Seq<MoveView>> {
    if words.len() == 0 {
        Ok(Seq::empty())
    } else if words[0] != "moves"@ {
        Err("moves: \"moves\" expected"@)
    } else {
        move_list_of(words.drop_first())
    }
}

// ---------------------------------------------------------------------------
// Board
// ---------------------------------------------------------------------------

/// The text of a piece on the board: its letter, with `+` before it if it is
/// promoted.
pub open spec fn piece_text(side: Side, pt: PieceType) -> Seq<char> {
    if pt.spec_is_promoted() {
        seq!['+', piece_letter(side, pt)]
    } else {
        seq![piece_letter(side, pt)]
    }
}

/// The text of a run of `run` empty cells: nothing for no cell, else the
/// digit of the run's length.
pub open spec fn run_text(run: nat) -> Seq<char> {
    if run == 0 {
        Seq::empty()
    } else {
        seq![digit_char(run as int)]
    }
}

/// The text of the cells of a row that come after a run of `run` empty cells.
pub open spec fn row_text_from(run: nat, cells: Seq<BoardCell>) -> Seq<char>
    decreases cells.len(),
{
    if cells.len() == 0 {
        run_text(run)
    } else {
        match cells[0] {
            BoardCell::Empty => row_text_from(run + 1, cells.drop_first()),
            BoardCell::Piece(side, pt) => run_text(run) + piece_text(side, pt) + row_text_from(
                0,
                cells.drop_first(),
            ),
        }
    }
}

/// The text of a row: each piece by its text, each longest run of empty cells
/// by the digit of its length.
pub open spec fn row_text(cells: Seq<BoardCell>) -> Seq<char> {
    row_text_from(0, cells)
}

/// The cells of row `y` of a board.
pub open spec fn board_row(board: Seq<BoardCell>, y: int) -> Seq<BoardCell> {
    board.subrange(9 * y, 9 * y + 9)
}

/// The texts of the nine rows of a board.
pub open spec fn row_texts(board: Seq<BoardCell>) -> Seq<Seq<char>> {
    Seq::new(9, |y: int| row_text(board_row(board, y)))
}

/// The text of a board: the texts of its nine rows with `/` between them.
pub open spec fn board_text(board: Seq<BoardCell>) -> Seq<char> {
    join(row_texts(board), "/"@)
}

/// How far the reading of a row has come: the cells read so far, and whether
/// a `+` waits for its piece.
pub struct RowScan {
    pub cells: Seq<BoardCell>,
    pub promote: bool,
}

/// `n` empty cells.
pub open spec fn empty_cells(n: int) -> Seq<BoardCell> {
    Seq::new(n as nat, |i: int| BoardCell::Empty)
}

/// What one more character does to the reading of a row.
pub open spec fn row_step(st: RowScan, c: char) -> Reading<RowScan> {
    if c == '+' {
        if st.cells.len() + 1 > 9 {
            Err("board row: overflow"@)
        } else if st.promote {
            Err("board row: invalid '+'"@)
        } else {
            Ok(RowScan { cells: st.cells, promote: true })
        }
    } else if '1' <= c <= '9' {
        if st.promote {
            Err("board row: invalid '+'"@)
        } else if st.cells.len() + digit_value(c) > 9 {
            Err("board row: overflow"@)
        } else {
            Ok(RowScan { cells: st.cells + empty_cells(digit_value(c)), promote: false })
        }
    } else {
        match letter_piece(c) {
            None => Err("board row: invalid char: "@.push(c)),
            Some((side, pt)) => if st.cells.len() + 1 > 9 {
                Err("board row: overflow"@)
            } else if st.promote {
                match pt.spec_to_promoted() {
                    None => Err("board row: not promotable piece: "@.push(c)),
                    Some(promoted) => Ok(
                        RowScan {
                            cells: st.cells.push(BoardCell::Piece(side, promoted)),
                            promote: false,
                        },
                    ),
                }
            } else {
                Ok(RowScan { cells: st.cells.push(BoardCell::Piece(side, pt)), promote: false })
            },
        }
    }
}

/// What the characters of `s` do to the reading of a row.
pub open spec fn row_scan(st: RowScan, s: Seq<char>) -> Reading<RowScan>
    decreases s.len(),
{
    if s.len() == 0 {
        Ok(st)
    } else {
        match row_step(st, s[0]) {
            Err(msg) => Err(msg),
            Ok(next) => row_scan(next, s.drop_first()),
        }
    }
}

/// The cells that the text of a row stands for, at most nine. A `+` at the
/// end, with no piece behind it, is refused.
pub open spec fn row_of(s: Seq<char>) -> Reading<Seq<BoardCell>> {
    match row_scan(RowScan { cells: Seq::empty(), promote: false }, s) {
        Err(msg) => Err(msg),
        Ok(st) => if st.promote {
            Err("board row: invalid '+'"@)
        } else {
            Ok(st.cells)
        },
    }
}

/// The cells that the texts of some rows stand for, row after row. Each row
/// must have nine cells.
pub open spec fn rows_of(rows: Seq<Seq<char>>) -> Reading<Seq<BoardCell>>
    decreases rows.len(),
{
    if rows.len() == 0 {
        Ok(Seq::empty())
    } else {
        match row_of(rows[0]) {
            Err(msg) => Err(msg),
            Ok(cells) => if cells.len() != 9 {
                Err("board row: incomplete"@)
            } else {
                match rows_of(rows.drop_first()) {
                    Err(msg) => Err(msg),
                    Ok(rest) => Ok(cells + rest),
                }
            },
        }
    }
}

/// The 81 cells that the text of a board stands for: nine rows of nine cells,
/// with `/` between the rows.
pub open spec fn board_of(s: Seq<char>) -> Reading<Seq<BoardCell>> {
    let rows = split(s, '/');
    if rows.len() != 9 {
        Err("board: 9 rows expected"@)
    } else {
        rows_of(rows)
    }
}

// ---------------------------------------------------------------------------
// Side to move
// ---------------------------------------------------------------------------

/// The text of a side: `b` for `Side::Sente`, `w` for `Side::Gote`.
pub open spec fn side_text(side: Side) -> Seq<char> {
    match side {
        Side::Sente => "b"@,
        Side::Gote => "w"@,
    }
}

/// The side that a word stands for.
pub open spec fn side_of(word: Seq<char>) -> Reading<Side> {
    if word == "b"@ {
        Ok(Side::Sente)
    } else if word == "w"@ {
        Ok(Side::Gote)
    } else {
        Err("side: invalid string: "@ + word)
    }
}

// ---------------------------------------------------------------------------
// Hands
// ---------------------------------------------------------------------------

/// The hand piece types in the order in which a hand is written.
pub open spec fn hand_order() -> Seq<PieceType> {
    seq![
        PieceType::Rook,
        PieceType::Bishop,
        PieceType::Gold,
        PieceType::Silver,
        PieceType::Knight,
        PieceType::Lance,
        PieceType::Pawn,
    ]
}

/// The text of `n` pieces of one type in the hand of `side`: nothing for no
/// piece, the letter alone for one piece, else the count and the letter.
pub open spec fn hand_entry_text(side: Side, pt: PieceType, n: u8) -> Seq<char> {
    if n == 0 {
        Seq::empty()
    } else if n == 1 {
        seq![piece_letter(side, pt)]
    } else {
        nat_text(n as nat).push(piece_letter(side, pt))
    }
}

/// The text of the entries of both hands from place `k` of the order on: for
/// each piece type the entry of `Side::Sente`, then that of `Side::Gote`.
pub open spec fn hands_text_from(sente: Seq<u8>, gote: Seq<u8>, k: int) -> Seq<char>
    decreases 7 - k,
{
    if k < 0 || k >= 7 {
        Seq::empty()
    } else {
        let pt = hand_order()[k];
        hand_entry_text(Side::Sente, pt, sente[pt.spec_hand_index()]) + hand_entry_text(
            Side::Gote,
            pt,
            gote[pt.spec_hand_index()],
        ) + hands_text_from(sente, gote, k + 1)
    }
}

/// The text of both hands: `-` where both are empty, else the entries of the
/// piece types in the order rook, bishop, gold, silver, knight, lance, pawn,
/// and for each type the entry of `Side::Sente` before that of `Side::Gote`.
pub open spec fn hands_text(sente: Seq<u8>, gote: Seq<u8>) -> Seq<char> {
    if hand_is_empty(sente) && hand_is_empty(gote) {
        "-"@
    } else {
        hands_text_from(sente, gote, 0)
    }
}

/// How far the reading of the hands has come: the counts so far, and the
/// count that waits for its letter (0 where none was written).
pub struct HandsScan {
    pub sente: Seq<u8>,
    pub gote: Seq<u8>,
    pub pending: u8,
}

/// What one more character does to the reading of the hands. A count of 0,
/// written or left out, stands for one piece. Counts of the same piece add up.
pub open spec fn hands_step(st: HandsScan, c: char) -> Reading<HandsScan> {
    if is_digit(c) {
        if st.pending * 10 + digit_value(c) > 255 {
            Err("hands: overflow"@)
        } else {
            Ok(
                HandsScan {
                    sente: st.sente,
                    gote: st.gote,
                    pending: (st.pending * 10 + digit_value(c)) as u8,
                },
            )
        }
    } else {
        match letter_piece(c) {
            None => Err("hands: invalid char: "@.push(c)),
            Some((side, pt)) => if !pt.spec_is_hand() {
                Err("hands: not hand piece: "@.push(c))
            } else {
                let n: int = if st.pending == 0 {
                    1
                } else {
                    st.pending as int
                };
                let i = pt.spec_hand_index();
                match side {
                    Side::Sente => if st.sente[i] + n > 255 {
                        Err("hands: overflow"@)
                    } else {
                        Ok(
                            HandsScan {
                                sente: st.sente.update(i, (st.sente[i] + n) as u8),
                                gote: st.gote,
                                pending: 0,
                            },
                        )
                    },
                    Side::Gote => if st.gote[i] + n > 255 {
                        Err("hands: overflow"@)
                    } else {
                        Ok(
                            HandsScan {
                                sente: st.sente,
                                gote: st.gote.update(i, (st.gote[i] + n) as u8),
                                pending: 0,
                            },
                        )
                    },
                }
            },
        }
    }
}

/// What the characters of `s` do to the reading of the hands.
pub open spec fn hands_scan(st: HandsScan, s: Seq<char>) -> Reading<HandsScan>
    decreases s.len(),
{
    if s.len() == 0 {
        Ok(st)
    } else {
        match hands_step(st, s[0]) {
            Err(msg) => Err(msg),
            Ok(next) => hands_scan(next, s.drop_first()),
        }
    }
}

/// The two hands that a word stands for, that of `Side::Sente` first. A word
/// that ends in a digit is refused: its last count has no letter behind it.
pub open spec fn hands_of(word: Seq<char>) -> Reading<(Seq<u8>, Seq<u8>)> {
    if word == "-"@ {
        Ok((empty_hand(), empty_hand()))
    } else {
        match hands_scan(HandsScan { sente: empty_hand(), gote: empty_hand(), pending: 0 }, word) {
            Err(msg) => Err(msg),
            Ok(st) => if word.len() > 0 && is_digit(word.last()) {
                Err("hands: incomplete"@)
            } else {
                Ok((st.sente, st.gote))
            },
        }
    }
}

// ---------------------------------------------------------------------------
// Ply
// ---------------------------------------------------------------------------

/// The text of a ply count: its decimal text.
pub open spec fn ply_text(ply: i32) -> Seq<char> {
    int_text(ply as int)
}

/// The number that one more digit makes of `acc`: ten times `acc`, and the
/// digit added where `negative` is not set and taken off where it is. The
/// number must stay in the range of `i32`.
pub open spec fn ply_step(acc: int, negative: bool, c: char) -> Reading<int> {
    if !is_digit(c) {
        Err("ply: parse error: invalid digit found in string"@)
    } else {
        let next = if negative {
            acc * 10 - digit_value(c)
        } else {
            acc * 10 + digit_value(c)
        };
        if next > i32::MAX {
            Err("ply: parse error: number too large to fit in target type"@)
        } else if next < i32::MIN {
            Err("ply: parse error: number too small to fit in target type"@)
        } else {
            Ok(next)
        }
    }
}

/// The number that the digits of `s` make of `acc`.
pub open spec fn ply_digits(acc: int, negative: bool, s: Seq<char>) -> Reading<int>
    decreases s.len(),
{
    if s.len() == 0 {
        Ok(acc)
    } else {
        match ply_step(acc, negative, s[0]) {
            Err(msg) => Err(msg),
            Ok(next) => ply_digits(next, negative, s.drop_first()),
        }
    }
}

/// The ply count that a word stands for: a sign `+` or `-`, which may be left
/// out, and one decimal digit or more.
pub open spec fn ply_of(word: Seq<char>) -> Reading<i32> {
    if word.len() == 0 {
        Err("ply: parse error: cannot parse integer from empty string"@)
    } else {
        let signed = word[0] == '+' || word[0] == '-';
        let digits = if signed {
            word.drop_first()
        } else {
            word
        };
        if digits.len() == 0 {
            Err("ply: parse error: invalid digit found in string"@)
        } else {
            match ply_digits(0, word[0] == '-', digits) {
                Err(msg) => Err(msg),
                Ok(value) => Ok(value as i32),
            }
        }
    }
}

// ---------------------------------------------------------------------------
// Position and record
// ---------------------------------------------------------------------------

/// The text of a position: the word `sfen` and the texts of the board, the
/// side to move, the hands and the ply count, with one space between each two.
pub open spec fn position_text(pos: PositionView) -> Seq<char> {
    "sfen"@ + " "@ + board_text(pos.board) + " "@ + side_text(pos.side) + " "@ + hands_text(
        pos.hand_sente,
        pos.hand_gote,
    ) + " "@ + ply_text(pos.ply)
}

/// The texts of the moves of a list.
pub open spec fn move_texts(mvs: Seq<MoveView>) -> Seq<Seq<char>> {
    mvs.map_values(|mv: MoveView| move_text(mv))
}

/// The text of a list of moves: the word `moves` and the text of each move,
/// with one space between each two.
pub open spec fn moves_text(mvs: Seq<MoveView>) -> Seq<char> {
    join(seq!["moves"@] + move_texts(mvs), " "@)
}

/// The canonical text of a position and a list of moves: the text of the
/// position, followed by a space and the text of the moves where there is a
/// move.
pub open spec fn encoded(pos: PositionView, mvs: Seq<MoveView>) -> Seq<char> {
    if mvs.len() == 0 {
        position_text(pos)
    } else {
        position_text(pos) + " "@ + moves_text(mvs)
    }
}

/// The position that the four words of a record's fields stand for. The
/// fields are read in the order board, side, hands, ply.
pub open spec fn fields_position(
    board: Seq<char>,
    side: Seq<char>,
    hands: Seq<char>,
    ply: Seq<char>,
) -> Reading<PositionView> {
    match board_of(board) {
        Err(msg) => Err(msg),
        Ok(cells) => match side_of(side) {
            Err(msg) => Err(msg),
            Ok(side) => match hands_of(hands) {
                Err(msg) => Err(msg),
                Ok((hand_sente, hand_gote)) => match ply_of(ply) {
                    Err(msg) => Err(msg),
                    Ok(ply) => Ok(PositionView { side, board: cells, hand_sente, hand_gote, ply }),
                },
            },
        }
    }
}

/// The position that the word `startpos` stands for: the opening position,
/// given by the fields of its record.
pub open spec fn startpos_position() -> Reading<PositionView> {
    fields_position(
        "lnsgkgsnl/1r5b1/ppppppppp/9/9/9/PPPPPPPPP/1B5R1/LNSGKGSNL"@,
        "b"@,
        "-"@,
        "1"@,
    )
}

/// The position that the first words of a record stand for, and how many
/// words it takes up: the word `startpos` alone, or the word `sfen` and four
/// fields.
pub open spec fn position_of(words: Seq<Seq<char>>) -> Reading<(PositionView, int)> {
    if words.len() == 0 {
        Err("position: incomplete"@)
    } else if words[0] == "startpos"@ {
        match startpos_position() {
            Err(msg) => Err(msg),
            Ok(pos) => Ok((pos, 1)),
        }
    } else if words[0] == "sfen"@ {
        if words.len() < 5 {
            Err("position: incomplete"@)
        } else {
            match fields_position(words[1], words[2], words[3], words[4]) {
                Err(msg) => Err(msg),
                Ok(pos) => Ok((pos, 5)),
            }
        }
    } else {
        Err("position: invalid magic: "@ + words[0])
    }
}

/// What a record stands for: the position of its first words and the moves of
/// the words behind them.
pub open spec fn decoded(text: Seq<char>) -> Reading<(PositionView, Seq<MoveView>)> {
    let words = tokens(text);
    match position_of(words) {
        Err(msg) => Err(msg),
        Ok((pos, used)) => match moves_of(words.skip(used)) {
            Err(msg) => Err(msg),
            Ok(mvs) => Ok((pos, mvs)),
        },
    }
}

} // verus!

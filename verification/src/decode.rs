//! Reading a record.

use vstd::prelude::*;
use vstd::string::StringExecFns;
use crate::board::Board;
use crate::error::Error;
use crate::grammar::{
    board_of, decoded, empty_cells, fields_position, hands_of, hands_scan, hands_step,
    letter_piece, letter_type, move_list_of, move_of, moves_of, ply_digits, ply_of, position_of,
    row_of, row_scan, row_step, rows_of, side_of, square_of, HandsScan, Reading, RowScan,
};
use crate::hand::{empty_hand, hand_index, Hand};
use crate::moves::{move_views, Move, MoveView};
use crate::piece::{BoardCell, PieceType, Side};
use crate::position::Position;
use crate::square::Square;
use crate::text::{chars_of, push_char, push_chars, spells, split, split_on, texts, tokenize};

verus! {

/// The error whose message is `msg`.
fn fault(msg: &str) -> (e: Error)
    ensures
        e@ == msg@,
{
    Error::decode_error(String::from_str(msg))
}

/// The error whose message is `msg` followed by the character `c`.
fn fault_at(msg: &str, c: char) -> (e: Error)
    ensures
        e@ == msg@.push(c),
{
    let mut text = String::from_str(msg);
    push_char(&mut text, c);
    Error::decode_error(text)
}

/// The error whose message is `msg` followed by `word`.
fn fault_in(msg: &str, word: &Vec<char>) -> (e: Error)
    ensures
        e@ == msg@ + word@,
{
    let mut text = String::from_str(msg);
    push_chars(&mut text, word);
    Error::decode_error(text)
}

/// The unpromoted piece type that a capital letter stands for.
pub fn char_to_pt(c: char) -> (r: Option<PieceType>)
    ensures
        r == letter_type(c),
{
    match c {
        'P' => Some(PieceType::Pawn),
        'L' => Some(PieceType::Lance),
        'N' => Some(PieceType::Knight),
        'S' => Some(PieceType::Silver),
        'B' => Some(PieceType::Bishop),
        'R' => Some(PieceType::Rook),
        'G' => Some(PieceType::Gold),
        'K' => Some(PieceType::King),
        _ => None,
    }
}

/// The side and the unpromoted piece type that a letter stands for: a capital
/// letter is a piece of `Side::Sente`, a small one a piece of `Side::Gote`.
pub fn char_to_side_pt(c: char) -> (r: Option<(Side, PieceType)>)
    ensures
        r == letter_piece(c),
{
    if 'A' <= c && c <= 'Z' {
        match char_to_pt(c) {
            Some(pt) => Some((Side::Sente, pt)),
            None => None,
        }
    } else if 'a' <= c && c <= 'z' {
        let upper = ((c as u8) - 32) as char;
        match char_to_pt(upper) {
            Some(pt) => Some((Side::Gote, pt)),
            None => None,
        }
    } else {
        None
    }
}

/// The reading of one row of the board.
struct RowState {
    cells: Vec<BoardCell>,
    promo: bool,
}

impl View for RowState {
    type V = RowScan;

    closed spec fn view(&self) -> RowScan {
        RowScan { cells: self.cells@, promote: self.promo }
    }
}

impl RowState {
    fn new() -> (st: RowState)
        ensures
            st@ == (RowScan { cells: Seq::empty(), promote: false }),
    {
        RowState { cells: Vec::new(), promo: false }
    }

    /// Takes in the next character of the row.
    fn eat(&mut self, c: char) -> (r: Result<(), Error>)
        ensures
            match r {
                Ok(_) => row_step(old(self)@, c) matches Ok(next) && next == final(self)@,
                Err(e) => row_step(old(self)@, c) matches Err(msg) && msg == e@,
            },
    {
        if c == '+' {
            self.ensure_len_ok(1)?;
            self.ensure_not_promo()?;
            self.promo = true;
        } else if '1' <= c && c <= '9' {
            self.ensure_not_promo()?;
            let n: usize = ((c as u8) - ('0' as u8)) as usize;
            self.ensure_len_ok(n)?;
            let mut i: usize = 0;
            assert(self.cells@ =~= old(self).cells@ + empty_cells(0));
            while i < n
                invariant
                    i <= n,
                    self.promo == old(self).promo,
                    self.cells@ == old(self).cells@ + empty_cells(i as int),
                decreases n - i,
            {
                self.cells.push(BoardCell::Empty);
                assert(self.cells@ =~= old(self).cells@ + empty_cells(i + 1));
                i += 1;
            }
        } else {
            let (side, pt) = match char_to_side_pt(c) {
                Some(found) => found,
                None => {
                    return Err(fault_at("board row: invalid char: ", c));
                },
            };
            self.ensure_len_ok(1)?;
            if self.promo {
                let promoted = match pt.to_promoted() {
                    Some(promoted) => promoted,
                    None => {
                        return Err(fault_at("board row: not promotable piece: ", c));
                    },
                };
                self.promo = false;
                self.cells.push(BoardCell::Piece(side, promoted));
            } else {
                self.cells.push(BoardCell::Piece(side, pt));
            }
        }
        Ok(())
    }

    /// Refuses what would bring the row over nine cells.
    fn ensure_len_ok(&self, len_add: usize) -> (r: Result<(), Error>)
        requires
            len_add <= 9,
        ensures
            r is Ok <==> self@.cells.len() + len_add <= 9,
            r matches Err(e) ==> e@ == "board row: overflow"@,
    {
        if self.cells.len() > 9 || self.cells.len() + len_add > 9 {
            return Err(fault("board row: overflow"));
        }
        Ok(())
    }

    /// Refuses a digit or a `+` behind a `+`.
    fn ensure_not_promo(&self) -> (r: Result<(), Error>)
        ensures
            r is Ok <==> !self@.promote,
            r matches Err(e) ==> e@ == "board row: invalid '+'"@,
    {
        if self.promo {
            return Err(fault("board row: invalid '+'"));
        }
        Ok(())
    }
}

/// Reads one row of the board: at most nine cells.
pub fn decode_board_row(s_row: &Vec<char>) -> (r: Result<Vec<BoardCell>, Error>)
    ensures
        match r {
            Ok(cells) => row_of(s_row@) matches Ok(row) && row == cells@,
            Err(e) => row_of(s_row@) matches Err(msg) && msg == e@,
        },
{
    let mut state = RowState::new();
    let mut i: usize = 0;
    assert(s_row@.skip(0) =~= s_row@);
    while i < s_row.len()
        invariant
            i <= s_row.len(),
            row_scan(RowScan { cells: Seq::empty(), promote: false }, s_row@) == row_scan(
                state@,
                s_row@.skip(i as int),
            ),
        decreases s_row.len() - i,
    {
        proof {
            assert(s_row@.skip(i as int).drop_first() =~= s_row@.skip(i + 1));
        }
        match state.eat(s_row[i]) {
            Ok(_) => {},
            Err(e) => {
                return Err(e);
            },
        }
        i += 1;
    }
    match state.ensure_not_promo() {
        Ok(_) => {},
        Err(e) => {
            return Err(e);
        },
    }
    Ok(state.cells)
}

/// What reading the rows that are left adds to the cells that were read.
spec fn after(done: Seq<BoardCell>, rest: Reading<Seq<BoardCell>>) -> Reading<Seq<BoardCell>> {
    match rest {
        Err(msg) => Err(msg),
        Ok(cells) => Ok(done + cells),
    }
}

/// Reads the board: nine rows of nine cells with `/` between the rows.
pub fn decode_board(s_board: &Vec<char>) -> (r: Result<Board, Error>)
    ensures
        match r {
            Ok(board) => board_of(s_board@) matches Ok(cells) && cells == board@,
            Err(e) => board_of(s_board@) matches Err(msg) && msg == e@,
        },
{
    let rows = split_on(s_board, '/');
    if rows.len() != 9 {
        return Err(fault("board: 9 rows expected"));
    }
    let mut cells = [BoardCell::Empty;81];
    let mut y: usize = 0;
    assert(texts(rows@).skip(0) =~= texts(rows@));
    assert(cells@.take(0) + rows_of(texts(rows@))->Ok_0 =~= rows_of(texts(rows@))->Ok_0);
    while y < 9
        invariant
            y <= 9,
            rows.len() == 9,
            texts(rows@) == split(s_board@, '/'),
            rows_of(texts(rows@)) == after(
                cells@.take(9 * y as int),
                rows_of(texts(rows@).skip(y as int)),
            ),
        decreases 9 - y,
    {
        proof {
            assert(texts(rows@).skip(y as int).drop_first() =~= texts(rows@).skip(y + 1));
            assert(texts(rows@).skip(y as int)[0] == rows@[y as int]@);
        }
        let row = match decode_board_row(&rows[y]) {
            Ok(row) => row,
            Err(e) => {
                return Err(e);
            },
        };
        if row.len() != 9 {
            return Err(fault("board row: incomplete"));
        }
        let ghost before = cells@;
        let mut x: usize = 0;
        while x < 9
            invariant
                x <= 9,
                y < 9,
                row.len() == 9,
                cells@.take(9 * y as int) == before.take(9 * y as int),
                forall|i: int| 0 <= i < x ==> cells@[9 * y + i] == row@[i],
            decreases 9 - x,
        {
            cells[9 * y + x] = row[x];
            x += 1;
        }
        proof {
            let rest = rows_of(texts(rows@).skip(y + 1));
            assert(cells@.take(9 * (y + 1)) =~= before.take(9 * y as int) + row@);
            if rest is Ok {
                assert(before.take(9 * y as int) + (row@ + rest->Ok_0) =~= cells@.take(
                    9 * (y + 1),
                ) + rest->Ok_0);
            }
        }
        y += 1;
    }
    assert(cells@.take(81) =~= cells@);
    assert(texts(rows@).skip(9) =~= Seq::<Seq<char>>::empty());
    assert(cells@ + Seq::<BoardCell>::empty() =~= cells@);
    Ok(Board::from_cells(cells))
}

/// Reads the side to move.
pub fn decode_side(s_side: &Vec<char>) -> (r: Result<Side, Error>)
    ensures
        match r {
            Ok(side) => side_of(s_side@) matches Ok(found) && found == side,
            Err(e) => side_of(s_side@) matches Err(msg) && msg == e@,
        },
{
    if spells(s_side, "b") {
        Ok(Side::Sente)
    } else if spells(s_side, "w") {
        Ok(Side::Gote)
    } else {
        Err(fault_in("side: invalid string: ", s_side))
    }
}

/// The reading of the two hands.
struct HandsState {
    sente: [u8; 7],
    gote: [u8; 7],
    cur: u8,
}

impl View for HandsState {
    type V = HandsScan;

    closed spec fn view(&self) -> HandsScan {
        HandsScan { sente: self.sente@, gote: self.gote@, pending: self.cur }
    }
}

impl HandsState {
    fn new() -> (st: HandsState)
        ensures
            st@ == (HandsScan { sente: empty_hand(), gote: empty_hand(), pending: 0 }),
    {
        let st = HandsState { sente: [0u8;7], gote: [0u8;7], cur: 0 };
        assert(st.sente@ =~= empty_hand());
        assert(st.gote@ =~= empty_hand());
        st
    }

    /// Takes in the next character of the hands.
    fn eat(&mut self, c: char) -> (r: Result<(), Error>)
        ensures
            match r {
                Ok(_) => hands_step(old(self)@, c) matches Ok(next) && next == final(self)@,
                Err(e) => hands_step(old(self)@, c) matches Err(msg) && msg == e@,
            },
    {
        if '0' <= c && c <= '9' {
            let d: u8 = (c as u8) - ('0' as u8);
            let tens = match self.cur.checked_mul(10) {
                Some(tens) => tens,
                None => {
                    return Err(fault("hands: overflow"));
                },
            };
            self.cur = match tens.checked_add(d) {
                Some(sum) => sum,
                None => {
                    return Err(fault("hands: overflow"));
                },
            };
        } else {
            let (side, pt) = match char_to_side_pt(c) {
                Some(found) => found,
                None => {
                    return Err(fault_at("hands: invalid char: ", c));
                },
            };
            if !pt.is_hand() {
                return Err(fault_at("hands: not hand piece: ", c));
            }
            if self.cur == 0 {
                self.cur = 1;
            }
            let i = hand_index(pt);
            match side {
                Side::Sente => {
                    let total = match self.sente[i].checked_add(self.cur) {
                        Some(total) => total,
                        None => {
                            return Err(fault("hands: overflow"));
                        },
                    };
                    self.sente[i] = total;
                },
                Side::Gote => {
                    let total = match self.gote[i].checked_add(self.cur) {
                        Some(total) => total,
                        None => {
                            return Err(fault("hands: overflow"));
                        },
                    };
                    self.gote[i] = total;
                },
            }
            self.cur = 0;
        }
        Ok(())
    }
}

/// Reads the two hands, that of `Side::Sente` first. A count at the end, with
/// no letter behind it, is refused.
pub fn decode_hands(s_hands: &Vec<char>) -> (r: Result<(Hand, Hand), Error>)
    ensures
        match r {
            Ok((sente, gote)) => hands_of(s_hands@) matches Ok(hands) && hands == (sente@, gote@),
            Err(e) => hands_of(s_hands@) matches Err(msg) && msg == e@,
        },
{
    if spells(s_hands, "-") {
        return Ok((Hand::empty(), Hand::empty()));
    }
    let mut state = HandsState::new();
    let mut i: usize = 0;
    assert(s_hands@.skip(0) =~= s_hands@);
    while i < s_hands.len()
        invariant
            i <= s_hands.len(),
            s_hands@ != "-"@,
            hands_scan(
                HandsScan { sente: empty_hand(), gote: empty_hand(), pending: 0 },
                s_hands@,
            ) == hands_scan(state@, s_hands@.skip(i as int)),
        decreases s_hands.len() - i,
    {
        proof {
            assert(s_hands@.skip(i as int).drop_first() =~= s_hands@.skip(i + 1));
        }
        match state.eat(s_hands[i]) {
            Ok(_) => {},
            Err(e) => {
                return Err(e);
            },
        }
        i += 1;
    }
    if s_hands.len() > 0 {
        let last = s_hands[s_hands.len() - 1];
        if '0' <= last && last <= '9' {
            return Err(fault("hands: incomplete"));
        }
    }
    Ok((Hand::from_counts(state.sente), Hand::from_counts(state.gote)))
}

/// The ply count that the value of its digits gives.
spec fn ply_value(value: Reading<int>) -> Reading<i32> {
    match value {
        Err(msg) => Err(msg),
        Ok(value) => Ok(value as i32),
    }
}

/// Reads the ply count.
pub fn decode_ply(s_ply: &Vec<char>) -> (r: Result<i32, Error>)
    ensures
        match r {
            Ok(ply) => ply_of(s_ply@) matches Ok(found) && found == ply,
            Err(e) => ply_of(s_ply@) matches Err(msg) && msg == e@,
        },
{
    if s_ply.len() == 0 {
        return Err(fault("ply: parse error: cannot parse integer from empty string"));
    }
    let negative = s_ply[0] == '-';
    let start: usize = if s_ply[0] == '+' || s_ply[0] == '-' {
        1
    } else {
        0
    };
    if start == s_ply.len() {
        return Err(fault("ply: parse error: invalid digit found in string"));
    }
    proof {
        assert(s_ply@.drop_first() =~= s_ply@.skip(1));
        assert(s_ply@ =~= s_ply@.skip(0));
    }
    let mut acc: i32 = 0;
    let mut i: usize = start;
    while i < s_ply.len()
        invariant
            i <= s_ply.len(),
            ply_of(s_ply@) == ply_value(ply_digits(acc as int, negative, s_ply@.skip(i as int))),
        decreases s_ply.len() - i,
    {
        proof {
            assert(s_ply@.skip(i as int).drop_first() =~= s_ply@.skip(i + 1));
        }
        let c = s_ply[i];
        if !('0' <= c && c <= '9') {
            return Err(fault("ply: parse error: invalid digit found in string"));
        }
        let d: i64 = ((c as u8) - ('0' as u8)) as i64;
        let next: i64 = if negative {
            (acc as i64) * 10 - d
        } else {
            (acc as i64) * 10 + d
        };
        if next > 2147483647 {
            return Err(fault("ply: parse error: number too large to fit in target type"));
        }
        if next < -2147483648 {
            return Err(fault("ply: parse error: number too small to fit in target type"));
        }
        acc = next as i32;
        i += 1;
    }
    Ok(acc)
}

/// Reads a square from the digit of its file and the letter of its rank.
pub fn chars_to_sq(cx: char, cy: char) -> (r: Result<Square, Error>)
    ensures
        match r {
            Ok(sq) => square_of(cx, cy) matches Ok(found) && found == sq@,
            Err(e) => square_of(cx, cy) matches Err(msg) && msg == e@,
        },
{
    if !('1' <= cx && cx <= '9') {
        return Err(fault_at("square: invalid x: ", cx));
    }
    if !('a' <= cy && cy <= 'i') {
        return Err(fault_at("square: invalid y: ", cy));
    }
    let x = (cx as u8) - ('1' as u8);
    let y = (cy as u8) - ('a' as u8);
    Ok(Square::new(x, y))
}

/// Reads one move.
pub fn decode_move(s_mv: &Vec<char>) -> (r: Result<Move, Error>)
    ensures
        match r {
            Ok(mv) => move_of(s_mv@) matches Ok(found) && found == mv@,
            Err(e) => move_of(s_mv@) matches Err(msg) && msg == e@,
        },
{
    let len = s_mv.len();
    if len < 4 || len > 5 {
        return Err(fault_in("move: invalid string: ", s_mv));
    }
    if s_mv[1] == '*' {
        if len != 4 {
            return Err(fault_in("move: invalid string: ", s_mv));
        }
        let pt = match char_to_pt(s_mv[0]) {
            Some(pt) => pt,
            None => {
                return Err(fault_at("move: invalid piece: ", s_mv[0]));
            },
        };
        let dst = chars_to_sq(s_mv[2], s_mv[3])?;
        Ok(Move::drop(pt, dst))
    } else {
        if len == 5 && s_mv[4] != '+' {
            return Err(fault_in("move: '+' expected: ", s_mv));
        }
        let src = chars_to_sq(s_mv[0], s_mv[1])?;
        let dst = chars_to_sq(s_mv[2], s_mv[3])?;
        let is_promotion = len == 5;
        Ok(Move::nondrop(src, dst, is_promotion))
    }
}

/// Reads a position from the four fields of its record.
pub fn fields_to_pos(
    s_board: &Vec<char>,
    s_side: &Vec<char>,
    s_hands: &Vec<char>,
    s_ply: &Vec<char>,
) -> (r: Result<Position, Error>)
    ensures
        match r {
            Ok(pos) => fields_position(s_board@, s_side@, s_hands@, s_ply@) matches Ok(found)
                && found == pos@,
            Err(e) => fields_position(s_board@, s_side@, s_hands@, s_ply@) matches Err(msg) && msg
                == e@,
        },
{
    let board = decode_board(s_board)?;
    let side = decode_side(s_side)?;
    let (hand_sente, hand_gote) = decode_hands(s_hands)?;
    let ply = decode_ply(s_ply)?;
    Ok(Position::new(side, board, hand_sente, hand_gote, ply))
}

/// Reads the position that a record begins with, and says how many words it
/// takes up.
pub fn tokens_to_pos(words: &Vec<Vec<char>>) -> (r: Result<(Position, usize), Error>)
    ensures
        match r {
            Ok((pos, used)) => position_of(texts(words@)) matches Ok(found) && found == (
                pos@,
                used as int,
            ) && used <= words.len(),
            Err(e) => position_of(texts(words@)) matches Err(msg) && msg == e@,
        },
{
    if words.len() == 0 {
        return Err(fault("position: incomplete"));
    }
    let magic = &words[0];
    if spells(magic, "startpos") {
        let s_board = chars_of("lnsgkgsnl/1r5b1/ppppppppp/9/9/9/PPPPPPPPP/1B5R1/LNSGKGSNL");
        let s_side = chars_of("b");
        let s_hands = chars_of("-");
        let s_ply = chars_of("1");
        let pos = fields_to_pos(&s_board, &s_side, &s_hands, &s_ply)?;
        Ok((pos, 1))
    } else if spells(magic, "sfen") {
        if words.len() < 5 {
            return Err(fault("position: incomplete"));
        }
        let pos = fields_to_pos(&words[1], &words[2], &words[3], &words[4])?;
        Ok((pos, 5))
    } else {
        Err(fault_in("position: invalid magic: ", magic))
    }
}

/// What reading the words that are left adds to the moves that were read.
spec fn moves_after(done: Seq<MoveView>, rest: Reading<Seq<MoveView>>) -> Reading<Seq<MoveView>> {
    match rest {
        Err(msg) => Err(msg),
        Ok(mvs) => Ok(done + mvs),
    }
}

/// Reads the moves that the words from place `from` on stand for.
pub fn tokens_to_moves(words: &Vec<Vec<char>>, from: usize) -> (r: Result<Vec<Move>, Error>)
    requires
        from <= words.len(),
    ensures
        match r {
            Ok(mvs) => moves_of(texts(words@).skip(from as int)) matches Ok(found) && found
                == move_views(mvs@),
            Err(e) => moves_of(texts(words@).skip(from as int)) matches Err(msg) && msg == e@,
        },
{
    let mut mvs: Vec<Move> = Vec::new();
    if from == words.len() {
        assert(move_views(mvs@) =~= Seq::<MoveView>::empty());
        return Ok(mvs);
    }
    if !spells(&words[from], "moves") {
        return Err(fault("moves: \"moves\" expected"));
    }
    let mut i: usize = from + 1;
    proof {
        assert(texts(words@).skip(from as int).drop_first() =~= texts(words@).skip(from + 1));
        assert(move_views(mvs@) =~= Seq::<MoveView>::empty());
        let rest = move_list_of(texts(words@).skip(from + 1));
        if rest is Ok {
            assert(Seq::<MoveView>::empty() + rest->Ok_0 =~= rest->Ok_0);
        }
    }
    while i < words.len()
        invariant
            from < i <= words.len(),
            moves_of(texts(words@).skip(from as int)) == moves_after(
                move_views(mvs@),
                move_list_of(texts(words@).skip(i as int)),
            ),
        decreases words.len() - i,
    {
        proof {
            assert(texts(words@).skip(i as int).drop_first() =~= texts(words@).skip(i + 1));
        }
        let mv = match decode_move(&words[i]) {
            Ok(mv) => mv,
            Err(e) => {
                return Err(e);
            },
        };
        proof {
            let rest = move_list_of(texts(words@).skip(i + 1));
            assert(move_views(mvs@.push(mv)) =~= move_views(mvs@) + seq![mv@]);
            if rest is Ok {
                assert(move_views(mvs@) + (seq![mv@] + rest->Ok_0) =~= move_views(mvs@.push(mv))
                    + rest->Ok_0);
            }
        }
        mvs.push(mv);
        i += 1;
    }
    proof {
        assert(texts(words@).skip(words.len() as int) =~= Seq::<Seq<char>>::empty());
        assert(move_views(mvs@) + Seq::<MoveView>::empty() =~= move_views(mvs@));
    }
    Ok(mvs)
}

/// Reads a record: a position and the moves that follow it. Nothing is asked
/// of the position or the moves but that they are well written.
pub fn decode(sfen: &str) -> (r: Result<(Position, Vec<Move>), Error>)
    ensures
        match r {
            Ok((pos, mvs)) => decoded(sfen@) matches Ok(found) && found == (pos@, move_views(mvs@)),
            Err(e) => decoded(sfen@) matches Err(msg) && msg == e@,
        },
{
    let text = chars_of(sfen);
    let words = tokenize(&text);
    let (pos, used) = tokens_to_pos(&words)?;
    let mvs = tokens_to_moves(&words, used)?;
    Ok((pos, mvs))
}

} // verus!

use sfen::decode::{
    char_to_pt, char_to_side_pt, decode_board, decode_board_row, decode_hands, decode_ply,
    decode_side, fields_to_pos, tokens_to_moves, tokens_to_pos,
};
use sfen::{decode, BoardCell, Error, PieceType, Side};

fn chars(s: &str) -> Vec<char> {
    s.chars().collect()
}

fn message<T: std::fmt::Debug>(r: Result<T, Error>) -> String {
    match r {
        Ok(value) => panic!("accepted as {:?}", value),
        Err(Error::DecodeError(msg)) => msg,
    }
}

const ALL_TYPES: [PieceType; 14] = [
    PieceType::Pawn,
    PieceType::Lance,
    PieceType::Knight,
    PieceType::Silver,
    PieceType::Bishop,
    PieceType::Rook,
    PieceType::Gold,
    PieceType::King,
    PieceType::ProPawn,
    PieceType::ProLance,
    PieceType::ProKnight,
    PieceType::ProSilver,
    PieceType::Horse,
    PieceType::Dragon,
];

#[test]
fn letter_table() {
    assert_eq!(char_to_pt('P'), Some(PieceType::Pawn));
    assert_eq!(char_to_pt('L'), Some(PieceType::Lance));
    assert_eq!(char_to_pt('N'), Some(PieceType::Knight));
    assert_eq!(char_to_pt('S'), Some(PieceType::Silver));
    assert_eq!(char_to_pt('B'), Some(PieceType::Bishop));
    assert_eq!(char_to_pt('R'), Some(PieceType::Rook));
    assert_eq!(char_to_pt('G'), Some(PieceType::Gold));
    assert_eq!(char_to_pt('K'), Some(PieceType::King));
    assert_eq!(char_to_pt('p'), None);
    assert_eq!(char_to_pt('A'), None);
    assert_eq!(char_to_pt('+'), None);
}

#[test]
fn letter_case_gives_the_side() {
    assert_eq!(char_to_side_pt('P'), Some((Side::Sente, PieceType::Pawn)));
    assert_eq!(char_to_side_pt('p'), Some((Side::Gote, PieceType::Pawn)));
    assert_eq!(char_to_side_pt('K'), Some((Side::Sente, PieceType::King)));
    assert_eq!(char_to_side_pt('k'), Some((Side::Gote, PieceType::King)));
    assert_eq!(char_to_side_pt('r'), Some((Side::Gote, PieceType::Rook)));
    assert_eq!(char_to_side_pt('a'), None);
    assert_eq!(char_to_side_pt('Z'), None);
    assert_eq!(char_to_side_pt('1'), None);
    assert_eq!(char_to_side_pt('0'), None);
    assert_eq!(char_to_side_pt('P'.to_ascii_lowercase()), Some((Side::Gote, PieceType::Pawn)));
    assert_eq!(char_to_side_pt('\u{ff30}'), None);
}

#[test]
fn promotable_types() {
    for pt in ALL_TYPES {
        let expected = match pt {
            PieceType::Pawn => Some(PieceType::ProPawn),
            PieceType::Lance => Some(PieceType::ProLance),
            PieceType::Knight => Some(PieceType::ProKnight),
            PieceType::Silver => Some(PieceType::ProSilver),
            PieceType::Bishop => Some(PieceType::Horse),
            PieceType::Rook => Some(PieceType::Dragon),
            _ => None,
        };
        assert_eq!(pt.to_promoted(), expected);
    }
}

#[test]
fn hand_types() {
    let in_hand: Vec<PieceType> = ALL_TYPES.iter().copied().filter(|pt| pt.is_hand()).collect();
    assert_eq!(in_hand, ALL_TYPES[..7].to_vec());
    let promoted: Vec<PieceType> =
        ALL_TYPES.iter().copied().filter(|pt| pt.is_promoted()).collect();
    assert_eq!(promoted, ALL_TYPES[8..].to_vec());
}

#[test]
fn row_of_pieces_and_runs() {
    let row = decode_board_row(&chars("1l+R2P3")).unwrap();
    assert_eq!(
        row,
        vec![
            BoardCell::Empty,
            BoardCell::Piece(Side::Gote, PieceType::Lance),
            BoardCell::Piece(Side::Sente, PieceType::Dragon),
            BoardCell::Empty,
            BoardCell::Empty,
            BoardCell::Piece(Side::Sente, PieceType::Pawn),
            BoardCell::Empty,
            BoardCell::Empty,
            BoardCell::Empty,
        ]
    );
}

#[test]
fn row_with_every_promoted_piece() {
    let row = decode_board_row(&chars("+p+l+n+s+b+r")).unwrap();
    assert_eq!(
        row,
        vec![
            BoardCell::Piece(Side::Gote, PieceType::ProPawn),
            BoardCell::Piece(Side::Gote, PieceType::ProLance),
            BoardCell::Piece(Side::Gote, PieceType::ProKnight),
            BoardCell::Piece(Side::Gote, PieceType::ProSilver),
            BoardCell::Piece(Side::Gote, PieceType::Horse),
            BoardCell::Piece(Side::Gote, PieceType::Dragon),
        ]
    );
}

#[test]
fn row_may_be_short_or_empty() {
    assert_eq!(decode_board_row(&chars("")).unwrap(), vec![]);
    assert_eq!(decode_board_row(&chars("3")).unwrap(), vec![BoardCell::Empty; 3]);
    assert_eq!(decode_board_row(&chars("9")).unwrap(), vec![BoardCell::Empty; 9]);
    assert_eq!(decode_board_row(&chars("111111111")).unwrap(), vec![BoardCell::Empty; 9]);
}

#[test]
fn row_overflow() {
    assert_eq!(message(decode_board_row(&chars("9P"))), "board row: overflow");
    assert_eq!(message(decode_board_row(&chars("P9"))), "board row: overflow");
    assert_eq!(message(decode_board_row(&chars("55"))), "board row: overflow");
    assert_eq!(message(decode_board_row(&chars("PPPPPPPPPP"))), "board row: overflow");
    assert_eq!(message(decode_board_row(&chars("9+"))), "board row: overflow");
    assert_eq!(message(decode_board_row(&chars("81p"))), "board row: overflow");
    assert_eq!(message(decode("sfen 9P/9/9/9/9/9/9/9/9 b - 1")), "board row: overflow");
    assert_eq!(message(decode("sfen 9/9/9/9/9/9/9/9/p9 b - 1")), "board row: overflow");
}

#[test]
fn row_plus_faults() {
    assert_eq!(message(decode_board_row(&chars("++P"))), "board row: invalid '+'");
    assert_eq!(message(decode_board_row(&chars("+1P"))), "board row: invalid '+'");
    assert_eq!(message(decode_board_row(&chars("8+"))), "board row: invalid '+'");
    assert_eq!(message(decode_board_row(&chars("+"))), "board row: invalid '+'");
    assert_eq!(message(decode_board_row(&chars("+G"))), "board row: not promotable piece: G");
    assert_eq!(message(decode_board_row(&chars("+k"))), "board row: not promotable piece: k");
    assert_eq!(message(decode_board_row(&chars("+K"))), "board row: not promotable piece: K");
    assert_eq!(message(decode_board_row(&chars("+g"))), "board row: not promotable piece: g");
}

#[test]
fn row_unknown_characters() {
    assert_eq!(message(decode_board_row(&chars("4x4"))), "board row: invalid char: x");
    assert_eq!(message(decode_board_row(&chars("0"))), "board row: invalid char: 0");
    assert_eq!(message(decode_board_row(&chars("*"))), "board row: invalid char: *");
    assert_eq!(message(decode_board_row(&chars("-"))), "board row: invalid char: -");
    assert_eq!(message(decode_board_row(&chars("+x"))), "board row: invalid char: x");
    assert_eq!(message(decode_board_row(&chars("\u{6b69}"))), "board row: invalid char: \u{6b69}");
}

#[test]
fn row_faults_in_the_order_of_the_checks() {
    // a letter that is unknown is named before the row is found full
    assert_eq!(message(decode_board_row(&chars("9x"))), "board row: invalid char: x");
    // a full row is found before the piece is found not to promote
    assert_eq!(message(decode_board_row(&chars("8+GG"))), "board row: not promotable piece: G");
    // a '+' on a full row is an overflow, also behind another '+'
    assert_eq!(message(decode_board_row(&chars("9++"))), "board row: overflow");
    // a digit behind '+' is refused before its size is looked at
    assert_eq!(message(decode_board_row(&chars("+9"))), "board row: invalid '+'");
}

#[test]
fn board_needs_nine_rows() {
    assert_eq!(message(decode_board(&chars("9/9/9/9/9/9/9/9"))), "board: 9 rows expected");
    assert_eq!(message(decode_board(&chars("9/9/9/9/9/9/9/9/9/9"))), "board: 9 rows expected");
    assert_eq!(message(decode_board(&chars("9"))), "board: 9 rows expected");
    assert_eq!(message(decode_board(&chars(""))), "board: 9 rows expected");
    assert_eq!(message(decode_board(&chars("9/9/9/9/9/9/9/9/9/"))), "board: 9 rows expected");
    assert_eq!(message(decode("sfen 9/9/9 b - 1")), "board: 9 rows expected");
}

#[test]
fn board_rows_need_nine_cells() {
    assert_eq!(message(decode_board(&chars("9/9/9/9/8/9/9/9/9"))), "board row: incomplete");
    assert_eq!(message(decode_board(&chars("////////"))), "board row: incomplete");
    assert_eq!(message(decode_board(&chars("9/9/9/9/9/9/9/9/PPPP"))), "board row: incomplete");
}

#[test]
fn board_first_bad_row_decides() {
    assert_eq!(message(decode_board(&chars("9/x/9/9/8/9/9/9/+"))), "board row: invalid char: x");
    assert_eq!(message(decode_board(&chars("9/8/x/9/9/9/9/9/9"))), "board row: incomplete");
}

#[test]
fn board_cells_are_row_major() {
    let board = decode_board(&chars("P8/1L7/2N6/3S5/4B4/5R3/6G2/7K1/8p")).unwrap();
    let diagonal = [
        BoardCell::Piece(Side::Sente, PieceType::Pawn),
        BoardCell::Piece(Side::Sente, PieceType::Lance),
        BoardCell::Piece(Side::Sente, PieceType::Knight),
        BoardCell::Piece(Side::Sente, PieceType::Silver),
        BoardCell::Piece(Side::Sente, PieceType::Bishop),
        BoardCell::Piece(Side::Sente, PieceType::Rook),
        BoardCell::Piece(Side::Sente, PieceType::Gold),
        BoardCell::Piece(Side::Sente, PieceType::King),
        BoardCell::Piece(Side::Gote, PieceType::Pawn),
    ];
    for y in 0..9u8 {
        for x in 0..9u8 {
            let expected = if x == y { diagonal[x as usize] } else { BoardCell::Empty };
            assert_eq!(board.at(x, y), expected, "({}, {})", x, y);
        }
    }
}

#[test]
fn sides() {
    assert_eq!(decode_side(&chars("b")).unwrap(), Side::Sente);
    assert_eq!(decode_side(&chars("w")).unwrap(), Side::Gote);
    assert_eq!(message(decode_side(&chars("B"))), "side: invalid string: B");
    assert_eq!(message(decode_side(&chars("W"))), "side: invalid string: W");
    assert_eq!(message(decode_side(&chars("bw"))), "side: invalid string: bw");
    assert_eq!(message(decode_side(&chars(""))), "side: invalid string: ");
    assert_eq!(message(decode("sfen 9/9/9/9/9/9/9/9/9 x - 1")), "side: invalid string: x");
}

fn counts(hand: &sfen::Hand) -> [u8; 7] {
    [
        hand.count(PieceType::Pawn),
        hand.count(PieceType::Lance),
        hand.count(PieceType::Knight),
        hand.count(PieceType::Silver),
        hand.count(PieceType::Bishop),
        hand.count(PieceType::Rook),
        hand.count(PieceType::Gold),
    ]
}

#[test]
fn hands_dash_is_empty() {
    let (sente, gote) = decode_hands(&chars("-")).unwrap();
    assert_eq!(counts(&sente), [0; 7]);
    assert_eq!(counts(&gote), [0; 7]);
}

#[test]
fn hands_counts_and_letters() {
    let (sente, gote) = decode_hands(&chars("Sbgn3p")).unwrap();
    assert_eq!(counts(&sente), [0, 0, 0, 1, 0, 0, 0]);
    assert_eq!(counts(&gote), [3, 0, 1, 0, 1, 0, 1]);
}

#[test]
fn hands_counts_of_more_digits() {
    let (sente, gote) = decode_hands(&chars("18p")).unwrap();
    assert_eq!(counts(&sente), [0; 7]);
    assert_eq!(counts(&gote), [18, 0, 0, 0, 0, 0, 0]);
    let (sente, _) = decode_hands(&chars("255R")).unwrap();
    assert_eq!(sente.count(PieceType::Rook), 255);
    let (sente, _) = decode_hands(&chars("007L")).unwrap();
    assert_eq!(sente.count(PieceType::Lance), 7);
}

#[test]
fn hands_count_zero_is_one() {
    let (sente, gote) = decode_hands(&chars("0P00g")).unwrap();
    assert_eq!(counts(&sente), [1, 0, 0, 0, 0, 0, 0]);
    assert_eq!(counts(&gote), [0, 0, 0, 0, 0, 0, 1]);
}

#[test]
fn hands_counts_of_one_piece_add_up() {
    let (sente, gote) = decode_hands(&chars("2p3p")).unwrap();
    assert_eq!(counts(&sente), [0; 7]);
    assert_eq!(gote.count(PieceType::Pawn), 5);
    let (sente, _) = decode_hands(&chars("PPP2P")).unwrap();
    assert_eq!(sente.count(PieceType::Pawn), 5);
}

#[test]
fn hands_count_without_letter_is_refused() {
    assert_eq!(message(decode_hands(&chars("P2"))), "hands: incomplete");
    assert_eq!(message(decode_hands(&chars("2p3"))), "hands: incomplete");
    assert_eq!(message(decode_hands(&chars("12"))), "hands: incomplete");
    assert_eq!(message(decode_hands(&chars("p0"))), "hands: incomplete");
    assert_eq!(message(decode_hands(&chars("0"))), "hands: incomplete");
    assert_eq!(message(decode("sfen 9/9/9/9/9/9/9/9/9 b P2 1")), "hands: incomplete");
    // a fault that is met before the end decides
    assert_eq!(message(decode_hands(&chars("x2"))), "hands: invalid char: x");
    assert_eq!(message(decode_hands(&chars("2560"))), "hands: overflow");
}

#[test]
fn hands_word_without_a_character_is_two_empty_hands() {
    let (sente, gote) = decode_hands(&chars("")).unwrap();
    assert_eq!(counts(&sente), [0; 7]);
    assert_eq!(counts(&gote), [0; 7]);
}

#[test]
fn hands_are_read_in_any_order() {
    let (sente, gote) = decode_hands(&chars("Sbgn3p")).unwrap();
    let (sente2, gote2) = decode_hands(&chars("bgSn3p")).unwrap();
    assert_eq!(sente, sente2);
    assert_eq!(gote, gote2);
}

#[test]
fn hands_overflow() {
    assert_eq!(message(decode_hands(&chars("256p"))), "hands: overflow");
    assert_eq!(message(decode_hands(&chars("1000p"))), "hands: overflow");
    assert_eq!(message(decode_hands(&chars("260"))), "hands: overflow");
    assert_eq!(message(decode_hands(&chars("255p1p"))), "hands: overflow");
    assert_eq!(message(decode_hands(&chars("200P56P"))), "hands: overflow");
    let (sente, gote) = decode_hands(&chars("200P55P255p")).unwrap();
    assert_eq!(sente.count(PieceType::Pawn), 255);
    assert_eq!(gote.count(PieceType::Pawn), 255);
}

#[test]
fn hands_pieces_that_no_hand_holds() {
    assert_eq!(message(decode_hands(&chars("K"))), "hands: not hand piece: K");
    assert_eq!(message(decode_hands(&chars("2k"))), "hands: not hand piece: k");
    assert_eq!(message(decode_hands(&chars("+P"))), "hands: invalid char: +");
    assert_eq!(message(decode_hands(&chars("P-"))), "hands: invalid char: -");
    assert_eq!(message(decode_hands(&chars("--"))), "hands: invalid char: -");
    assert_eq!(message(decode_hands(&chars("x"))), "hands: invalid char: x");
    assert_eq!(message(decode("sfen 9/9/9/9/9/9/9/9/9 b K 1")), "hands: not hand piece: K");
}

#[test]
fn ply_numbers() {
    assert_eq!(decode_ply(&chars("1")).unwrap(), 1);
    assert_eq!(decode_ply(&chars("0")).unwrap(), 0);
    assert_eq!(decode_ply(&chars("-0")).unwrap(), 0);
    assert_eq!(decode_ply(&chars("+5")).unwrap(), 5);
    assert_eq!(decode_ply(&chars("-5")).unwrap(), -5);
    assert_eq!(decode_ply(&chars("0012")).unwrap(), 12);
    assert_eq!(decode_ply(&chars("2147483647")).unwrap(), i32::MAX);
    assert_eq!(decode_ply(&chars("-2147483648")).unwrap(), i32::MIN);
    assert_eq!(decode_ply(&chars("00000000002147483647")).unwrap(), i32::MAX);
}

#[test]
fn ply_faults_are_those_of_the_standard_parser() {
    let refused = [
        "", "+", "-", "x", "1x", "--1", "+-1", "1 ", "1.0", "2147483648", "-2147483649",
        "99999999999", "-99999999999", "99999999999x", "1e3", "\u{ff11}",
    ];
    for word in refused {
        let expected = match word.parse::<i32>() {
            Ok(n) => panic!("{:?} is the number {}", word, n),
            Err(e) => format!("ply: parse error: {}", e),
        };
        assert_eq!(message(decode_ply(&chars(word))), expected, "{:?}", word);
    }
    assert_eq!(
        message(decode_ply(&chars("2147483648"))),
        "ply: parse error: number too large to fit in target type"
    );
    assert_eq!(
        message(decode_ply(&chars("-2147483649"))),
        "ply: parse error: number too small to fit in target type"
    );
    assert_eq!(
        message(decode_ply(&chars("12a"))),
        "ply: parse error: invalid digit found in string"
    );
    assert_eq!(
        message(decode_ply(&chars(""))),
        "ply: parse error: cannot parse integer from empty string"
    );
}

#[test]
fn ply_accepts_what_the_standard_parser_accepts() {
    let accepted = ["7", "+7", "-7", "000", "-000", "+2147483647", "123456789"];
    for word in accepted {
        assert_eq!(decode_ply(&chars(word)).unwrap(), word.parse::<i32>().unwrap());
    }
}

#[test]
fn fields_are_read_in_order() {
    let bad = chars("x");
    let board = chars("9/9/9/9/9/9/9/9/9");
    let side = chars("b");
    let hands = chars("-");
    let ply = chars("1");
    assert_eq!(message(fields_to_pos(&bad, &bad, &bad, &bad)), "board: 9 rows expected");
    assert_eq!(message(fields_to_pos(&board, &bad, &bad, &bad)), "side: invalid string: x");
    assert_eq!(message(fields_to_pos(&board, &side, &bad, &bad)), "hands: invalid char: x");
    assert_eq!(
        message(fields_to_pos(&board, &side, &hands, &bad)),
        "ply: parse error: invalid digit found in string"
    );
    let pos = fields_to_pos(&board, &side, &hands, &ply).unwrap();
    assert_eq!(pos.side(), Side::Sente);
    assert_eq!(pos.ply(), 1);
}

#[test]
fn position_words() {
    let words: Vec<Vec<char>> =
        ["sfen", "9/9/9/9/9/9/9/9/9", "w", "2P", "-3", "moves", "1a1b"].iter().map(|w| chars(w)).collect();
    let (pos, used) = tokens_to_pos(&words).unwrap();
    assert_eq!(used, 5);
    assert_eq!(pos.side(), Side::Gote);
    assert_eq!(pos.ply(), -3);
    assert_eq!(pos.hand(Side::Sente).count(PieceType::Pawn), 2);
    assert_eq!(pos.hand(Side::Gote).count(PieceType::Pawn), 0);
    let mvs = tokens_to_moves(&words, used).unwrap();
    assert_eq!(mvs.len(), 1);
    assert_eq!(tokens_to_moves(&words, 7).unwrap(), vec![]);

    let short: Vec<Vec<char>> = vec![chars("startpos"), chars("moves")];
    let (pos, used) = tokens_to_pos(&short).unwrap();
    assert_eq!(used, 1);
    assert_eq!(pos.ply(), 1);
    assert_eq!(tokens_to_moves(&short, used).unwrap(), vec![]);
}

#[test]
fn position_incomplete() {
    assert_eq!(message(decode("")), "position: incomplete");
    assert_eq!(message(decode("   \n\t ")), "position: incomplete");
    assert_eq!(message(decode("sfen")), "position: incomplete");
    assert_eq!(message(decode("sfen 9/9/9/9/9/9/9/9/9")), "position: incomplete");
    assert_eq!(message(decode("sfen 9/9/9/9/9/9/9/9/9 b")), "position: incomplete");
    assert_eq!(message(decode("sfen 9/9/9/9/9/9/9/9/9 b -")), "position: incomplete");
    assert_eq!(message(decode("sfen x y z")), "position: incomplete");
    assert_eq!(message(tokens_to_pos(&vec![])), "position: incomplete");
}

#[test]
fn position_unknown_first_word() {
    assert_eq!(message(decode("fen 9/9/9/9/9/9/9/9/9 b - 1")), "position: invalid magic: fen");
    assert_eq!(message(decode("SFEN 9/9/9/9/9/9/9/9/9 b - 1")), "position: invalid magic: SFEN");
    assert_eq!(message(decode("Startpos")), "position: invalid magic: Startpos");
    assert_eq!(message(decode("moves 7g7f")), "position: invalid magic: moves");
    assert_eq!(message(decode("\u{b}sfen 9/9/9/9/9/9/9/9/9 b - 1")), "position: invalid magic: \u{b}sfen");
}

#[test]
fn record_fields() {
    let (pos, mvs) = decode("sfen 4k4/9/9/9/9/9/9/9/4K4 w 2Pp 42").unwrap();
    assert!(mvs.is_empty());
    assert_eq!(pos.side(), Side::Gote);
    assert_eq!(pos.ply(), 42);
    assert_eq!(pos.board().at(4, 0), BoardCell::Piece(Side::Gote, PieceType::King));
    assert_eq!(pos.board().at(4, 8), BoardCell::Piece(Side::Sente, PieceType::King));
    assert_eq!(pos.board().at(4, 4), BoardCell::Empty);
    assert_eq!(counts(pos.hand(Side::Sente)), [2, 0, 0, 0, 0, 0, 0]);
    assert_eq!(counts(pos.hand(Side::Gote)), [1, 0, 0, 0, 0, 0, 0]);
}

#[test]
fn positions_that_no_game_reaches_are_read() {
    let (pos, _) = decode("sfen KKKKKKKKK/kkkkkkkkk/9/9/9/9/9/9/+P+P+P+P+P+P+P+P+P b 200P200p -1").unwrap();
    assert_eq!(pos.board().at(0, 0), BoardCell::Piece(Side::Sente, PieceType::King));
    assert_eq!(pos.board().at(8, 1), BoardCell::Piece(Side::Gote, PieceType::King));
    assert_eq!(pos.board().at(3, 8), BoardCell::Piece(Side::Sente, PieceType::ProPawn));
    assert_eq!(pos.hand(Side::Sente).count(PieceType::Pawn), 200);
    assert_eq!(pos.ply(), -1);
}

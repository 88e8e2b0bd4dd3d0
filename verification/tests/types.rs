use sfen::{
    Board, BoardCell, Error, Hand, Move, MoveDrop, MoveNondrop, PieceType, Position, Side, Square,
};

#[test]
fn square_coordinates() {
    for y in 0..9u8 {
        for x in 0..9u8 {
            let sq = Square::new(x, y);
            assert_eq!(sq.x(), x);
            assert_eq!(sq.y(), y);
        }
    }
}

#[test]
fn squares_are_equal_when_their_coordinates_are() {
    assert_eq!(Square::new(3, 4), Square::new(3, 4));
    assert_ne!(Square::new(3, 4), Square::new(4, 3));
    assert_ne!(Square::new(0, 1), Square::new(1, 0));
    let sq = Square::new(8, 8);
    let copy = sq;
    assert_eq!(sq, copy);
}

#[test]
fn board_holds_what_the_function_gives() {
    let board = Board::new(|x, y| {
        if (x + 2 * y) % 3 == 0 {
            BoardCell::Piece(Side::Sente, PieceType::Pawn)
        } else if x == 8 {
            BoardCell::Piece(Side::Gote, PieceType::Horse)
        } else {
            BoardCell::Empty
        }
    });
    for y in 0..9u8 {
        for x in 0..9u8 {
            let expected = if (x + 2 * y) % 3 == 0 {
                BoardCell::Piece(Side::Sente, PieceType::Pawn)
            } else if x == 8 {
                BoardCell::Piece(Side::Gote, PieceType::Horse)
            } else {
                BoardCell::Empty
            };
            assert_eq!(board.at(x, y), expected);
        }
    }
}

#[test]
fn board_is_asked_for_each_cell_once() {
    let calls = std::cell::RefCell::new(Vec::new());
    let _ = Board::new(|x, y| {
        calls.borrow_mut().push((x, y));
        BoardCell::Empty
    });
    let mut seen = calls.into_inner();
    assert_eq!(seen.len(), 81);
    seen.sort();
    seen.dedup();
    assert_eq!(seen.len(), 81);
    assert!(seen.iter().all(|&(x, y)| x < 9 && y < 9));
}

#[test]
fn boards_compare_cell_by_cell() {
    let a = Board::new(|x, _| if x == 0 { BoardCell::Piece(Side::Sente, PieceType::Lance) } else { BoardCell::Empty });
    let b = Board::new(|x, _| if x == 0 { BoardCell::Piece(Side::Sente, PieceType::Lance) } else { BoardCell::Empty });
    let c = Board::new(|x, _| if x == 0 { BoardCell::Piece(Side::Gote, PieceType::Lance) } else { BoardCell::Empty });
    assert_eq!(a, b);
    assert_ne!(a, c);
    assert_eq!(a.clone(), a);
}

#[test]
fn hand_holds_what_the_function_gives() {
    let hand = Hand::new(|pt| match pt {
        PieceType::Pawn => 18,
        PieceType::Lance => 4,
        PieceType::Knight => 3,
        PieceType::Silver => 2,
        PieceType::Bishop => 1,
        PieceType::Rook => 0,
        PieceType::Gold => 255,
        _ => panic!("asked for {:?}", pt),
    });
    assert_eq!(hand.count(PieceType::Pawn), 18);
    assert_eq!(hand.count(PieceType::Lance), 4);
    assert_eq!(hand.count(PieceType::Knight), 3);
    assert_eq!(hand.count(PieceType::Silver), 2);
    assert_eq!(hand.count(PieceType::Bishop), 1);
    assert_eq!(hand.count(PieceType::Rook), 0);
    assert_eq!(hand.count(PieceType::Gold), 255);
}

#[test]
fn hand_lists_its_counts_in_order() {
    let hand = Hand::new(|pt| match pt {
        PieceType::Pawn => 1,
        PieceType::Lance => 2,
        PieceType::Knight => 3,
        PieceType::Silver => 4,
        PieceType::Bishop => 5,
        PieceType::Rook => 6,
        _ => 7,
    });
    assert_eq!(
        hand.enumerate(),
        vec![
            (PieceType::Pawn, 1),
            (PieceType::Lance, 2),
            (PieceType::Knight, 3),
            (PieceType::Silver, 4),
            (PieceType::Bishop, 5),
            (PieceType::Rook, 6),
            (PieceType::Gold, 7),
        ]
    );
}

#[test]
fn hands_compare_count_by_count() {
    let a = Hand::new(|_| 1);
    let b = Hand::new(|_| 1);
    let c = Hand::new(|pt| if pt == PieceType::Gold { 2 } else { 1 });
    assert_eq!(a, b);
    assert_ne!(a, c);
}

#[test]
fn position_gives_back_its_parts() {
    let board = Board::new(|x, y| {
        if (x, y) == (4, 4) {
            BoardCell::Piece(Side::Gote, PieceType::Dragon)
        } else {
            BoardCell::Empty
        }
    });
    let sente = Hand::new(|_| 1);
    let gote = Hand::new(|_| 2);
    let pos = Position::new(Side::Gote, board.clone(), sente.clone(), gote.clone(), -5);
    assert_eq!(pos.side(), Side::Gote);
    assert_eq!(pos.board(), &board);
    assert_eq!(pos.hand(Side::Sente), &sente);
    assert_eq!(pos.hand(Side::Gote), &gote);
    assert_eq!(pos.ply(), -5);
    let other = Position::new(Side::Gote, board, sente, gote, -4);
    assert_ne!(pos, other);
}

#[test]
fn move_gives_back_its_parts() {
    let src = Square::new(1, 2);
    let dst = Square::new(3, 4);
    match Move::nondrop(src, dst, true) {
        Move::Nondrop(nondrop) => {
            let nondrop: MoveNondrop = nondrop;
            assert_eq!(nondrop.src(), src);
            assert_eq!(nondrop.dst(), dst);
            assert!(nondrop.is_promotion());
        }
        Move::Drop(_) => panic!("a drop"),
    }
    match Move::drop(PieceType::Knight, dst) {
        Move::Drop(drop) => {
            let drop: MoveDrop = drop;
            assert_eq!(drop.pt(), PieceType::Knight);
            assert_eq!(drop.dst(), dst);
        }
        Move::Nondrop(_) => panic!("no drop"),
    }
    assert_ne!(Move::nondrop(src, dst, true), Move::nondrop(src, dst, false));
    assert_ne!(Move::nondrop(src, dst, true), Move::nondrop(dst, src, true));
    assert_ne!(Move::drop(PieceType::Pawn, dst), Move::drop(PieceType::Lance, dst));
}

#[test]
fn error_text() {
    let e = Error::DecodeError(String::from("side: invalid string: x"));
    assert_eq!(e.to_string(), "sfen decode error: side: invalid string: x");
    match sfen::decode("nonsense") {
        Err(e) => assert_eq!(e.to_string(), "sfen decode error: position: invalid magic: nonsense"),
        Ok(_) => panic!("accepted"),
    }
}

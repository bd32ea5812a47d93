use chess_engine::board::{Board, MoveFailure};
use chess_engine::piece::{Color, Piece, PieceType};
use chess_engine::point::Point;
use chess_engine::status::GameStatus;

fn pt(row: usize, col: usize) -> Point {
    Point { row, col }
}

fn snapshot(b: &Board) -> (Vec<Piece>, Color, u64, Option<Point>, usize) {
    let mut pieces = Vec::new();
    for r in 0..8 {
        for c in 0..8 {
            pieces.push(b.get_piece(pt(r, c)));
        }
    }
    (
        pieces,
        b.side_to_move(),
        b.halfmove_clock(),
        b.en_passant_target(),
        b.repetition_count(),
    )
}

#[test]
fn initial_position_has_exactly_twenty_legal_first_moves() {
    let mut accepted = 0;
    for sr in 0..8 {
        for sc in 0..8 {
            for er in 0..8 {
                for ec in 0..8 {
                    let mut b = Board::new();
                    if b.submit_move(pt(sr, sc), pt(er, ec)).is_ok() {
                        accepted += 1;
                    }
                }
            }
        }
    }
    assert_eq!(accepted, 20);
}

#[test]
fn sample_first_moves_accepted() {
    // One and two squares with the king's pawn, and a knight's jump.
    let mut b = Board::new();
    assert!(b.submit_move(pt(1, 4), pt(2, 4)).is_ok());
    let mut b = Board::new();
    assert!(b.submit_move(pt(1, 4), pt(3, 4)).is_ok());
    let mut b = Board::new();
    assert!(b.submit_move(pt(0, 6), pt(2, 5)).is_ok());
}

#[test]
fn rejected_moves_do_not_change_the_state() {
    let mut b = Board::new();
    let before = snapshot(&b);
    // Off the board, wrong turn, own piece taken, unreachable square, and a
    // move that would expose the king: all rejected, none may mutate.
    assert_eq!(
        b.submit_move(pt(8, 0), pt(0, 0)).unwrap_err(),
        MoveFailure::InvalidSquare
    );
    assert_eq!(
        b.submit_move(pt(6, 0), pt(5, 0)).unwrap_err(),
        MoveFailure::NotTurn
    );
    assert_eq!(
        b.submit_move(pt(0, 0), pt(1, 0)).unwrap_err(),
        MoveFailure::CantTakeOwnPieces
    );
    assert_eq!(
        b.submit_move(pt(0, 0), pt(3, 3)).unwrap_err(),
        MoveFailure::CantMoveThere
    );
    assert_eq!(before, snapshot(&b));
}

#[test]
fn moving_a_pinned_piece_is_rejected_without_mutation() {
    let mut pieces = vec![
        Piece {
            piece_type: PieceType::Empty,
            color: Color::Empty,
            has_moved: false
        };
        64
    ];
    let wk = Piece { piece_type: PieceType::King, color: Color::White, has_moved: false };
    let wr = Piece { piece_type: PieceType::Rook, color: Color::White, has_moved: false };
    let bk = Piece { piece_type: PieceType::King, color: Color::Black, has_moved: false };
    let br = Piece { piece_type: PieceType::Rook, color: Color::Black, has_moved: false };
    pieces[0 * 8 + 4] = wk;
    pieces[1 * 8 + 4] = wr;
    pieces[7 * 8 + 4] = br;
    pieces[7 * 8 + 0] = bk;
    let mut b = Board::from_setup(pieces, true, None, 0).unwrap();
    let before = snapshot(&b);
    assert_eq!(
        b.submit_move(pt(1, 4), pt(1, 0)).unwrap_err(),
        MoveFailure::WouldExposeKingToCheck
    );
    assert_eq!(before, snapshot(&b));
    // Along the pin the rook may still move.
    assert!(b.submit_move(pt(1, 4), pt(5, 4)).is_ok());
}

#[test]
fn fresh_board_reads_back_the_standard_arrangement() {
    let b = Board::new();
    let e1 = b.get_piece(pt(0, 4));
    assert_eq!(e1.piece_type, PieceType::King);
    assert_eq!(e1.color, Color::White);
    let d8 = b.get_piece(pt(7, 3));
    assert_eq!(d8.piece_type, PieceType::Queen);
    assert_eq!(d8.color, Color::Black);
    let a1 = b.get_piece(pt(0, 0));
    assert_eq!(a1.piece_type, PieceType::Rook);
    assert!(!a1.has_moved);
    for c in 0..8 {
        assert_eq!(b.get_piece(pt(1, c)).piece_type, PieceType::Pawn);
        assert_eq!(b.get_piece(pt(1, c)).color, Color::White);
        assert_eq!(b.get_piece(pt(6, c)).piece_type, PieceType::Pawn);
        assert_eq!(b.get_piece(pt(6, c)).color, Color::Black);
        assert!(b.get_piece(pt(3, c)).is_empty());
    }
    assert_eq!(b.side_to_move(), Color::White);
    assert_eq!(b.halfmove_clock(), 0);
    assert_eq!(b.en_passant_target(), None);
    assert_eq!(b.repetition_count(), 0);
    assert_eq!(b.status(), GameStatus::Ongoing);
}

#[test]
fn turn_alternates_and_clock_counts_quiet_moves() {
    let mut b = Board::new();
    assert!(b.submit_move(pt(0, 6), pt(2, 5)).is_ok());
    assert_eq!(b.side_to_move(), Color::Black);
    assert_eq!(b.halfmove_clock(), 1);
    assert!(b.submit_move(pt(7, 6), pt(5, 5)).is_ok());
    assert_eq!(b.side_to_move(), Color::White);
    assert_eq!(b.halfmove_clock(), 2);
    // A pawn move resets the clock.
    assert!(b.submit_move(pt(1, 4), pt(2, 4)).is_ok());
    assert_eq!(b.halfmove_clock(), 0);
}

#[test]
fn capture_resets_the_clock_and_is_recorded() {
    let mut b = Board::new();
    assert!(b.submit_move(pt(1, 4), pt(3, 4)).is_ok());
    assert!(b.submit_move(pt(6, 3), pt(4, 3)).is_ok());
    assert!(b.submit_move(pt(0, 6), pt(2, 5)).is_ok());
    assert_eq!(b.halfmove_clock(), 1);
    // The black pawn takes the white pawn on e4.
    let rec = b.submit_move(pt(4, 3), pt(3, 4)).unwrap();
    let taken = rec.captured.unwrap();
    assert_eq!(taken.piece_type, PieceType::Pawn);
    assert_eq!(taken.color, Color::White);
    assert!(!rec.en_passant);
    assert!(!rec.castle);
    assert_eq!(b.halfmove_clock(), 0);
}

#[test]
fn setup_rejects_malformed_positions() {
    let empty = Piece { piece_type: PieceType::Empty, color: Color::Empty, has_moved: false };
    let wk = Piece { piece_type: PieceType::King, color: Color::White, has_moved: false };
    let bk = Piece { piece_type: PieceType::King, color: Color::Black, has_moved: false };

    // Too few squares.
    assert!(Board::from_setup(vec![empty; 63], true, None, 0).is_none());

    // No black king.
    let mut pieces = vec![empty; 64];
    pieces[0 * 8 + 4] = wk;
    assert!(Board::from_setup(pieces, true, None, 0).is_none());

    // Two white kings.
    let mut pieces = vec![empty; 64];
    pieces[0 * 8 + 4] = wk;
    pieces[0 * 8 + 0] = wk;
    pieces[7 * 8 + 4] = bk;
    assert!(Board::from_setup(pieces, true, None, 0).is_none());

    // A piece whose kind and colour disagree about emptiness.
    let mut pieces = vec![empty; 64];
    pieces[0 * 8 + 4] = wk;
    pieces[7 * 8 + 4] = bk;
    pieces[3 * 8 + 3] = Piece { piece_type: PieceType::Rook, color: Color::Empty, has_moved: false };
    assert!(Board::from_setup(pieces, true, None, 0).is_none());

    // An en-passant target on the wrong rank.
    let mut pieces = vec![empty; 64];
    pieces[0 * 8 + 4] = wk;
    pieces[7 * 8 + 4] = bk;
    assert!(Board::from_setup(pieces, false, Some(Point { row: 4, col: 4 }), 0).is_none());

    // The side not to move may not stand in check.
    let mut pieces = vec![empty; 64];
    pieces[0 * 8 + 4] = wk;
    pieces[7 * 8 + 4] = bk;
    pieces[4 * 8 + 4] = Piece { piece_type: PieceType::Rook, color: Color::White, has_moved: true };
    assert!(Board::from_setup(pieces, true, None, 0).is_none());
}

#[test]
fn attack_and_king_queries_read_the_position() {
    let b = Board::new();
    assert_eq!(b.king_square(Color::White), pt(0, 4));
    assert_eq!(b.king_square(Color::Black), pt(7, 4));
    // A knight guards the pawn square in front of the rook; the rook's own
    // square is guarded by nothing of the enemy.
    assert!(b.is_square_attacked(pt(2, 2), Color::White));
    assert!(!b.is_square_attacked(pt(0, 0), Color::Black));
    assert!(!b.in_check_now(Color::White));
    assert!(!b.in_check_now(Color::Black));
    // After a scholar's-mate-style queen sortie the black king is attacked.
    let mut b = Board::new();
    assert!(b.submit_move(pt(1, 4), pt(3, 4)).is_ok());
    assert!(b.submit_move(pt(6, 5), pt(5, 5)).is_ok());
    assert!(b.submit_move(pt(0, 3), pt(4, 7)).is_ok());
    assert!(b.is_square_attacked(pt(7, 4), Color::White));
    assert!(b.in_check_now(Color::Black));
}

#[test]
fn move_position_folds_with_absolute_value() {
    let p = Point { row: 2, col: 3 };
    let q = p.move_position(1, -2);
    assert_eq!(q.row, 3);
    assert_eq!(q.col, 1);
    let p = Point { row: 0, col: 0 };
    let q = p.move_position(-3, 2);
    assert_eq!(q.row, 3);
    assert_eq!(q.col, 2);
}

#[test]
fn piece_emptiness_helpers() {
    let fresh = Piece::new();
    assert!(fresh.is_empty());
    assert_eq!(fresh.color, Color::Empty);
    let pawn = Piece { piece_type: PieceType::Pawn, color: Color::White, has_moved: false };
    assert!(!pawn.is_empty());
    assert_eq!(Color::White.opposite(), Color::Black);
    assert_eq!(Color::Black.opposite(), Color::White);
}

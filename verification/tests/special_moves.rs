use chess_engine::board::{Board, MoveFailure};
use chess_engine::piece::{Color, Piece, PieceType};
use chess_engine::point::Point;

fn pt(row: usize, col: usize) -> Point {
    Point { row, col }
}

fn empty_grid() -> Vec<Piece> {
    vec![
        Piece {
            piece_type: PieceType::Empty,
            color: Color::Empty,
            has_moved: false
        };
        64
    ]
}

fn put(v: &mut Vec<Piece>, r: usize, c: usize, t: PieceType, col: Color, moved: bool) {
    v[r * 8 + c] = Piece { piece_type: t, color: col, has_moved: moved };
}

#[test]
fn en_passant_capture_removes_the_double_pushed_pawn() {
    let mut b = Board::new();
    // White pushes the e-pawn twice to reach row 4, Black answers on the
    // other wing, then Black double-pushes the d-pawn beside it.
    assert!(b.submit_move(pt(1, 4), pt(3, 4)).is_ok());
    assert!(b.submit_move(pt(6, 0), pt(5, 0)).is_ok());
    assert!(b.submit_move(pt(3, 4), pt(4, 4)).is_ok());
    assert!(b.submit_move(pt(6, 3), pt(4, 3)).is_ok());
    assert_eq!(b.en_passant_target(), Some(pt(5, 3)));
    // The white pawn on e5 takes d6 en passant.
    let rec = b.submit_move(pt(4, 4), pt(5, 3)).unwrap();
    assert!(rec.en_passant);
    let taken = rec.captured.unwrap();
    assert_eq!(taken.piece_type, PieceType::Pawn);
    assert_eq!(taken.color, Color::Black);
    // The landing square holds the white pawn, the captured pawn is gone.
    assert_eq!(b.get_piece(pt(5, 3)).piece_type, PieceType::Pawn);
    assert_eq!(b.get_piece(pt(5, 3)).color, Color::White);
    assert!(b.get_piece(pt(4, 3)).is_empty());
    assert!(b.get_piece(pt(4, 4)).is_empty());
    // A capture: the half-move clock is reset.
    assert_eq!(b.halfmove_clock(), 0);
}

#[test]
fn en_passant_window_lasts_exactly_one_ply() {
    let mut b = Board::new();
    assert!(b.submit_move(pt(1, 4), pt(3, 4)).is_ok());
    assert!(b.submit_move(pt(6, 0), pt(5, 0)).is_ok());
    assert!(b.submit_move(pt(3, 4), pt(4, 4)).is_ok());
    assert!(b.submit_move(pt(6, 3), pt(4, 3)).is_ok());
    // The window is open now, but White plays something else.
    assert_eq!(b.en_passant_target(), Some(pt(5, 3)));
    assert!(b.submit_move(pt(0, 6), pt(2, 5)).is_ok());
    assert_eq!(b.en_passant_target(), None);
    assert!(b.submit_move(pt(5, 0), pt(4, 0)).is_ok());
    // One ply later the capture is no longer available.
    assert_eq!(
        b.submit_move(pt(4, 4), pt(5, 3)).unwrap_err(),
        MoveFailure::CantMoveThere
    );
}

#[test]
fn en_passant_only_for_the_adjacent_pawn() {
    // White just double-pushed to row 3 column 4; Black is to move.
    let mut g = empty_grid();
    put(&mut g, 0, 4, PieceType::King, Color::White, false);
    put(&mut g, 7, 4, PieceType::King, Color::Black, false);
    put(&mut g, 3, 4, PieceType::Pawn, Color::White, true);
    put(&mut g, 3, 3, PieceType::Pawn, Color::Black, true);
    put(&mut g, 3, 1, PieceType::Pawn, Color::Black, true);
    let mut b = Board::from_setup(g, false, Some(pt(2, 4)), 0).unwrap();
    // The far pawn cannot reach the target.
    assert_eq!(
        b.submit_move(pt(3, 1), pt(2, 4)).unwrap_err(),
        MoveFailure::CantMoveThere
    );
    // The adjacent pawn captures, landing on row 2 column 4 and removing the
    // pawn on row 3 column 4.
    let rec = b.submit_move(pt(3, 3), pt(2, 4)).unwrap();
    assert!(rec.en_passant);
    assert_eq!(b.get_piece(pt(2, 4)).color, Color::Black);
    assert!(b.get_piece(pt(3, 4)).is_empty());
    assert!(b.get_piece(pt(3, 3)).is_empty());
}

#[test]
fn kingside_castle_moves_king_and_rook_together() {
    let mut g = empty_grid();
    put(&mut g, 0, 4, PieceType::King, Color::White, false);
    put(&mut g, 0, 7, PieceType::Rook, Color::White, false);
    put(&mut g, 7, 4, PieceType::King, Color::Black, false);
    let mut b = Board::from_setup(g, true, None, 0).unwrap();
    let rec = b.submit_move(pt(0, 4), pt(0, 6)).unwrap();
    assert!(rec.castle);
    assert!(rec.captured.is_none());
    let king = b.get_piece(pt(0, 6));
    assert_eq!(king.piece_type, PieceType::King);
    assert!(king.has_moved);
    let rook = b.get_piece(pt(0, 5));
    assert_eq!(rook.piece_type, PieceType::Rook);
    assert!(rook.has_moved);
    assert!(b.get_piece(pt(0, 4)).is_empty());
    assert!(b.get_piece(pt(0, 7)).is_empty());
}

#[test]
fn queenside_castle_moves_king_and_rook_together() {
    let mut g = empty_grid();
    put(&mut g, 0, 4, PieceType::King, Color::White, false);
    put(&mut g, 0, 0, PieceType::Rook, Color::White, false);
    put(&mut g, 7, 4, PieceType::King, Color::Black, false);
    let mut b = Board::from_setup(g, true, None, 0).unwrap();
    let rec = b.submit_move(pt(0, 4), pt(0, 2)).unwrap();
    assert!(rec.castle);
    assert_eq!(b.get_piece(pt(0, 2)).piece_type, PieceType::King);
    assert_eq!(b.get_piece(pt(0, 3)).piece_type, PieceType::Rook);
    assert!(b.get_piece(pt(0, 4)).is_empty());
    assert!(b.get_piece(pt(0, 0)).is_empty());
}

#[test]
fn castle_rejected_and_nothing_moves_when_a_condition_fails() {
    // The king has already moved.
    let mut g = empty_grid();
    put(&mut g, 0, 4, PieceType::King, Color::White, true);
    put(&mut g, 0, 7, PieceType::Rook, Color::White, false);
    put(&mut g, 7, 4, PieceType::King, Color::Black, false);
    let mut b = Board::from_setup(g, true, None, 0).unwrap();
    assert_eq!(
        b.submit_move(pt(0, 4), pt(0, 6)).unwrap_err(),
        MoveFailure::CantMoveThere
    );
    // No partial, king-only move happened.
    assert_eq!(b.get_piece(pt(0, 4)).piece_type, PieceType::King);
    assert_eq!(b.get_piece(pt(0, 7)).piece_type, PieceType::Rook);
    assert!(b.get_piece(pt(0, 6)).is_empty());
    assert!(b.get_piece(pt(0, 5)).is_empty());

    // A piece stands between king and rook.
    let mut g = empty_grid();
    put(&mut g, 0, 4, PieceType::King, Color::White, false);
    put(&mut g, 0, 7, PieceType::Rook, Color::White, false);
    put(&mut g, 0, 5, PieceType::Bishop, Color::White, false);
    put(&mut g, 7, 4, PieceType::King, Color::Black, false);
    let mut b = Board::from_setup(g, true, None, 0).unwrap();
    assert_eq!(
        b.submit_move(pt(0, 4), pt(0, 6)).unwrap_err(),
        MoveFailure::CantMoveThere
    );

    // The square the king crosses is attacked.
    let mut g = empty_grid();
    put(&mut g, 0, 4, PieceType::King, Color::White, false);
    put(&mut g, 0, 7, PieceType::Rook, Color::White, false);
    put(&mut g, 7, 5, PieceType::Rook, Color::Black, true);
    put(&mut g, 7, 0, PieceType::King, Color::Black, false);
    let mut b = Board::from_setup(g, true, None, 0).unwrap();
    assert_eq!(
        b.submit_move(pt(0, 4), pt(0, 6)).unwrap_err(),
        MoveFailure::CantMoveThere
    );

    // The king stands in check.
    let mut g = empty_grid();
    put(&mut g, 0, 4, PieceType::King, Color::White, false);
    put(&mut g, 0, 7, PieceType::Rook, Color::White, false);
    put(&mut g, 7, 4, PieceType::Rook, Color::Black, true);
    put(&mut g, 7, 0, PieceType::King, Color::Black, false);
    let mut b = Board::from_setup(g, true, None, 0).unwrap();
    assert!(b.in_check_now(Color::White));
    assert_eq!(
        b.submit_move(pt(0, 4), pt(0, 6)).unwrap_err(),
        MoveFailure::CantMoveThere
    );

    // The rook of that wing is missing.
    let mut g = empty_grid();
    put(&mut g, 0, 4, PieceType::King, Color::White, false);
    put(&mut g, 7, 4, PieceType::King, Color::Black, false);
    let mut b = Board::from_setup(g, true, None, 0).unwrap();
    assert_eq!(
        b.submit_move(pt(0, 4), pt(0, 6)).unwrap_err(),
        MoveFailure::CantMoveThere
    );
}

#[test]
fn knight_trip_out_and_back_restores_the_occupancy() {
    let mut b = Board::new();
    assert!(b.submit_move(pt(0, 1), pt(2, 2)).is_ok());
    assert!(b.submit_move(pt(7, 1), pt(5, 2)).is_ok());
    assert!(b.submit_move(pt(2, 2), pt(0, 1)).is_ok());
    assert!(b.submit_move(pt(5, 2), pt(7, 1)).is_ok());
    let fresh = Board::new();
    for r in 0..8 {
        for c in 0..8 {
            let now = b.get_piece(pt(r, c));
            let orig = fresh.get_piece(pt(r, c));
            // Occupancy is restored; only the moved flags may differ.
            assert_eq!(now.piece_type, orig.piece_type);
            assert_eq!(now.color, orig.color);
        }
    }
    assert_eq!(b.side_to_move(), Color::White);
}

#[test]
fn pawn_rules_from_the_side_lines() {
    let mut b = Board::new();
    // A pawn cannot jump two squares once it has left its starting rank.
    assert!(b.submit_move(pt(1, 0), pt(2, 0)).is_ok());
    assert!(b.submit_move(pt(6, 0), pt(5, 0)).is_ok());
    assert_eq!(
        b.submit_move(pt(2, 0), pt(4, 0)).unwrap_err(),
        MoveFailure::CantMoveThere
    );
    // It cannot capture straight ahead.
    let mut b = Board::new();
    assert!(b.submit_move(pt(1, 4), pt(3, 4)).is_ok());
    assert!(b.submit_move(pt(6, 4), pt(4, 4)).is_ok());
    assert_eq!(
        b.submit_move(pt(3, 4), pt(4, 4)).unwrap_err(),
        MoveFailure::CantMoveThere
    );
    // It cannot step diagonally onto an empty square.
    assert_eq!(
        b.submit_move(pt(3, 4), pt(4, 5)).unwrap_err(),
        MoveFailure::CantMoveThere
    );
    // A double push is blocked by a piece on the skipped square.
    let mut g = empty_grid();
    put(&mut g, 0, 4, PieceType::King, Color::White, false);
    put(&mut g, 7, 4, PieceType::King, Color::Black, false);
    put(&mut g, 1, 0, PieceType::Pawn, Color::White, false);
    put(&mut g, 2, 0, PieceType::Knight, Color::Black, true);
    let mut b = Board::from_setup(g, true, None, 0).unwrap();
    assert_eq!(
        b.submit_move(pt(1, 0), pt(3, 0)).unwrap_err(),
        MoveFailure::CantMoveThere
    );
}

#[test]
fn sliding_pieces_stop_at_obstructions() {
    let mut b2 = Board::new();
    // The bishop on c1 is blocked by its own pawn.
    assert_eq!(
        b2.submit_move(pt(0, 2), pt(2, 4)).unwrap_err(),
        MoveFailure::CantMoveThere
    );
    // The rook on a1 is blocked straight up by its own pawn.
    assert_eq!(
        b2.submit_move(pt(0, 0), pt(3, 0)).unwrap_err(),
        MoveFailure::CantMoveThere
    );
    // After the pawn leaves, the bishop's diagonal opens.
    assert!(b2.submit_move(pt(1, 3), pt(2, 3)).is_ok());
    assert!(b2.submit_move(pt(6, 0), pt(5, 0)).is_ok());
    assert!(b2.submit_move(pt(0, 2), pt(2, 4)).is_ok());
}

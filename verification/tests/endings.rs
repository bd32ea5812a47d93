use chess_engine::board::{Board, MoveFailure};
use chess_engine::piece::{Color, Piece, PieceType};
use chess_engine::point::Point;
use chess_engine::status::GameStatus;

fn pt(row: usize, col: usize) -> Point {
    Point { row, col }
}

fn empty_grid() -> Vec<Piece> {
    vec![
        Piece {
            piece_type: PieceType::Empty,
            color: Color::Empty,
            has_moved: false
        };
        64
    ]
}

fn put(v: &mut Vec<Piece>, r: usize, c: usize, t: PieceType, col: Color, moved: bool) {
    v[r * 8 + c] = Piece { piece_type: t, color: col, has_moved: moved };
}

#[test]
fn fools_mate_is_reported_as_checkmate() {
    let mut b = Board::new();
    assert!(b.submit_move(pt(1, 5), pt(2, 5)).is_ok());
    assert!(b.submit_move(pt(6, 4), pt(4, 4)).is_ok());
    assert!(b.submit_move(pt(1, 6), pt(3, 6)).is_ok());
    // The black queen slides to h4 and mates.
    assert!(b.submit_move(pt(7, 3), pt(3, 7)).is_ok());
    assert!(b.in_check_now(Color::White));
    assert!(!b.has_any_legal_move());
    assert_eq!(b.status(), GameStatus::Checkmate(Color::White));
}

#[test]
fn after_checkmate_every_reply_is_rejected() {
    let mut b = Board::new();
    assert!(b.submit_move(pt(1, 5), pt(2, 5)).is_ok());
    assert!(b.submit_move(pt(6, 4), pt(4, 4)).is_ok());
    assert!(b.submit_move(pt(1, 6), pt(3, 6)).is_ok());
    assert!(b.submit_move(pt(7, 3), pt(3, 7)).is_ok());
    // The mated side has no legal reply: a quiet pawn push would leave the
    // king in check, and the king itself cannot step out.
    assert_eq!(
        b.submit_move(pt(1, 0), pt(2, 0)).unwrap_err(),
        MoveFailure::WouldExposeKingToCheck
    );
    assert_eq!(
        b.submit_move(pt(0, 4), pt(1, 5)).unwrap_err(),
        MoveFailure::WouldExposeKingToCheck
    );
}

#[test]
fn check_without_mate_is_reported_as_check() {
    let mut b = Board::new();
    assert!(b.submit_move(pt(1, 4), pt(3, 4)).is_ok());
    assert!(b.submit_move(pt(6, 5), pt(5, 5)).is_ok());
    // The white queen checks from h5; Black can block with the g-pawn.
    assert!(b.submit_move(pt(0, 3), pt(4, 7)).is_ok());
    assert!(b.in_check_now(Color::Black));
    assert!(b.has_any_legal_move());
    assert_eq!(b.status(), GameStatus::Check(Color::Black));
}

#[test]
fn bare_king_with_no_moves_is_stalemate_not_checkmate() {
    let mut g = empty_grid();
    put(&mut g, 7, 7, PieceType::King, Color::Black, true);
    put(&mut g, 5, 6, PieceType::Queen, Color::White, true);
    put(&mut g, 0, 0, PieceType::King, Color::White, true);
    let b = Board::from_setup(g, false, None, 0).unwrap();
    assert!(!b.in_check_now(Color::Black));
    assert!(!b.has_any_legal_move());
    assert_eq!(b.status(), GameStatus::Stalemate);
}

#[test]
fn threefold_repetition_is_reported_on_the_third_occurrence() {
    let mut b = Board::new();
    for round in 0..3usize {
        assert!(b.submit_move(pt(0, 6), pt(2, 5)).is_ok());
        assert!(b.submit_move(pt(7, 6), pt(5, 5)).is_ok());
        assert!(b.submit_move(pt(2, 5), pt(0, 6)).is_ok());
        assert!(b.submit_move(pt(5, 5), pt(7, 6)).is_ok());
        assert_eq!(b.repetition_count(), round + 1);
        if round < 2 {
            assert_eq!(b.status(), GameStatus::Ongoing);
        }
    }
    assert_eq!(b.status(), GameStatus::DrawByRepetition);
}

#[test]
fn hundred_quiet_plies_draw_by_the_fifty_move_rule() {
    let mut g = empty_grid();
    put(&mut g, 0, 0, PieceType::King, Color::White, true);
    put(&mut g, 0, 7, PieceType::Rook, Color::White, true);
    put(&mut g, 7, 0, PieceType::King, Color::Black, true);
    let mut b = Board::from_setup(g, true, None, 99).unwrap();
    assert_eq!(b.status(), GameStatus::Ongoing);
    // One more quiet move reaches one hundred plies.
    assert!(b.submit_move(pt(0, 7), pt(5, 7)).is_ok());
    assert_eq!(b.halfmove_clock(), 100);
    assert_eq!(b.status(), GameStatus::DrawByFiftyMove);
}

#[test]
fn pawn_move_resets_the_fifty_move_count() {
    let mut g = empty_grid();
    put(&mut g, 0, 0, PieceType::King, Color::White, true);
    put(&mut g, 1, 7, PieceType::Pawn, Color::White, false);
    put(&mut g, 7, 0, PieceType::King, Color::Black, true);
    let mut b = Board::from_setup(g, true, None, 99).unwrap();
    assert!(b.submit_move(pt(1, 7), pt(2, 7)).is_ok());
    assert_eq!(b.halfmove_clock(), 0);
    assert_eq!(b.status(), GameStatus::Ongoing);
}

#[test]
fn back_rank_mate_found_by_the_classifier() {
    // A classic back-rank mate: the black king is walled in by its own
    // pawns and a white rook lands on the back rank.
    let mut g = empty_grid();
    put(&mut g, 7, 6, PieceType::King, Color::Black, true);
    put(&mut g, 6, 5, PieceType::Pawn, Color::Black, false);
    put(&mut g, 6, 6, PieceType::Pawn, Color::Black, false);
    put(&mut g, 6, 7, PieceType::Pawn, Color::Black, false);
    put(&mut g, 5, 0, PieceType::Rook, Color::White, true);
    put(&mut g, 0, 4, PieceType::King, Color::White, true);
    let mut b = Board::from_setup(g, true, None, 0).unwrap();
    assert!(b.submit_move(pt(5, 0), pt(7, 0)).is_ok());
    assert_eq!(b.status(), GameStatus::Checkmate(Color::Black));
}

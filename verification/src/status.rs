use vstd::prelude::*;

use crate::board::{fp_count, spec_validate, Model};
use crate::geometry::sq_in_range;
use crate::grid::in_check;
use crate::piece::Color;
use crate::point::Point;

verus! {

/// The state of the game as reported after a move: play continuing (with or
/// without check), a decided game, or a drawn one. Terminal statuses do not
/// stop the engine itself; the caller is expected to stop submitting moves.
#[derive(Copy, Clone, Debug, PartialEq, Eq, Structural)]
pub enum GameStatus {
    Ongoing,
    /// The named colour is to move and stands in check.
    Check(Color),
    /// The named colour is to move, stands in check, and has no legal reply.
    Checkmate(Color),
    /// The side to move has no legal reply but does not stand in check.
    Stalemate,
    /// The current position has now occurred three times.
    DrawByRepetition,
    /// One hundred plies have passed without a capture or a pawn move.
    DrawByFiftyMove,
}

/// The square with these coordinates.
pub open spec fn pt(r: int, c: int) -> Point {
    Point { row: r as usize, col: c as usize }
}

/// The move from `(sr, sc)` to `(er, ec)` passes the whole validation
/// pipeline.
pub open spec fn accepted_rc(m: Model, sr: int, sc: int, er: int, ec: int) -> bool {
    sq_in_range(sr, sc) && sq_in_range(er, ec) && spec_validate(m, pt(sr, sc), pt(er, ec)) is Ok
}

/// The side to move has at least one legal move.
pub open spec fn any_legal_move(m: Model) -> bool {
    exists|sr: int, sc: int, er: int, ec: int| #[trigger] accepted_rc(m, sr, sc, er, ec)
}

/// The status of the position for the side to move. A side without a legal
/// reply is mated if in check, else stalemated; otherwise a third occurrence
/// of the position draws, then a hundred quiet plies, then check or ongoing
/// play is reported.
pub open spec fn spec_status(m: Model) -> GameStatus {
    let col = m.to_move();
    if !any_legal_move(m) {
        if in_check(m.grid, col) {
            GameStatus::Checkmate(col)
        } else {
            GameStatus::Stalemate
        }
    } else if fp_count(m.history, m.current_fp()) >= 3 {
        GameStatus::DrawByRepetition
    } else if m.halfmove_clock >= 100 {
        GameStatus::DrawByFiftyMove
    } else if in_check(m.grid, col) {
        GameStatus::Check(col)
    } else {
        GameStatus::Ongoing
    }
}

} // verus!

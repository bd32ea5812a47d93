use vstd::prelude::*;

use crate::geometry::{
    abs_val, diagonal_shape, king_shape, knight_shape, straight_shape, strictly_between,
};
use crate::grid::{
    at, copy_grid, diagonal_check_for_pieces, grid_at, grid_set, horizontal_check_for_pieces,
    is_attacked, pawn_direction, path_clear, square_attacked,
};
use crate::piece::{Color, Piece, PieceType};
use crate::point::Point;

verus! {

/// How an already-validated move is to be executed.
#[derive(Copy, Clone, Debug, PartialEq, Eq, Structural)]
pub enum MoveKind {
    /// Move one piece from start to end, capturing whatever stood there.
    Normal,
    /// A pawn's two-square advance, which opens an en-passant window.
    DoublePush,
    /// An en-passant capture: the captured pawn stands beside the start square.
    EnPassant,
    /// A castle: the rook moves in the same ply as the king.
    Castle { rook_from: Point, rook_to: Point },
}

/// The rank a pawn of this colour starts on.
pub open spec fn pawn_start_row(c: Color) -> int {
    if c == Color::White {
        1
    } else {
        6
    }
}

/// The back rank of this colour.
pub open spec fn home_row(c: Color) -> int {
    if c == Color::White {
        0
    } else {
        7
    }
}

/// The en-passant target is exactly the square `(er, ec)`.
pub open spec fn ep_matches(ep: Option<Point>, er: int, ec: int) -> bool {
    match ep {
        Option::Some(t) => t.row == er && t.col == ec,
        Option::None => false,
    }
}

/// The grid after the single piece on `(sr, sc)` steps to `(er, ec)`: the
/// destination receives the piece with its moved flag set, the start square
/// is cleared. Captures fall out of the overwrite.
pub open spec fn basic_move(g: Seq<Piece>, sr: int, sc: int, er: int, ec: int) -> Seq<Piece> {
    g.update(er * 8 + ec, at(g, sr, sc).after_move()).update(sr * 8 + sc, Piece::empty())
}

/// Execute a single-piece step on the grid.
pub fn apply_basic_move(g: &mut Vec<Piece>, start_point: Point, end_point: Point)
    requires
        old(g)@.len() == 64,
        start_point.in_range(),
        end_point.in_range(),
    ensures
        final(g)@ == basic_move(
            old(g)@,
            start_point.row as int,
            start_point.col as int,
            end_point.row as int,
            end_point.col as int,
        ),
{
    let mut p = grid_at(g, start_point.row, start_point.col);
    p.has_moved = true;
    grid_set(g, end_point.row, end_point.col, p);
    grid_set(g, start_point.row, start_point.col, Piece::new());
}

/// A pawn's move from `(sr, sc)` to `(er, ec)`: one square forward onto an
/// empty square; two squares forward from its starting rank over an empty
/// square; or one square diagonally forward onto an occupied square or onto
/// the en-passant target.
pub open spec fn pawn_move_ok(
    g: Seq<Piece>,
    ep: Option<Point>,
    sr: int,
    sc: int,
    er: int,
    ec: int,
) -> bool {
    let col = at(g, sr, sc).color;
    let d = pawn_direction(col);
    if sc == ec {
        at(g, er, ec).spec_is_empty() && (er - sr == d || (er - sr == d + d && sr
            == pawn_start_row(col) && at(g, sr + d, sc).spec_is_empty()))
    } else if abs_val(sc - ec) == 1 && er - sr == d {
        !at(g, er, ec).spec_is_empty() || ep_matches(ep, er, ec)
    } else {
        false
    }
}

/// Decide a pawn move.
pub fn can_pawn_move(g: &Vec<Piece>, ep: Option<Point>, start_point: Point, end_point: Point) -> (r:
    bool)
    requires
        g@.len() == 64,
        start_point.in_range(),
        end_point.in_range(),
    ensures
        r == pawn_move_ok(
            g@,
            ep,
            start_point.row as int,
            start_point.col as int,
            end_point.row as int,
            end_point.col as int,
        ),
{
    let p = grid_at(g, start_point.row, start_point.col);
    let white = p.color == Color::White;
    if start_point.col == end_point.col {
        if !grid_at(g, end_point.row, end_point.col).is_empty() {
            return false;
        }
        let single = if white {
            end_point.row == start_point.row + 1
        } else {
            end_point.row + 1 == start_point.row
        };
        if single {
            return true;
        }
        let double = if white {
            end_point.row == start_point.row + 2 && start_point.row == 1
        } else {
            end_point.row + 2 == start_point.row && start_point.row == 6
        };
        if double {
            let skipped_row = if white {
                start_point.row + 1
            } else {
                start_point.row - 1
            };
            return grid_at(g, skipped_row, start_point.col).is_empty();
        }
        false
    } else {
        let dc = if start_point.col >= end_point.col {
            start_point.col - end_point.col
        } else {
            end_point.col - start_point.col
        };
        let forward = if white {
            end_point.row == start_point.row + 1
        } else {
            end_point.row + 1 == start_point.row
        };
        if !(dc == 1 && forward) {
            return false;
        }
        if !grid_at(g, end_point.row, end_point.col).is_empty() {
            return true;
        }
        match ep {
            Option::Some(t) => t.row == end_point.row && t.col == end_point.col,
            Option::None => false,
        }
    }
}

/// Castling from the king's side: the king stands unmoved on its home square
/// and is not in check; the rook of that wing stands unmoved on its corner;
/// the squares between them are empty; and the king is attacked neither on
/// the square it crosses nor on the square it lands on, each judged on the
/// position with the king already standing there.
pub open spec fn castle_ok(g: Seq<Piece>, sr: int, sc: int, er: int, ec: int, col: Color) -> bool {
    let king = at(g, sr, sc);
    let rook_col: int = if ec > sc {
        7
    } else {
        0
    };
    let mid: int = (sc + ec) / 2;
    &&& er == sr
    &&& sr == home_row(col)
    &&& sc == 4
    &&& (ec == 6 || ec == 2)
    &&& !king.has_moved
    &&& !square_attacked(g, sr, sc, col.spec_opposite())
    &&& at(g, sr, rook_col).piece_type == PieceType::Rook
    &&& at(g, sr, rook_col).color == col
    &&& !at(g, sr, rook_col).has_moved
    &&& (forall|c: int|
        strictly_between(sc, rook_col, c) ==> (#[trigger] at(g, sr, c)).spec_is_empty())
    &&& !square_attacked(basic_move(g, sr, sc, sr, mid), sr, mid, col.spec_opposite())
    &&& !square_attacked(basic_move(g, sr, sc, sr, ec), sr, ec, col.spec_opposite())
}

/// Decide a king move: one square in any direction, or a castle.
pub fn can_king_move(g: &Vec<Piece>, start_point: Point, end_point: Point) -> (r: bool)
    requires
        g@.len() == 64,
        start_point.in_range(),
        end_point.in_range(),
    ensures
        r == (king_shape(
            start_point.row as int,
            start_point.col as int,
            end_point.row as int,
            end_point.col as int,
        ) || castle_ok(
            g@,
            start_point.row as int,
            start_point.col as int,
            end_point.row as int,
            end_point.col as int,
            at(g@, start_point.row as int, start_point.col as int).color,
        )),
{
    let ghost sr = start_point.row as int;
    let ghost sc = start_point.col as int;
    let ghost er = end_point.row as int;
    let ghost ec = end_point.col as int;
    let dr = if start_point.row >= end_point.row {
        start_point.row - end_point.row
    } else {
        end_point.row - start_point.row
    };
    let dc = if start_point.col >= end_point.col {
        start_point.col - end_point.col
    } else {
        end_point.col - start_point.col
    };
    if dr <= 1 && dc <= 1 && !(dr == 0 && dc == 0) {
        return true;
    }
    // From here on only a castle can make the move legal.
    let p = grid_at(g, start_point.row, start_point.col);
    let col = p.color;
    if !(end_point.row == start_point.row && dc == 2) {
        return false;
    }
    let home = if col == Color::White {
        0
    } else {
        7
    };
    if !(start_point.row == home && start_point.col == 4) {
        return false;
    }
    if p.has_moved {
        return false;
    }
    if is_attacked(g, start_point, col.opposite()) {
        return false;
    }
    let rook_col = if end_point.col > start_point.col {
        7
    } else {
        0
    };
    let rook = grid_at(g, start_point.row, rook_col);
    if !(rook.piece_type == PieceType::Rook && rook.color == col && !rook.has_moved) {
        return false;
    }
    // The squares strictly between king and rook.
    if rook_col == 7 {
        if !grid_at(g, start_point.row, 5).is_empty() || !grid_at(g, start_point.row, 6).is_empty()
        {
            return false;
        }
    } else {
        if !grid_at(g, start_point.row, 1).is_empty() || !grid_at(g, start_point.row, 2).is_empty()
            || !grid_at(g, start_point.row, 3).is_empty() {
            return false;
        }
    }
    proof {
        assert forall|c: int| strictly_between(sc, rook_col as int, c) implies (#[trigger] at(
            g@,
            sr,
            c,
        )).spec_is_empty() by {
            if rook_col == 7 {
                assert(c == 5 || c == 6);
            } else {
                assert(c == 1 || c == 2 || c == 3);
            }
        }
    }
    let mid = (start_point.col + end_point.col) / 2;
    let mid_point = Point { row: start_point.row, col: mid };
    let mut scratch = copy_grid(g);
    apply_basic_move(&mut scratch, start_point, mid_point);
    if is_attacked(&scratch, mid_point, col.opposite()) {
        return false;
    }
    let mut scratch2 = copy_grid(g);
    apply_basic_move(&mut scratch2, start_point, end_point);
    if is_attacked(&scratch2, end_point, col.opposite()) {
        return false;
    }
    true
}

/// Decide a knight move.
pub fn can_knight_move(start_point: Point, end_point: Point) -> (r: bool)
    ensures
        r == knight_shape(
            start_point.row as int,
            start_point.col as int,
            end_point.row as int,
            end_point.col as int,
        ),
{
    let dr = if start_point.row >= end_point.row {
        start_point.row - end_point.row
    } else {
        end_point.row - start_point.row
    };
    let dc = if start_point.col >= end_point.col {
        start_point.col - end_point.col
    } else {
        end_point.col - start_point.col
    };
    (dr == 1 && dc == 2) || (dr == 2 && dc == 1)
}

/// The geometric and obstruction rule for whatever piece stands on the start
/// square, before turn order, own-capture and king-safety are considered.
pub open spec fn piece_move_ok(
    g: Seq<Piece>,
    ep: Option<Point>,
    sr: int,
    sc: int,
    er: int,
    ec: int,
) -> bool {
    let p = at(g, sr, sc);
    match p.piece_type {
        PieceType::Knight => knight_shape(sr, sc, er, ec),
        PieceType::Bishop => diagonal_shape(sr, sc, er, ec) && path_clear(g, sr, sc, er, ec),
        PieceType::Rook => straight_shape(sr, sc, er, ec) && path_clear(g, sr, sc, er, ec),
        PieceType::Queen => (diagonal_shape(sr, sc, er, ec) || straight_shape(sr, sc, er, ec))
            && path_clear(g, sr, sc, er, ec),
        PieceType::King => king_shape(sr, sc, er, ec) || castle_ok(g, sr, sc, er, ec, p.color),
        PieceType::Pawn => pawn_move_ok(g, ep, sr, sc, er, ec),
        PieceType::Empty => false,
    }
}

/// Decide the per-kind rule for the piece on the start square.
pub fn can_piece_move(g: &Vec<Piece>, ep: Option<Point>, start_point: Point, end_point: Point) -> (
    r: bool)
    requires
        g@.len() == 64,
        start_point.in_range(),
        end_point.in_range(),
    ensures
        r == piece_move_ok(
            g@,
            ep,
            start_point.row as int,
            start_point.col as int,
            end_point.row as int,
            end_point.col as int,
        ),
{
    let p = grid_at(g, start_point.row, start_point.col);
    let dr = if start_point.row >= end_point.row {
        start_point.row - end_point.row
    } else {
        end_point.row - start_point.row
    };
    let dc = if start_point.col >= end_point.col {
        start_point.col - end_point.col
    } else {
        end_point.col - start_point.col
    };
    match p.piece_type {
        PieceType::Knight => can_knight_move(start_point, end_point),
        PieceType::Bishop => dr == dc && dr != 0 && diagonal_check_for_pieces(
            g,
            start_point,
            end_point,
        ),
        PieceType::Rook => ((dr == 0 && dc != 0) || (dr != 0 && dc == 0))
            && horizontal_check_for_pieces(g, start_point, end_point),
        PieceType::Queen => {
            if dr == dc && dr != 0 {
                diagonal_check_for_pieces(g, start_point, end_point)
            } else if (dr == 0 && dc != 0) || (dr != 0 && dc == 0) {
                horizontal_check_for_pieces(g, start_point, end_point)
            } else {
                false
            }
        },
        PieceType::King => can_king_move(g, start_point, end_point),
        PieceType::Pawn => can_pawn_move(g, ep, start_point, end_point),
        PieceType::Empty => false,
    }
}

/// Which kind of move a geometrically legal move from start to end is.
pub open spec fn classify_move(g: Seq<Piece>, sr: int, sc: int, er: int, ec: int) -> MoveKind {
    let p = at(g, sr, sc);
    if p.piece_type == PieceType::Pawn && abs_val(er - sr) == 2 {
        MoveKind::DoublePush
    } else if p.piece_type == PieceType::Pawn && sc != ec && at(g, er, ec).spec_is_empty() {
        MoveKind::EnPassant
    } else if p.piece_type == PieceType::King && abs_val(ec - sc) == 2 {
        MoveKind::Castle {
            rook_from: Point {
                row: sr as usize,
                col: if ec > sc {
                    7
                } else {
                    0
                },
            },
            rook_to: Point { row: sr as usize, col: ((sc + ec) / 2) as usize },
        }
    } else {
        MoveKind::Normal
    }
}

/// Compute the kind of a move.
pub fn classify(g: &Vec<Piece>, start_point: Point, end_point: Point) -> (k: MoveKind)
    requires
        g@.len() == 64,
        start_point.in_range(),
        end_point.in_range(),
    ensures
        k == classify_move(
            g@,
            start_point.row as int,
            start_point.col as int,
            end_point.row as int,
            end_point.col as int,
        ),
{
    let p = grid_at(g, start_point.row, start_point.col);
    let dr = if start_point.row >= end_point.row {
        start_point.row - end_point.row
    } else {
        end_point.row - start_point.row
    };
    let dc = if start_point.col >= end_point.col {
        start_point.col - end_point.col
    } else {
        end_point.col - start_point.col
    };
    if p.piece_type == PieceType::Pawn && dr == 2 {
        MoveKind::DoublePush
    } else if p.piece_type == PieceType::Pawn && start_point.col != end_point.col && grid_at(
        g,
        end_point.row,
        end_point.col,
    ).is_empty() {
        MoveKind::EnPassant
    } else if p.piece_type == PieceType::King && dc == 2 {
        MoveKind::Castle {
            rook_from: Point {
                row: start_point.row,
                col: if end_point.col > start_point.col {
                    7
                } else {
                    0
                },
            },
            rook_to: Point {
                row: start_point.row,
                col: (start_point.col + end_point.col) / 2,
            },
        }
    } else {
        MoveKind::Normal
    }
}

} // verus!

use vstd::prelude::*;

use crate::geometry::{
    abs_val, diagonal_shape, king_shape, knight_shape, on_strict_segment, sq_in_range,
    straight_shape, strictly_between,
};
use crate::piece::{Color, Piece, PieceType};
use crate::point::Point;

verus! {

/// The piece standing on square `(r, c)` of a row-major grid of 64 squares.
pub open spec fn at(g: Seq<Piece>, r: int, c: int) -> Piece {
    g[r * 8 + c]
}

/// The grid has exactly 64 squares and every square holds a well-formed piece.
pub open spec fn grid_wf(g: Seq<Piece>) -> bool {
    g.len() == 64 && (forall|i: int| 0 <= i < 64 ==> (#[trigger] g[i]).wf())
}

/// Read one square.
pub fn grid_at(g: &Vec<Piece>, row: usize, col: usize) -> (p: Piece)
    requires
        g@.len() == 64,
        row < 8,
        col < 8,
    ensures
        p == at(g@, row as int, col as int),
{
    g[row * 8 + col]
}

/// Overwrite one square.
pub fn grid_set(g: &mut Vec<Piece>, row: usize, col: usize, p: Piece)
    requires
        old(g)@.len() == 64,
        row < 8,
        col < 8,
    ensures
        final(g)@ == old(g)@.update(row * 8 + col, p),
{
    g.set(row * 8 + col, p);
}

/// An element-for-element copy of the grid, used as scratch space when a
/// candidate move is tried out without committing it.
pub fn copy_grid(g: &Vec<Piece>) -> (r: Vec<Piece>)
    ensures
        r@ == g@,
{
    let mut out: Vec<Piece> = Vec::new();
    let mut i: usize = 0;
    while i < g.len()
        invariant
            i <= g@.len(),
            out@ =~= g@.subrange(0, i as int),
        decreases g@.len() - i,
    {
        out.push(g[i]);
        i += 1;
    }
    proof {
        assert(out@ =~= g@);
    }
    out
}

/// Every square strictly between the two ends, along the rank, file or
/// diagonal joining them, is empty.
pub open spec fn path_clear(g: Seq<Piece>, sr: int, sc: int, er: int, ec: int) -> bool {
    forall|r: int, c: int|
        on_strict_segment(sr, sc, er, ec, r, c) ==> (#[trigger] at(g, r, c)).spec_is_empty()
}

/// Walk the squares strictly between the ends of a rank or file move and
/// report whether all of them are empty.
#[verifier::loop_isolation(false)]
pub fn horizontal_check_for_pieces(g: &Vec<Piece>, start_point: Point, end_point: Point) -> (r:
    bool)
    requires
        g@.len() == 64,
        start_point.in_range(),
        end_point.in_range(),
        straight_shape(
            start_point.row as int,
            start_point.col as int,
            end_point.row as int,
            end_point.col as int,
        ),
    ensures
        r == path_clear(
            g@,
            start_point.row as int,
            start_point.col as int,
            end_point.row as int,
            end_point.col as int,
        ),
{
    let ghost sr = start_point.row as int;
    let ghost sc = start_point.col as int;
    let ghost er = end_point.row as int;
    let ghost ec = end_point.col as int;
    if start_point.row == end_point.row {
        let row = start_point.row;
        let lo = if start_point.col < end_point.col {
            start_point.col
        } else {
            end_point.col
        };
        let hi = if start_point.col < end_point.col {
            end_point.col
        } else {
            start_point.col
        };
        let mut c = lo + 1;
        while c < hi
            invariant
                lo + 1 <= c,
                forall|cc: int|
                    lo < cc < c ==> (#[trigger] at(g@, row as int, cc)).spec_is_empty(),
            decreases hi - c,
        {
            let p = grid_at(g, row, c);
            if !p.is_empty() {
                proof {
                    assert(on_strict_segment(sr, sc, er, ec, row as int, c as int));
                    assert(!at(g@, row as int, c as int).spec_is_empty());
                    assert(!path_clear(g@, sr, sc, er, ec));
                }
                return false;
            }
            c += 1;
        }
        proof {
            assert forall|rr: int, cc: int| on_strict_segment(sr, sc, er, ec, rr, cc) implies (
            #[trigger] at(g@, rr, cc)).spec_is_empty() by {
                assert(rr == row as int);
                assert(lo < cc < hi);
                assert(at(g@, row as int, cc).spec_is_empty());
            }
        }
        true
    } else {
        let col = start_point.col;
        let lo = if start_point.row < end_point.row {
            start_point.row
        } else {
            end_point.row
        };
        let hi = if start_point.row < end_point.row {
            end_point.row
        } else {
            start_point.row
        };
        let mut r = lo + 1;
        while r < hi
            invariant
                lo + 1 <= r,
                forall|rr: int|
                    lo < rr < r ==> (#[trigger] at(g@, rr, col as int)).spec_is_empty(),
            decreases hi - r,
        {
            let p = grid_at(g, r, col);
            if !p.is_empty() {
                proof {
                    assert(on_strict_segment(sr, sc, er, ec, r as int, col as int));
                    assert(!at(g@, r as int, col as int).spec_is_empty());
                    assert(!path_clear(g@, sr, sc, er, ec));
                }
                return false;
            }
            r += 1;
        }
        proof {
            assert forall|rr: int, cc: int| on_strict_segment(sr, sc, er, ec, rr, cc) implies (
            #[trigger] at(g@, rr, cc)).spec_is_empty() by {
                assert(cc == col as int);
                assert(lo < rr < hi);
                assert(at(g@, rr, col as int).spec_is_empty());
            }
        }
        true
    }
}

/// Walk the squares strictly between the ends of a diagonal move and report
/// whether all of them are empty.
#[verifier::loop_isolation(false)]
pub fn diagonal_check_for_pieces(g: &Vec<Piece>, start_point: Point, end_point: Point) -> (r: bool)
    requires
        g@.len() == 64,
        start_point.in_range(),
        end_point.in_range(),
        diagonal_shape(
            start_point.row as int,
            start_point.col as int,
            end_point.row as int,
            end_point.col as int,
        ),
    ensures
        r == path_clear(
            g@,
            start_point.row as int,
            start_point.col as int,
            end_point.row as int,
            end_point.col as int,
        ),
{
    let ghost sr = start_point.row as int;
    let ghost sc = start_point.col as int;
    let ghost er = end_point.row as int;
    let ghost ec = end_point.col as int;
    // Reorient so that the walk always climbs the rows.
    let (lo_r, lo_c, hi_r, hi_c) = if start_point.row < end_point.row {
        (start_point.row, start_point.col, end_point.row, end_point.col)
    } else {
        (end_point.row, end_point.col, start_point.row, start_point.col)
    };
    // On a main diagonal the column climbs with the row; on an anti-diagonal
    // it falls.
    let rising = lo_c < hi_c;
    let mut r = lo_r + 1;
    let mut c = if rising {
        lo_c + 1
    } else {
        lo_c - 1
    };
    while r < hi_r
        invariant
            lo_r + 1 <= r <= hi_r,
            rising ==> c as int == lo_c + (r - lo_r),
            !rising ==> c as int == lo_c - (r - lo_r),
            rising ==> (forall|rr: int, cc: int|
                lo_r < rr < r && rr - cc == lo_r - lo_c ==> (#[trigger] at(
                    g@,
                    rr,
                    cc,
                )).spec_is_empty()),
            !rising ==> (forall|rr: int, cc: int|
                lo_r < rr < r && rr + cc == lo_r + lo_c ==> (#[trigger] at(
                    g@,
                    rr,
                    cc,
                )).spec_is_empty()),
        decreases hi_r - r,
    {
        let p = grid_at(g, r, c);
        if !p.is_empty() {
            proof {
                assert(on_strict_segment(sr, sc, er, ec, r as int, c as int));
                assert(!at(g@, r as int, c as int).spec_is_empty());
                assert(!path_clear(g@, sr, sc, er, ec));
            }
            return false;
        }
        r += 1;
        if rising {
            c += 1;
        } else {
            c -= 1;
        }
    }
    proof {
        assert forall|rr: int, cc: int| on_strict_segment(sr, sc, er, ec, rr, cc) implies (
        #[trigger] at(g@, rr, cc)).spec_is_empty() by {
            assert(strictly_between(sr, er, rr));
            assert(lo_r < rr < hi_r);
        }
    }
    true
}

/// The direction a pawn of this colour advances: White towards higher rows.
pub open spec fn pawn_direction(c: Color) -> int {
    if c == Color::White {
        1
    } else {
        -1
    }
}

/// The piece on `(sr, sc)` bears on square `(er, ec)`: it could capture a
/// piece standing there. Pawns bear only on their two capture diagonals;
/// sliding pieces need the path between to be clear; the side to move is
/// ignored.
pub open spec fn attacks(g: Seq<Piece>, sr: int, sc: int, er: int, ec: int) -> bool {
    let p = at(g, sr, sc);
    match p.piece_type {
        PieceType::Knight => knight_shape(sr, sc, er, ec),
        PieceType::King => king_shape(sr, sc, er, ec),
        PieceType::Bishop => diagonal_shape(sr, sc, er, ec) && path_clear(g, sr, sc, er, ec),
        PieceType::Rook => straight_shape(sr, sc, er, ec) && path_clear(g, sr, sc, er, ec),
        PieceType::Queen => (diagonal_shape(sr, sc, er, ec) || straight_shape(sr, sc, er, ec))
            && path_clear(g, sr, sc, er, ec),
        PieceType::Pawn => er - sr == pawn_direction(p.color) && abs_val(sc - ec) == 1,
        PieceType::Empty => false,
    }
}

/// Decide whether the piece on `start_point` bears on `end_point`.
pub fn attacks_square(g: &Vec<Piece>, start_point: Point, end_point: Point) -> (r: bool)
    requires
        g@.len() == 64,
        start_point.in_range(),
        end_point.in_range(),
    ensures
        r == attacks(
            g@,
            start_point.row as int,
            start_point.col as int,
            end_point.row as int,
            end_point.col as int,
        ),
{
    let p = grid_at(g, start_point.row, start_point.col);
    let dr = if start_point.row >= end_point.row {
        start_point.row - end_point.row
    } else {
        end_point.row - start_point.row
    };
    let dc = if start_point.col >= end_point.col {
        start_point.col - end_point.col
    } else {
        end_point.col - start_point.col
    };
    match p.piece_type {
        PieceType::Knight => (dr == 1 && dc == 2) || (dr == 2 && dc == 1),
        PieceType::King => dr <= 1 && dc <= 1 && !(dr == 0 && dc == 0),
        PieceType::Bishop => dr == dc && dr != 0 && diagonal_check_for_pieces(
            g,
            start_point,
            end_point,
        ),
        PieceType::Rook => ((dr == 0 && dc != 0) || (dr != 0 && dc == 0))
            && horizontal_check_for_pieces(g, start_point, end_point),
        PieceType::Queen => {
            if dr == dc && dr != 0 {
                diagonal_check_for_pieces(g, start_point, end_point)
            } else if (dr == 0 && dc != 0) || (dr != 0 && dc == 0) {
                horizontal_check_for_pieces(g, start_point, end_point)
            } else {
                false
            }
        },
        PieceType::Pawn => {
            let forward = if p.color == Color::White {
                end_point.row == start_point.row + 1
            } else {
                end_point.row + 1 == start_point.row
            };
            forward && dc == 1
        },
        PieceType::Empty => false,
    }
}

/// Some piece of colour `by` bears on square `(tr, tc)`.
pub open spec fn square_attacked(g: Seq<Piece>, tr: int, tc: int, by: Color) -> bool {
    exists|r: int, c: int|
        sq_in_range(r, c) && at(g, r, c).color == by && #[trigger] attacks(g, r, c, tr, tc)
}

/// No piece of colour `by` standing before `(row, col)` in row-major order
/// bears on the target square. The scan invariant of `is_attacked`.
pub open spec fn no_attacker_before(
    g: Seq<Piece>,
    tr: int,
    tc: int,
    by: Color,
    row: int,
    col: int,
) -> bool {
    forall|r: int, c: int|
        0 <= r < 8 && 0 <= c < 8 && (r < row || (r == row && c < col)) ==> !(at(g, r, c).color == by
            && #[trigger] attacks(g, r, c, tr, tc))
}

/// Scan the whole grid for a piece of colour `by` bearing on `target`.
pub fn is_attacked(g: &Vec<Piece>, target: Point, by: Color) -> (r: bool)
    requires
        g@.len() == 64,
        target.in_range(),
    ensures
        r == square_attacked(g@, target.row as int, target.col as int, by),
{
    let ghost tr = target.row as int;
    let ghost tc = target.col as int;
    let mut row: usize = 0;
    while row < 8
        invariant
            g@.len() == 64,
            target.in_range(),
            tr == target.row as int,
            tc == target.col as int,
            row <= 8,
            no_attacker_before(g@, tr, tc, by, row as int, 0),
        decreases 8 - row,
    {
        let mut col: usize = 0;
        while col < 8
            invariant
                g@.len() == 64,
                target.in_range(),
                tr == target.row as int,
                tc == target.col as int,
                row < 8,
                col <= 8,
                no_attacker_before(g@, tr, tc, by, row as int, col as int),
            decreases 8 - col,
        {
            let p = grid_at(g, row, col);
            if p.color == by && attacks_square(g, Point { row, col }, target) {
                proof {
                    assert(sq_in_range(row as int, col as int) && at(g@, row as int, col as int)
                        .color == by && attacks(g@, row as int, col as int, tr, tc));
                }
                return true;
            }
            col += 1;
        }
        row += 1;
    }
    proof {
        assert(no_attacker_before(g@, tr, tc, by, 8, 0));
        if square_attacked(g@, tr, tc, by) {
            let (r, c) = choose|r: int, c: int|
                sq_in_range(r, c) && at(g@, r, c).color == by && #[trigger] attacks(
                    g@,
                    r,
                    c,
                    tr,
                    tc,
                );
            assert(false);
        }
    }
    false
}

/// A king of the given colour stands on `(r, c)`.
pub open spec fn is_king_at(g: Seq<Piece>, r: int, c: int, color: Color) -> bool {
    at(g, r, c).piece_type == PieceType::King && at(g, r, c).color == color
}

/// Some square holds a king of the given colour.
pub open spec fn has_king(g: Seq<Piece>, color: Color) -> bool {
    exists|r: int, c: int| sq_in_range(r, c) && #[trigger] is_king_at(g, r, c, color)
}

/// At most one square holds a king of the given colour.
pub open spec fn king_unique(g: Seq<Piece>, color: Color) -> bool {
    forall|r1: int, c1: int, r2: int, c2: int|
        sq_in_range(r1, c1) && sq_in_range(r2, c2) && #[trigger] is_king_at(g, r1, c1, color)
            && #[trigger] is_king_at(g, r2, c2, color) ==> r1 == r2 && c1 == c2
}

/// No king of the given colour stands before `(row, col)` in row-major order.
pub open spec fn no_king_before(g: Seq<Piece>, color: Color, row: int, col: int) -> bool {
    forall|r: int, c: int|
        0 <= r < 8 && 0 <= c < 8 && (r < row || (r == row && c < col)) ==> !(#[trigger] is_king_at(
            g,
            r,
            c,
            color,
        ))
}

/// Locate the king of the given colour.
pub fn find_king(g: &Vec<Piece>, color: Color) -> (k: Point)
    requires
        g@.len() == 64,
        has_king(g@, color),
    ensures
        k.in_range(),
        is_king_at(g@, k.row as int, k.col as int, color),
{
    let mut row: usize = 0;
    while row < 8
        invariant
            g@.len() == 64,
            has_king(g@, color),
            row <= 8,
            no_king_before(g@, color, row as int, 0),
        decreases 8 - row,
    {
        let mut col: usize = 0;
        while col < 8
            invariant
                g@.len() == 64,
                has_king(g@, color),
                row < 8,
                col <= 8,
                no_king_before(g@, color, row as int, col as int),
            decreases 8 - col,
        {
            let p = grid_at(g, row, col);
            if p.piece_type == PieceType::King && p.color == color {
                return Point { row, col };
            }
            col += 1;
        }
        row += 1;
    }
    proof {
        assert(no_king_before(g@, color, 8, 0));
        let (r, c) = choose|r: int, c: int|
            sq_in_range(r, c) && #[trigger] is_king_at(g@, r, c, color);
        assert(false);
    }
    Point { row: 0, col: 0 }
}

/// The king of the given colour is attacked by the opposing side.
pub open spec fn in_check(g: Seq<Piece>, color: Color) -> bool {
    exists|r: int, c: int|
        sq_in_range(r, c) && #[trigger] is_king_at(g, r, c, color) && square_attacked(
            g,
            r,
            c,
            color.spec_opposite(),
        )
}

/// Decide whether the king of the given colour is attacked.
pub fn in_check_grid(g: &Vec<Piece>, color: Color) -> (r: bool)
    requires
        g@.len() == 64,
        has_king(g@, color),
        king_unique(g@, color),
    ensures
        r == in_check(g@, color),
{
    let k = find_king(g, color);
    let attacked = is_attacked(g, k, color.opposite());
    proof {
        if attacked {
            assert(is_king_at(g@, k.row as int, k.col as int, color) && square_attacked(
                g@,
                k.row as int,
                k.col as int,
                color.spec_opposite(),
            ));
        } else {
            if in_check(g@, color) {
                let (r, c) = choose|r: int, c: int|
                    sq_in_range(r, c) && #[trigger] is_king_at(g@, r, c, color) && square_attacked(
                        g@,
                        r,
                        c,
                        color.spec_opposite(),
                    );
                assert(is_king_at(g@, k.row as int, k.col as int, color));
                assert(r == k.row as int && c == k.col as int);
                assert(false);
            }
        }
    }
    attacked
}

} // verus!

use vstd::prelude::*;

use crate::board::{apply_model, lemma_ep_square, spec_validate, Model};
use crate::geometry::abs_val;
use crate::grid::{at, grid_wf, pawn_direction};
use crate::piece::{Piece, PieceType};
use crate::point::Point;
use crate::rules::{basic_move, castle_ok, classify_move, MoveKind};

verus! {

/// A double push opens the en-passant window on the very square the pawn
/// skipped; every other accepted move closes the window. The opportunity
/// therefore lasts exactly one ply.
pub proof fn lemma_en_passant_window(m: Model, s: Point, e: Point)
    requires
        m.wf(),
        spec_validate(m, s, e) is Ok,
    ensures
        ({
            let kind = classify_move(m.grid, s.row as int, s.col as int, e.row as int, e.col as int);
            let m2 = apply_model(m, s, e);
            &&& kind == MoveKind::DoublePush ==> m2.en_passant == Option::Some(
                Point { row: ((s.row + e.row) / 2) as usize, col: s.col },
            )
            &&& kind != MoveKind::DoublePush ==> m2.en_passant is None
        }),
{
}

/// An accepted en-passant capture is a pawn's diagonal step onto the
/// en-passant target: the landing square is empty, and the move removes the
/// pawn that just double-pushed from the square beside the start.
pub proof fn lemma_en_passant_capture(m: Model, s: Point, e: Point)
    requires
        m.wf(),
        spec_validate(m, s, e) is Ok,
        classify_move(m.grid, s.row as int, s.col as int, e.row as int, e.col as int)
            == MoveKind::EnPassant,
    ensures
        at(m.grid, s.row as int, s.col as int).piece_type == PieceType::Pawn,
        at(m.grid, s.row as int, s.col as int).color == m.to_move(),
        m.en_passant == Option::Some(e),
        e.row as int - s.row as int == pawn_direction(m.to_move()),
        abs_val(s.col as int - e.col as int) == 1,
        at(m.grid, e.row as int, e.col as int).spec_is_empty(),
        at(m.grid, s.row as int, e.col as int) == (Piece {
            piece_type: PieceType::Pawn,
            color: m.to_move().spec_opposite(),
            has_moved: true,
        }),
        at(apply_model(m, s, e).grid, s.row as int, e.col as int).spec_is_empty(),
        at(apply_model(m, s, e).grid, e.row as int, e.col as int) == at(
            m.grid,
            s.row as int,
            s.col as int,
        ).after_move(),
{
    let sr = s.row as int;
    let sc = s.col as int;
    let er = e.row as int;
    let ec = e.col as int;
    lemma_ep_square(m, s, e);
    let t = m.en_passant->Some_0;
    assert(t.row == e.row && t.col == e.col);
    assert(t == e);
    assert(!(sr == er && sc == ec));
}

/// A castle is atomic: in one accepted ply the king lands two files from its
/// start, the rook of that wing lands on the square the king crossed, and
/// both leave their old squares empty with their moved flags set. The move
/// is accepted only under the full castling preconditions.
pub proof fn lemma_castle_atomic(m: Model, s: Point, e: Point)
    requires
        m.wf(),
        spec_validate(m, s, e) is Ok,
        classify_move(m.grid, s.row as int, s.col as int, e.row as int, e.col as int) is Castle,
    ensures
        ({
            let sr = s.row as int;
            let sc = s.col as int;
            let er = e.row as int;
            let ec = e.col as int;
            let kind = classify_move(m.grid, sr, sc, er, ec);
            let rf = kind->Castle_rook_from;
            let rt = kind->Castle_rook_to;
            let g2 = apply_model(m, s, e).grid;
            &&& castle_ok(m.grid, sr, sc, er, ec, m.to_move())
            &&& at(g2, er, ec) == at(m.grid, sr, sc).after_move()
            &&& at(g2, er, ec).piece_type == PieceType::King
            &&& at(g2, er, ec).has_moved
            &&& at(g2, rt.row as int, rt.col as int) == at(
                m.grid,
                rf.row as int,
                rf.col as int,
            ).after_move()
            &&& at(g2, rt.row as int, rt.col as int).piece_type == PieceType::Rook
            &&& at(g2, rt.row as int, rt.col as int).has_moved
            &&& at(g2, sr, sc).spec_is_empty()
            &&& at(g2, rf.row as int, rf.col as int).spec_is_empty()
        }),
{
    let sr = s.row as int;
    let sc = s.col as int;
    let er = e.row as int;
    let ec = e.col as int;
    let g = m.grid;
    let p = at(g, sr, sc);
    let kind = classify_move(g, sr, sc, er, ec);
    let rf = kind->Castle_rook_from;
    let rt = kind->Castle_rook_to;
    assert(p.piece_type == PieceType::King);
    assert(abs_val(ec - sc) == 2);
    assert(!crate::geometry::king_shape(sr, sc, er, ec));
    assert(castle_ok(g, sr, sc, er, ec, p.color));
    assert(p.color == m.to_move());
    let rook_col: int = if ec > sc {
        7
    } else {
        0
    };
    let mid: int = (sc + ec) / 2;
    assert(rf.row as int == sr && rf.col as int == rook_col);
    assert(rt.row as int == sr && rt.col as int == mid);
    assert(at(g, sr, rook_col).piece_type == PieceType::Rook);
}

/// Every applied move appends exactly one fingerprint — that of the position
/// it produces — to the history, so the new position's occurrence count rises
/// by exactly one and no other count changes.
pub proof fn lemma_repetition_count_after_move(m: Model, s: Point, e: Point)
    requires
        m.wf(),
        spec_validate(m, s, e) is Ok,
    ensures
        ({
            let m2 = apply_model(m, s, e);
            &&& m2.history == m.history.push(m2.current_fp())
            &&& crate::board::fp_count(m2.history, m2.current_fp()) == crate::board::fp_count(
                m.history,
                m2.current_fp(),
            ) + 1
            &&& forall|other: crate::board::Fp|
                other != m2.current_fp() ==> #[trigger] crate::board::fp_count(m2.history, other)
                    == crate::board::fp_count(m.history, other)
        }),
{
    let m2 = apply_model(m, s, e);
    assert(m2.history.drop_last() =~= m.history);
    assert forall|other: crate::board::Fp|
        other != m2.current_fp() implies #[trigger] crate::board::fp_count(m2.history, other)
        == crate::board::fp_count(m.history, other) by {
        assert(m2.history.last() == m2.current_fp());
    }
}

/// Applying a one-piece move onto an empty square and then its geometric
/// inverse restores the occupancy of every square: only the moved flags may
/// differ.
pub proof fn lemma_round_trip(g: Seq<Piece>, s: Point, e: Point)
    requires
        grid_wf(g),
        s.in_range(),
        e.in_range(),
        !(s.row == e.row && s.col == e.col),
        at(g, e.row as int, e.col as int).spec_is_empty(),
    ensures
        ({
            let sr = s.row as int;
            let sc = s.col as int;
            let er = e.row as int;
            let ec = e.col as int;
            let g1 = basic_move(g, sr, sc, er, ec);
            let g2 = basic_move(g1, er, ec, sr, sc);
            crate::board::erase_moved(g2) == crate::board::erase_moved(g)
        }),
{
    let sr = s.row as int;
    let sc = s.col as int;
    let er = e.row as int;
    let ec = e.col as int;
    let g1 = basic_move(g, sr, sc, er, ec);
    let g2 = basic_move(g1, er, ec, sr, sc);
    assert(0 <= er * 8 + ec < 64);
    assert(g[er * 8 + ec].wf());
    assert forall|i: int| 0 <= i < 64 implies crate::board::erase_moved(g2)[i]
        == crate::board::erase_moved(g)[i] by {
        if i == sr * 8 + sc {
            assert(g2[i] == at(g, sr, sc).after_move().after_move());
        } else if i == er * 8 + ec {
            assert(g2[i] == Piece::empty());
        } else {
            assert(g2[i] == g[i]);
        }
    }
    assert(crate::board::erase_moved(g2) =~= crate::board::erase_moved(g));
}

} // verus!

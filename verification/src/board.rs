use vstd::prelude::*;

use crate::geometry::{abs_val, king_shape, sq_in_range, strictly_between};
use crate::grid::{
    at, attacks, grid_at, grid_wf, has_king, in_check, in_check_grid, is_king_at, king_unique,
    pawn_direction, square_attacked,
};
use crate::piece::{Color, Piece, PieceType};
use crate::point::Point;
use crate::rules::{
    basic_move, castle_ok, classify_move, ep_matches, home_row, pawn_move_ok, piece_move_ok,
    MoveKind,
};
use crate::status::{accepted_rc, any_legal_move, pt, spec_status, GameStatus};

verus! {

/// Why a proposed move was rejected. The checks run in this order and the
/// first failure is reported.
#[derive(Copy, Clone, Debug, PartialEq, Eq, Structural)]
pub enum MoveFailure {
    /// A coordinate lies off the board.
    InvalidSquare,
    /// The start square holds no piece of the side to move.
    NotTurn,
    /// The end square holds a piece of the mover's own colour.
    CantTakeOwnPieces,
    /// The piece on the start square cannot reach the end square.
    CantMoveThere,
    /// The move would leave the mover's own king attacked.
    WouldExposeKingToCheck,
}

/// What an applied move did, for the caller's display or history.
#[derive(Copy, Clone, Debug, PartialEq)]
pub struct MoveRecord {
    pub start: Point,
    pub end: Point,
    /// The piece taken off the board, if the move captured one.
    pub captured: Option<Piece>,
    /// The capture was en passant.
    pub en_passant: bool,
    /// The move was a castle.
    pub castle: bool,
}

/// The fingerprint of a logical position, the unit of repetition counting:
/// piece placement (moved flags erased), side to move, remaining castling
/// rights, and the en-passant target.
#[verifier::ext_equal]
pub ghost struct Fp {
    pub placement: Seq<Piece>,
    pub turn: bool,
    pub white_kingside: bool,
    pub white_queenside: bool,
    pub black_kingside: bool,
    pub black_queenside: bool,
    pub en_passant: Option<Point>,
}

/// The mathematical state of a game: the abstraction every contract of
/// `Board` speaks about.
#[verifier::ext_equal]
pub ghost struct Model {
    /// Row-major grid of 64 squares.
    pub grid: Seq<Piece>,
    /// True while White is to move.
    pub turn: bool,
    /// The square a pawn skipped on its double push last ply, if any.
    pub en_passant: Option<Point>,
    /// Plies since the last capture or pawn move.
    pub halfmove_clock: u64,
    /// Fingerprints of every position reached after a move, oldest first.
    pub history: Seq<Fp>,
}

/// The grid with every moved flag erased, as placement is compared for
/// repetition.
pub open spec fn erase_moved(g: Seq<Piece>) -> Seq<Piece> {
    Seq::new(g.len(), |i: int| Piece { has_moved: false, ..g[i] })
}

/// This wing's castling right remains: the king stands unmoved on its home
/// square and the wing's rook stands unmoved on its corner.
pub open spec fn castling_right(g: Seq<Piece>, col: Color, rook_col: int) -> bool {
    let home = home_row(col);
    &&& at(g, home, 4).piece_type == PieceType::King
    &&& at(g, home, 4).color == col
    &&& !at(g, home, 4).has_moved
    &&& at(g, home, rook_col).piece_type == PieceType::Rook
    &&& at(g, home, rook_col).color == col
    &&& !at(g, home, rook_col).has_moved
}

/// The fingerprint of the position with this grid, side to move and
/// en-passant target.
pub open spec fn fp_from(g: Seq<Piece>, turn: bool, ep: Option<Point>) -> Fp {
    Fp {
        placement: erase_moved(g),
        turn,
        white_kingside: castling_right(g, Color::White, 7),
        white_queenside: castling_right(g, Color::White, 0),
        black_kingside: castling_right(g, Color::Black, 7),
        black_queenside: castling_right(g, Color::Black, 0),
        en_passant: ep,
    }
}

/// How often this fingerprint occurs in the history.
pub open spec fn fp_count(hist: Seq<Fp>, fp: Fp) -> nat
    decreases hist.len(),
{
    if hist.len() == 0 {
        0
    } else {
        fp_count(hist.drop_last(), fp) + if hist.last() == fp {
            1nat
        } else {
            0nat
        }
    }
}

/// Counting a prefix one entry longer adds one exactly when that entry is
/// the fingerprint counted.
proof fn lemma_fp_count_take(hist: Seq<Fp>, fp: Fp, i: int)
    requires
        0 <= i < hist.len(),
    ensures
        fp_count(hist.take(i + 1), fp) == fp_count(hist.take(i), fp) + if hist[i] == fp {
            1int
        } else {
            0int
        },
{
    assert(hist.take(i + 1).drop_last() =~= hist.take(i));
    assert(hist.take(i + 1).last() == hist[i]);
}

impl Model {
    /// The side to move.
    pub open spec fn to_move(self) -> Color {
        if self.turn {
            Color::White
        } else {
            Color::Black
        }
    }

    /// The en-passant field is meaningful: the target is the empty square a
    /// pawn of the side that just moved skipped on its double push, with that
    /// pawn standing one rank beyond it.
    pub open spec fn ep_wf(self) -> bool {
        match self.en_passant {
            Option::None => true,
            Option::Some(t) => {
                let pusher = self.to_move().spec_opposite();
                let d = pawn_direction(pusher);
                &&& t.row == if pusher == Color::White {
                    2int
                } else {
                    5int
                }
                &&& t.col < 8
                &&& at(self.grid, t.row as int, t.col as int).spec_is_empty()
                &&& at(self.grid, t.row + d, t.col as int) == (Piece {
                    piece_type: PieceType::Pawn,
                    color: pusher,
                    has_moved: true,
                })
            },
        }
    }

    /// The state is well formed: 64 well-formed squares, exactly one king of
    /// each colour, a meaningful en-passant field, and the side that is not
    /// to move is not in check.
    pub open spec fn wf(self) -> bool {
        &&& grid_wf(self.grid)
        &&& has_king(self.grid, Color::White)
        &&& king_unique(self.grid, Color::White)
        &&& has_king(self.grid, Color::Black)
        &&& king_unique(self.grid, Color::Black)
        &&& self.ep_wf()
        &&& !in_check(self.grid, self.to_move().spec_opposite())
    }

    /// The fingerprint of the current position.
    pub open spec fn current_fp(self) -> Fp {
        fp_from(self.grid, self.turn, self.en_passant)
    }
}

/// The grid after a validated move of the given kind is executed: the moving
/// piece steps from start to end; an en-passant capture also clears the
/// captured pawn's square, a castle also moves the rook.
pub open spec fn apply_grid(
    g: Seq<Piece>,
    sr: int,
    sc: int,
    er: int,
    ec: int,
    kind: MoveKind,
) -> Seq<Piece> {
    let g1 = basic_move(g, sr, sc, er, ec);
    match kind {
        MoveKind::Normal => g1,
        MoveKind::DoublePush => g1,
        MoveKind::EnPassant => g1.update(sr * 8 + ec, Piece::empty()),
        MoveKind::Castle { rook_from, rook_to } => g1.update(
            rook_to.row * 8 + rook_to.col,
            at(g, rook_from.row as int, rook_from.col as int).after_move(),
        ).update(rook_from.row * 8 + rook_from.col, Piece::empty()),
    }
}

/// The first three checks of the validation pipeline pass: the squares are on
/// the board, the start square holds a piece of the side to move, the end
/// square holds no piece of the same colour, and the piece's own movement
/// rule allows the step.
pub open spec fn pre_checks_pass(m: Model, s: Point, e: Point) -> bool {
    &&& s.in_range()
    &&& e.in_range()
    &&& at(m.grid, s.row as int, s.col as int).color == m.to_move()
    &&& at(m.grid, e.row as int, e.col as int).color != at(m.grid, s.row as int, s.col as int).color
    &&& piece_move_ok(
        m.grid,
        m.en_passant,
        s.row as int,
        s.col as int,
        e.row as int,
        e.col as int,
    )
}

/// The outcome of the validation pipeline: the kind of the move if every
/// check passes, else the first failure, in the fixed order out-of-range,
/// wrong turn, own piece taken, movement rule, king safety.
pub open spec fn spec_validate(m: Model, s: Point, e: Point) -> Result<MoveKind, MoveFailure> {
    let sr = s.row as int;
    let sc = s.col as int;
    let er = e.row as int;
    let ec = e.col as int;
    if !s.in_range() || !e.in_range() {
        Result::Err(MoveFailure::InvalidSquare)
    } else if at(m.grid, sr, sc).color != m.to_move() {
        Result::Err(MoveFailure::NotTurn)
    } else if at(m.grid, er, ec).color == at(m.grid, sr, sc).color {
        Result::Err(MoveFailure::CantTakeOwnPieces)
    } else if !piece_move_ok(m.grid, m.en_passant, sr, sc, er, ec) {
        Result::Err(MoveFailure::CantMoveThere)
    } else if in_check(
        apply_grid(m.grid, sr, sc, er, ec, classify_move(m.grid, sr, sc, er, ec)),
        m.to_move(),
    ) {
        Result::Err(MoveFailure::WouldExposeKingToCheck)
    } else {
        Result::Ok(classify_move(m.grid, sr, sc, er, ec))
    }
}

/// The state after an accepted move: the grid as `apply_grid` leaves it, the
/// turn flipped, the en-passant window set only by a double push, the
/// half-move clock reset by a capture or pawn move and otherwise counting up,
/// and the new position's fingerprint appended to the history.
pub open spec fn apply_model(m: Model, s: Point, e: Point) -> Model {
    let sr = s.row as int;
    let sc = s.col as int;
    let er = e.row as int;
    let ec = e.col as int;
    let kind = classify_move(m.grid, sr, sc, er, ec);
    let g2 = apply_grid(m.grid, sr, sc, er, ec, kind);
    let capture = !at(m.grid, er, ec).spec_is_empty() || kind == MoveKind::EnPassant;
    let pawn = at(m.grid, sr, sc).piece_type == PieceType::Pawn;
    let new_turn = !m.turn;
    let new_ep = if kind == MoveKind::DoublePush {
        Option::Some(Point { row: ((sr + er) / 2) as usize, col: s.col })
    } else {
        Option::None
    };
    let new_clock: u64 = if capture || pawn {
        0
    } else if m.halfmove_clock == u64::MAX {
        u64::MAX
    } else {
        (m.halfmove_clock + 1) as u64
    };
    Model {
        grid: g2,
        turn: new_turn,
        en_passant: new_ep,
        halfmove_clock: new_clock,
        history: m.history.push(fp_from(g2, new_turn, new_ep)),
    }
}

/// The record an accepted move returns.
pub open spec fn record_of(m: Model, s: Point, e: Point) -> MoveRecord {
    let sr = s.row as int;
    let sc = s.col as int;
    let er = e.row as int;
    let ec = e.col as int;
    let kind = classify_move(m.grid, sr, sc, er, ec);
    MoveRecord {
        start: s,
        end: e,
        captured: if !at(m.grid, er, ec).spec_is_empty() {
            Option::Some(at(m.grid, er, ec))
        } else if kind == MoveKind::EnPassant {
            Option::Some(at(m.grid, sr, ec))
        } else {
            Option::None
        },
        en_passant: kind == MoveKind::EnPassant,
        castle: kind is Castle,
    }
}

/// A move that passes the first three checks never has a king standing on
/// its end square: taking the enemy king would mean the enemy was already in
/// check on the mover's turn, which well-formedness rules out.
proof fn lemma_dest_not_king(m: Model, s: Point, e: Point)
    requires
        m.wf(),
        pre_checks_pass(m, s, e),
    ensures
        at(m.grid, e.row as int, e.col as int).piece_type != PieceType::King,
{
    let g = m.grid;
    let sr = s.row as int;
    let sc = s.col as int;
    let er = e.row as int;
    let ec = e.col as int;
    let p = at(g, sr, sc);
    let q = at(g, er, ec);
    let mover = m.to_move();
    if q.piece_type == PieceType::King {
        assert(0 <= er * 8 + ec < 64);
        assert(g[er * 8 + ec].wf());
        assert(q.color == mover.spec_opposite());
        // The movement rule, with an occupied destination, makes the start
        // piece bear on the destination.
        match p.piece_type {
            PieceType::Pawn => {
                if sc == ec {
                    assert(q.spec_is_empty());
                    assert(false);
                } else {
                    assert(ep_matches(m.en_passant, er, ec) ==> at(g, er, ec).spec_is_empty());
                    assert(!q.spec_is_empty());
                    assert(er - sr == pawn_direction(p.color) && abs_val(sc - ec) == 1);
                }
            },
            PieceType::King => {
                if !king_shape(sr, sc, er, ec) {
                    assert(castle_ok(g, sr, sc, er, ec, p.color));
                    let rook_col: int = if ec > sc {
                        7
                    } else {
                        0
                    };
                    assert(strictly_between(sc, rook_col, ec));
                    assert(at(g, sr, ec).spec_is_empty());
                    assert(false);
                }
            },
            _ => {},
        }
        assert(attacks(g, sr, sc, er, ec));
        assert(square_attacked(g, er, ec, mover));
        assert(is_king_at(g, er, ec, mover.spec_opposite()));
        assert(in_check(g, mover.spec_opposite()));
        assert(false);
    }
}

/// For an en-passant capture, the square cleared beside the start square
/// holds exactly the pawn that just double-pushed.
pub(crate) proof fn lemma_ep_square(m: Model, s: Point, e: Point)
    requires
        m.wf(),
        pre_checks_pass(m, s, e),
        classify_move(m.grid, s.row as int, s.col as int, e.row as int, e.col as int)
            == MoveKind::EnPassant,
    ensures
        at(m.grid, s.row as int, e.col as int) == (Piece {
            piece_type: PieceType::Pawn,
            color: m.to_move().spec_opposite(),
            has_moved: true,
        }),
{
    let g = m.grid;
    let sr = s.row as int;
    let sc = s.col as int;
    let er = e.row as int;
    let ec = e.col as int;
    let p = at(g, sr, sc);
    assert(p.piece_type == PieceType::Pawn && sc != ec && at(g, er, ec).spec_is_empty());
    assert(pawn_move_ok(g, m.en_passant, sr, sc, er, ec));
    assert(ep_matches(m.en_passant, er, ec));
    let t = m.en_passant->Some_0;
    let pusher = m.to_move().spec_opposite();
    let d = pawn_direction(pusher);
    assert(t.row == er && t.col == ec);
    assert(er - sr == pawn_direction(p.color));
    assert(p.color == m.to_move());
    assert(t.row + d == sr);
    assert(at(g, t.row + d, t.col as int) == (Piece {
        piece_type: PieceType::Pawn,
        color: pusher,
        has_moved: true,
    }));
}

/// A move that passes the first three checks keeps exactly one king of the
/// given colour on the board.
proof fn lemma_kings_for_color(m: Model, s: Point, e: Point, x: Color)
    requires
        m.wf(),
        pre_checks_pass(m, s, e),
        x == Color::White || x == Color::Black,
    ensures
        ({
            let sr = s.row as int;
            let sc = s.col as int;
            let er = e.row as int;
            let ec = e.col as int;
            let g2 = apply_grid(m.grid, sr, sc, er, ec, classify_move(m.grid, sr, sc, er, ec));
            has_king(g2, x) && king_unique(g2, x)
        }),
{
    let g = m.grid;
    let sr = s.row as int;
    let sc = s.col as int;
    let er = e.row as int;
    let ec = e.col as int;
    let kind = classify_move(g, sr, sc, er, ec);
    let g2 = apply_grid(g, sr, sc, er, ec, kind);
    let p = at(g, sr, sc);
    let mover = m.to_move();
    lemma_dest_not_king(m, s, e);
    assert(p.color == mover);
    // The move never stands still.
    assert(!(sr == er && sc == ec));
    // Castle geometry, when it applies.
    let (rf, rt) = match kind {
        MoveKind::Castle { rook_from, rook_to } => (rook_from, rook_to),
        _ => (s, s),
    };
    if kind is Castle {
        assert(p.piece_type == PieceType::King);
        assert(!king_shape(sr, sc, er, ec));
        assert(castle_ok(g, sr, sc, er, ec, p.color));
        let rook_col: int = if ec > sc {
            7
        } else {
            0
        };
        let mid: int = (sc + ec) / 2;
        assert(rf.row as int == sr && rf.col as int == rook_col);
        assert(rt.row as int == sr && rt.col as int == mid);
        assert(at(g, sr, rook_col).piece_type == PieceType::Rook);
        assert(strictly_between(sc, rook_col, mid));
        assert(at(g, sr, mid).spec_is_empty());
    }
    if kind is EnPassant {
        lemma_ep_square(m, s, e);
    }
    if x == mover && p.piece_type == PieceType::King {
        // The king itself moves: afterwards it stands on the end square and
        // nowhere else.
        assert(is_king_at(g, sr, sc, x));
        assert(is_king_at(g2, er, ec, x));
        assert(has_king(g2, x));
        assert forall|r: int, c: int|
            sq_in_range(r, c) && #[trigger] is_king_at(g2, r, c, x) implies r == er && c == ec by {
            if !(r == er && c == ec) {
                if r == sr && c == sc {
                    assert(!is_king_at(g2, r, c, x));
                } else if kind is Castle && r == rt.row as int && c == rt.col as int {
                    assert(at(g2, r, c).piece_type == PieceType::Rook);
                } else if kind is Castle && r == rf.row as int && c == rf.col as int {
                    assert(at(g2, r, c).spec_is_empty());
                } else {
                    assert(at(g2, r, c) == at(g, r, c));
                    assert(is_king_at(g, r, c, x));
                    assert(r == sr && c == sc);
                }
            }
        }
        assert(king_unique(g2, x));
    } else {
        // The king of colour `x` stands where it stood.
        let (kr, kc) = choose|r: int, c: int| sq_in_range(r, c) && #[trigger] is_king_at(g, r, c, x);
        assert(is_king_at(g, kr, kc, x));
        // Its square is not touched by the move.
        assert(!(kr == sr && kc == sc));
        assert(!(kr == er && kc == ec));
        if kind is EnPassant {
            assert(at(g, sr, ec).piece_type == PieceType::Pawn);
            assert(!(kr == sr && kc == ec));
        }
        if kind is Castle {
            assert(!(kr == rf.row as int && kc == rf.col as int));
            assert(!(kr == rt.row as int && kc == rt.col as int));
        }
        assert(at(g2, kr, kc) == at(g, kr, kc));
        assert(is_king_at(g2, kr, kc, x));
        assert(has_king(g2, x));
        assert forall|r: int, c: int|
            sq_in_range(r, c) && #[trigger] is_king_at(g2, r, c, x) implies r == kr && c == kc by {
            if r == sr && c == sc {
                assert(!is_king_at(g2, r, c, x));
            } else if r == er && c == ec {
                assert(at(g2, r, c) == p.after_move());
                assert(!is_king_at(g2, r, c, x));
            } else if kind is EnPassant && r == sr && c == ec {
                assert(at(g2, r, c).spec_is_empty());
            } else if kind is Castle && r == rt.row as int && c == rt.col as int {
                assert(at(g2, r, c).piece_type == PieceType::Rook);
            } else if kind is Castle && r == rf.row as int && c == rf.col as int {
                assert(at(g2, r, c).spec_is_empty());
            } else {
                assert(at(g2, r, c) == at(g, r, c));
                assert(is_king_at(g, r, c, x));
            }
        }
        assert(king_unique(g2, x));
    }
}

/// A move that passes the first three checks leaves a well-formed grid of 64
/// squares with exactly one king of each colour.
proof fn lemma_apply_grid_kings(m: Model, s: Point, e: Point)
    requires
        m.wf(),
        pre_checks_pass(m, s, e),
    ensures
        ({
            let sr = s.row as int;
            let sc = s.col as int;
            let er = e.row as int;
            let ec = e.col as int;
            let g2 = apply_grid(m.grid, sr, sc, er, ec, classify_move(m.grid, sr, sc, er, ec));
            &&& g2.len() == 64
            &&& grid_wf(g2)
            &&& has_king(g2, Color::White)
            &&& king_unique(g2, Color::White)
            &&& has_king(g2, Color::Black)
            &&& king_unique(g2, Color::Black)
        }),
{
    let g = m.grid;
    let sr = s.row as int;
    let sc = s.col as int;
    let er = e.row as int;
    let ec = e.col as int;
    let kind = classify_move(g, sr, sc, er, ec);
    let g2 = apply_grid(g, sr, sc, er, ec, kind);
    lemma_kings_for_color(m, s, e, Color::White);
    lemma_kings_for_color(m, s, e, Color::Black);
    assert(g2.len() == 64);
    assert forall|i: int| 0 <= i < 64 implies (#[trigger] g2[i]).wf() by {
        assert(g[i].wf());
        assert(g[sr * 8 + sc].wf());
        if kind is Castle {
            let rf = kind->Castle_rook_from;
            assert(g[rf.row * 8 + rf.col].wf());
        }
    }
}

/// An accepted move leads from a well-formed state to a well-formed state.
pub proof fn lemma_apply_ok_wf(m: Model, s: Point, e: Point)
    requires
        m.wf(),
        spec_validate(m, s, e) is Ok,
    ensures
        apply_model(m, s, e).wf(),
{
    let g = m.grid;
    let sr = s.row as int;
    let sc = s.col as int;
    let er = e.row as int;
    let ec = e.col as int;
    let kind = classify_move(g, sr, sc, er, ec);
    let g2 = apply_grid(g, sr, sc, er, ec, kind);
    let p = at(g, sr, sc);
    let mover = m.to_move();
    let m2 = apply_model(m, s, e);
    lemma_apply_grid_kings(m, s, e);
    // The mover's king is safe after the move: that is the fourth check.
    assert(!in_check(g2, mover));
    assert(m2.to_move().spec_opposite() == mover);
    // A double push opens a valid en-passant window; every other move closes it.
    if kind == MoveKind::DoublePush {
        assert(p.piece_type == PieceType::Pawn && abs_val(er - sr) == 2);
        assert(pawn_move_ok(g, m.en_passant, sr, sc, er, ec));
        let d = pawn_direction(mover);
        assert(sc == ec);
        assert(er - sr == d + d && sr == crate::rules::pawn_start_row(mover));
        assert(at(g, sr + d, sc).spec_is_empty());
        let t = m2.en_passant->Some_0;
        assert((sr + er) / 2 == sr + d);
        assert(t.row as int == sr + d && t.col as int == sc);
        assert(at(g2, t.row as int, t.col as int) == at(g, sr + d, sc));
        assert(at(g2, t.row + d, t.col as int) == p.after_move());
        assert(m2.ep_wf());
    } else {
        assert(m2.en_passant is None);
    }
}

/// The position fingerprint as stored: one entry of the repetition table.
pub struct Fingerprint {
    placement: Vec<Piece>,
    turn: bool,
    white_kingside: bool,
    white_queenside: bool,
    black_kingside: bool,
    black_queenside: bool,
    en_passant: Option<Point>,
}

impl View for Fingerprint {
    type V = Fp;

    closed spec fn view(&self) -> Fp {
        Fp {
            placement: self.placement@,
            turn: self.turn,
            white_kingside: self.white_kingside,
            white_queenside: self.white_queenside,
            black_kingside: self.black_kingside,
            black_queenside: self.black_queenside,
            en_passant: self.en_passant,
        }
    }
}

/// Read whether one wing's castling right remains.
fn castling_right_exec(g: &Vec<Piece>, col: Color, rook_col: usize) -> (r: bool)
    requires
        g@.len() == 64,
        rook_col == 0 || rook_col == 7,
    ensures
        r == castling_right(g@, col, rook_col as int),
{
    let home: usize = if col == Color::White {
        0
    } else {
        7
    };
    let king = grid_at(g, home, 4);
    let rook = grid_at(g, home, rook_col);
    king.piece_type == PieceType::King && king.color == col && !king.has_moved && rook.piece_type
        == PieceType::Rook && rook.color == col && !rook.has_moved
}

/// Build the fingerprint of the position with this grid, side to move and
/// en-passant target.
fn make_fingerprint(g: &Vec<Piece>, turn: bool, ep: Option<Point>) -> (f: Fingerprint)
    requires
        g@.len() == 64,
    ensures
        f@ == fp_from(g@, turn, ep),
{
    let mut placement: Vec<Piece> = Vec::new();
    let mut i: usize = 0;
    while i < g.len()
        invariant
            i <= g@.len(),
            placement@.len() == i,
            forall|j: int|
                0 <= j < i ==> placement@[j] == (Piece { has_moved: false, ..g@[j] }),
        decreases g@.len() - i,
    {
        let mut p = g[i];
        p.has_moved = false;
        placement.push(p);
        i += 1;
    }
    proof {
        assert(placement@ =~= erase_moved(g@));
    }
    Fingerprint {
        placement,
        turn,
        white_kingside: castling_right_exec(g, Color::White, 7),
        white_queenside: castling_right_exec(g, Color::White, 0),
        black_kingside: castling_right_exec(g, Color::Black, 7),
        black_queenside: castling_right_exec(g, Color::Black, 0),
        en_passant: ep,
    }
}

/// Compare two fingerprints.
fn fingerprint_eq(a: &Fingerprint, b: &Fingerprint) -> (r: bool)
    ensures
        r == (a@ == b@),
{
    if a.turn != b.turn || a.white_kingside != b.white_kingside || a.white_queenside
        != b.white_queenside || a.black_kingside != b.black_kingside || a.black_queenside
        != b.black_queenside {
        return false;
    }
    let ep_same = match (a.en_passant, b.en_passant) {
        (Option::Some(s), Option::Some(t)) => s.row == t.row && s.col == t.col,
        (Option::None, Option::None) => true,
        _ => false,
    };
    if !ep_same {
        return false;
    }
    if a.placement.len() != b.placement.len() {
        return false;
    }
    let mut i: usize = 0;
    while i < a.placement.len()
        invariant
            i <= a.placement@.len(),
            a.placement@.len() == b.placement@.len(),
            forall|j: int| 0 <= j < i ==> a.placement@[j] == b.placement@[j],
        decreases a.placement@.len() - i,
    {
        if a.placement[i] != b.placement[i] {
            return false;
        }
        i += 1;
    }
    proof {
        assert(a@.placement =~= b@.placement);
        assert(a@ =~= b@);
    }
    true
}

/// The back rank's piece on column `c`.
pub open spec fn init_back_rank(c: int, col: Color) -> Piece {
    Piece {
        piece_type: if c == 0 || c == 7 {
            PieceType::Rook
        } else if c == 1 || c == 6 {
            PieceType::Knight
        } else if c == 2 || c == 5 {
            PieceType::Bishop
        } else if c == 3 {
            PieceType::Queen
        } else {
            PieceType::King
        },
        color: col,
        has_moved: false,
    }
}

/// The piece on square `(r, c)` of the standard initial arrangement.
pub open spec fn init_piece(r: int, c: int) -> Piece {
    if r == 0 {
        init_back_rank(c, Color::White)
    } else if r == 1 {
        Piece { piece_type: PieceType::Pawn, color: Color::White, has_moved: false }
    } else if r == 6 {
        Piece { piece_type: PieceType::Pawn, color: Color::Black, has_moved: false }
    } else if r == 7 {
        init_back_rank(c, Color::Black)
    } else {
        Piece::empty()
    }
}

/// The standard initial grid.
pub open spec fn initial_grid() -> Seq<Piece> {
    Seq::new(64, |i: int| init_piece(i / 8, i % 8))
}

/// The state of a fresh game: the standard arrangement, White to move,
/// no en-passant target, clocks at zero, nothing recorded yet.
pub open spec fn initial_model() -> Model {
    Model {
        grid: initial_grid(),
        turn: true,
        en_passant: Option::None,
        halfmove_clock: 0,
        history: Seq::empty(),
    }
}

pub proof fn lemma_initial_at(r: int, c: int)
    requires
        sq_in_range(r, c),
    ensures
        at(initial_grid(), r, c) == init_piece(r, c),
{
    let i = r * 8 + c;
    assert(i / 8 == r && i % 8 == c) by (nonlinear_arith)
        requires
            0 <= r < 8,
            0 <= c < 8,
            i == r * 8 + c,
    ;
    assert(0 <= i < 64);
}

/// The initial position is well formed.
pub proof fn lemma_initial_wf()
    ensures
        initial_model().wf(),
{
    let g = initial_grid();
    assert forall|i: int| 0 <= i < 64 implies (#[trigger] g[i]).wf() by {
        assert(g[i] == init_piece(i / 8, i % 8));
        assert(0 <= i / 8 < 8 && 0 <= i % 8 < 8);
    }
    lemma_initial_at(0, 4);
    lemma_initial_at(7, 4);
    assert(is_king_at(g, 0, 4, Color::White));
    assert(is_king_at(g, 7, 4, Color::Black));
    assert(has_king(g, Color::White));
    assert(has_king(g, Color::Black));
    assert forall|r1: int, c1: int, r2: int, c2: int|
        sq_in_range(r1, c1) && sq_in_range(r2, c2) && #[trigger] is_king_at(g, r1, c1, Color::White)
            && #[trigger] is_king_at(g, r2, c2, Color::White) implies r1 == r2 && c1 == c2 by {
        lemma_initial_at(r1, c1);
        lemma_initial_at(r2, c2);
        assert(r1 == 0 && c1 == 4);
        assert(r2 == 0 && c2 == 4);
    }
    assert forall|r1: int, c1: int, r2: int, c2: int|
        sq_in_range(r1, c1) && sq_in_range(r2, c2) && #[trigger] is_king_at(g, r1, c1, Color::Black)
            && #[trigger] is_king_at(g, r2, c2, Color::Black) implies r1 == r2 && c1 == c2 by {
        lemma_initial_at(r1, c1);
        lemma_initial_at(r2, c2);
        assert(r1 == 7 && c1 == 4);
        assert(r2 == 7 && c2 == 4);
    }
    assert(king_unique(g, Color::White));
    assert(king_unique(g, Color::Black));
    assert forall|r: int, c: int| sq_in_range(r, c) implies !(#[trigger] crate::grid::attacks(
        g,
        r,
        c,
        7,
        4,
    ) && at(g, r, c).color == Color::White) by {
        lemma_initial_at(r, c);
    }
    assert(!crate::grid::square_attacked(g, 7, 4, Color::White));
    if in_check(g, Color::Black) {
        let (r, c) = choose|r: int, c: int|
            sq_in_range(r, c) && #[trigger] is_king_at(g, r, c, Color::Black)
                && crate::grid::square_attacked(g, r, c, Color::White);
        lemma_initial_at(r, c);
        assert(r == 7 && c == 4);
        assert(false);
    }
}

/// Compute the piece on square `(r, c)` of the standard initial arrangement.
fn initial_piece(r: usize, c: usize) -> (p: Piece)
    requires
        r < 8,
        c < 8,
    ensures
        p == init_piece(r as int, c as int),
{
    if r == 1 || r == 6 {
        Piece {
            piece_type: PieceType::Pawn,
            color: if r == 1 {
                Color::White
            } else {
                Color::Black
            },
            has_moved: false,
        }
    } else if r == 0 || r == 7 {
        let col = if r == 0 {
            Color::White
        } else {
            Color::Black
        };
        Piece {
            piece_type: if c == 0 || c == 7 {
                PieceType::Rook
            } else if c == 1 || c == 6 {
                PieceType::Knight
            } else if c == 2 || c == 5 {
                PieceType::Bishop
            } else if c == 3 {
                PieceType::Queen
            } else {
                PieceType::King
            },
            color: col,
            has_moved: false,
        }
    } else {
        Piece::new()
    }
}

/// Execute a validated move of the given kind on the grid.
fn apply_move_to_grid(g: &mut Vec<Piece>, start_point: Point, end_point: Point, kind: MoveKind)
    requires
        old(g)@.len() == 64,
        start_point.in_range(),
        end_point.in_range(),
        kind matches MoveKind::Castle { rook_from, rook_to } ==> rook_from.in_range()
            && rook_to.in_range(),
    ensures
        final(g)@ == apply_grid(
            old(g)@,
            start_point.row as int,
            start_point.col as int,
            end_point.row as int,
            end_point.col as int,
            kind,
        ),
{
    match kind {
        MoveKind::Normal => crate::rules::apply_basic_move(g, start_point, end_point),
        MoveKind::DoublePush => crate::rules::apply_basic_move(g, start_point, end_point),
        MoveKind::EnPassant => {
            crate::rules::apply_basic_move(g, start_point, end_point);
            crate::grid::grid_set(g, start_point.row, end_point.col, Piece::new());
        },
        MoveKind::Castle { rook_from, rook_to } => {
            let mut rook = grid_at(g, rook_from.row, rook_from.col);
            crate::rules::apply_basic_move(g, start_point, end_point);
            rook.has_moved = true;
            crate::grid::grid_set(g, rook_to.row, rook_to.col, rook);
            crate::grid::grid_set(g, rook_from.row, rook_from.col, Piece::new());
        },
    }
}

/// No king of the given colour stands before `(row, col)` in row-major order
/// other than on square `k`.
pub open spec fn only_king_before(
    g: Seq<Piece>,
    color: Color,
    k: Point,
    row: int,
    col: int,
) -> bool {
    forall|r: int, c: int|
        0 <= r < 8 && 0 <= c < 8 && (r < row || (r == row && c < col)) && #[trigger] is_king_at(
            g,
            r,
            c,
            color,
        ) ==> r == k.row as int && c == k.col as int
}

/// Scan the grid for the king of a colour; succeed only if there is exactly
/// one.
fn scan_single_king(g: &Vec<Piece>, color: Color) -> (r: Option<Point>)
    requires
        g@.len() == 64,
    ensures
        match r {
            Option::Some(k) => k.in_range() && is_king_at(g@, k.row as int, k.col as int, color)
                && has_king(g@, color) && king_unique(g@, color),
            Option::None => !(has_king(g@, color) && king_unique(g@, color)),
        },
{
    let mut found: Option<Point> = Option::None;
    let mut row: usize = 0;
    while row < 8
        invariant
            g@.len() == 64,
            row <= 8,
            match found {
                Option::Some(k) => k.in_range() && is_king_at(g@, k.row as int, k.col as int, color)
                    && only_king_before(g@, color, k, row as int, 0) && k.row < row,
                Option::None => crate::grid::no_king_before(g@, color, row as int, 0),
            },
        decreases 8 - row,
    {
        let mut col: usize = 0;
        while col < 8
            invariant
                g@.len() == 64,
                row < 8,
                col <= 8,
                match found {
                    Option::Some(k) => k.in_range() && is_king_at(
                        g@,
                        k.row as int,
                        k.col as int,
                        color,
                    ) && only_king_before(g@, color, k, row as int, col as int) && (k.row < row || (
                    k.row == row && k.col < col)),
                    Option::None => crate::grid::no_king_before(g@, color, row as int, col as int),
                },
            decreases 8 - col,
        {
            let p = grid_at(g, row, col);
            if p.piece_type == PieceType::King && p.color == color {
                match found {
                    Option::Some(k) => {
                        proof {
                            assert(is_king_at(g@, k.row as int, k.col as int, color));
                            assert(is_king_at(g@, row as int, col as int, color));
                            assert(!(k.row == row && k.col == col));
                            assert(!king_unique(g@, color));
                        }
                        return Option::None;
                    },
                    Option::None => {
                        found = Option::Some(Point { row, col });
                    },
                }
            }
            col += 1;
        }
        row += 1;
    }
    proof {
        match found {
            Option::Some(k) => {
                assert(only_king_before(g@, color, k, 8, 0));
            },
            Option::None => {
                assert(crate::grid::no_king_before(g@, color, 8, 0));
                if has_king(g@, color) {
                    let (r, c) = choose|r: int, c: int|
                        sq_in_range(r, c) && #[trigger] is_king_at(g@, r, c, color);
                    assert(false);
                }
            },
        }
    }
    found
}

/// One game of chess: the grid, the side to move, the en-passant window, the
/// half-move clock and the repetition table. Mutated only through
/// `submit_move`.
pub struct Board {
    grid: Vec<Piece>,
    turn: bool,
    en_passant: Option<Point>,
    halfmove_clock: u64,
    history: Vec<Fingerprint>,
}

impl View for Board {
    type V = Model;

    closed spec fn view(&self) -> Model {
        Model {
            grid: self.grid@,
            turn: self.turn,
            en_passant: self.en_passant,
            halfmove_clock: self.halfmove_clock,
            history: self.history@.map_values(|f: Fingerprint| f@),
        }
    }
}

impl Board {
    /// The game state is well formed.
    pub open spec fn wf(self) -> bool {
        self@.wf()
    }

    /// A fresh game in the standard initial arrangement, White to move.
    pub fn new() -> (r: Board)
        ensures
            r.wf(),
            r@ == initial_model(),
    {
        let mut grid: Vec<Piece> = Vec::new();
        let mut i: usize = 0;
        while i < 64
            invariant
                i <= 64,
                grid@.len() == i,
                forall|j: int| 0 <= j < i ==> grid@[j] == init_piece(j / 8, j % 8),
            decreases 64 - i,
        {
            grid.push(initial_piece(i / 8, i % 8));
            i += 1;
        }
        proof {
            assert(grid@ =~= initial_grid());
            lemma_initial_wf();
        }
        let b = Board {
            grid,
            turn: true,
            en_passant: Option::None,
            halfmove_clock: 0,
            history: Vec::new(),
        };
        proof {
            assert(b@.history =~= initial_model().history);
            assert(b@ =~= initial_model());
        }
        b
    }

    /// The piece standing on a square.
    pub fn get_piece(&self, point: Point) -> (p: Piece)
        requires
            self.wf(),
            point.in_range(),
        ensures
            p == at(self@.grid, point.row as int, point.col as int),
    {
        grid_at(&self.grid, point.row, point.col)
    }

    /// The colour whose turn it is.
    pub fn side_to_move(&self) -> (c: Color)
        ensures
            c == self@.to_move(),
    {
        if self.turn {
            Color::White
        } else {
            Color::Black
        }
    }

    /// The current en-passant target, if a double push just opened one.
    pub fn en_passant_target(&self) -> (t: Option<Point>)
        ensures
            t == self@.en_passant,
    {
        self.en_passant
    }

    /// Plies since the last capture or pawn move.
    pub fn halfmove_clock(&self) -> (n: u64)
        ensures
            n == self@.halfmove_clock,
    {
        self.halfmove_clock
    }

    /// Run the validation pipeline without touching the state: the kind of
    /// the move if it is legal, else the first failure.
    pub(crate) fn can_move(&self, start_point: Point, end_point: Point) -> (r: Result<
        MoveKind,
        MoveFailure,
    >)
        requires
            self.wf(),
        ensures
            r == spec_validate(self@, start_point, end_point),
    {
        if start_point.row >= 8 || start_point.col >= 8 || end_point.row >= 8 || end_point.col
            >= 8 {
            return Result::Err(MoveFailure::InvalidSquare);
        }
        let p = grid_at(&self.grid, start_point.row, start_point.col);
        let mover = self.side_to_move();
        if p.color != mover {
            return Result::Err(MoveFailure::NotTurn);
        }
        let q = grid_at(&self.grid, end_point.row, end_point.col);
        if q.color == p.color {
            return Result::Err(MoveFailure::CantTakeOwnPieces);
        }
        if !crate::rules::can_piece_move(&self.grid, self.en_passant, start_point, end_point) {
            return Result::Err(MoveFailure::CantMoveThere);
        }
        let kind = crate::rules::classify(&self.grid, start_point, end_point);
        proof {
            assert(pre_checks_pass(self@, start_point, end_point));
            lemma_apply_grid_kings(self@, start_point, end_point);
        }
        let mut scratch = crate::grid::copy_grid(&self.grid);
        apply_move_to_grid(&mut scratch, start_point, end_point, kind);
        if in_check_grid(&scratch, mover) {
            return Result::Err(MoveFailure::WouldExposeKingToCheck);
        }
        Result::Ok(kind)
    }

    /// Submit a move. If every check of the pipeline passes, the move is
    /// applied — grid, en-passant window, half-move clock, turn and
    /// repetition history all advance — and the move's record is returned.
    /// On any failure the state is left exactly as it was and the first
    /// failing check is reported.
    pub fn submit_move(&mut self, start_point: Point, end_point: Point) -> (r: Result<
        MoveRecord,
        MoveFailure,
    >)
        requires
            old(self).wf(),
        ensures
            final(self).wf(),
            (r is Ok) == (spec_validate(old(self)@, start_point, end_point) is Ok),
            r is Ok ==> final(self)@ == apply_model(old(self)@, start_point, end_point)
                && r->Ok_0 == record_of(old(self)@, start_point, end_point),
            r is Err ==> final(self)@ == old(self)@ && spec_validate(
                old(self)@,
                start_point,
                end_point,
            ) == Result::<MoveKind, MoveFailure>::Err(r->Err_0),
    {
        let ghost m0 = self@;
        let kind_result = self.can_move(start_point, end_point);
        let kind = match kind_result {
            Result::Err(f) => {
                return Result::Err(f);
            },
            Result::Ok(k) => k,
        };
        proof {
            lemma_apply_ok_wf(m0, start_point, end_point);
            lemma_apply_grid_kings(m0, start_point, end_point);
        }
        let p = grid_at(&self.grid, start_point.row, start_point.col);
        let q = grid_at(&self.grid, end_point.row, end_point.col);
        let is_ep = matches!(kind, MoveKind::EnPassant);
        let is_castle = matches!(kind, MoveKind::Castle { .. });
        let captured: Option<Piece> = if !q.is_empty() {
            Option::Some(q)
        } else if is_ep {
            Option::Some(grid_at(&self.grid, start_point.row, end_point.col))
        } else {
            Option::None
        };
        let record = MoveRecord {
            start: start_point,
            end: end_point,
            captured,
            en_passant: is_ep,
            castle: is_castle,
        };
        apply_move_to_grid(&mut self.grid, start_point, end_point, kind);
        self.en_passant = match kind {
            MoveKind::DoublePush => Option::Some(
                Point { row: (start_point.row + end_point.row) / 2, col: start_point.col },
            ),
            _ => Option::None,
        };
        self.halfmove_clock = if !q.is_empty() || is_ep || p.piece_type == PieceType::Pawn {
            0
        } else if self.halfmove_clock == u64::MAX {
            u64::MAX
        } else {
            self.halfmove_clock + 1
        };
        self.turn = !self.turn;
        let fp = make_fingerprint(&self.grid, self.turn, self.en_passant);
        self.history.push(fp);
        proof {
            let m2 = apply_model(m0, start_point, end_point);
            assert(self@.grid == m2.grid);
            assert(self@.en_passant == m2.en_passant);
            assert(self@.halfmove_clock == m2.halfmove_clock);
            assert(self@.history =~= m2.history);
            assert(self@ =~= m2);
            assert(record == record_of(m0, start_point, end_point));
        }
        Result::Ok(record)
    }

    /// Build a game from an arbitrary arrangement: 64 well-formed squares,
    /// exactly one king of each colour, a meaningful en-passant target, and
    /// the side not to move out of check. Rejects anything else.
    pub fn from_setup(
        pieces: Vec<Piece>,
        white_to_move: bool,
        en_passant: Option<Point>,
        halfmove_clock: u64,
    ) -> (r: Option<Board>)
        ensures
            ({
                let m = Model {
                    grid: pieces@,
                    turn: white_to_move,
                    en_passant,
                    halfmove_clock,
                    history: Seq::empty(),
                };
                match r {
                    Option::Some(b) => m.wf() && b@ == m && b.wf(),
                    Option::None => !m.wf(),
                }
            }),
    {
        let ghost m = Model {
            grid: pieces@,
            turn: white_to_move,
            en_passant,
            halfmove_clock,
            history: Seq::empty(),
        };
        if pieces.len() != 64 {
            return Option::None;
        }
        let mut i: usize = 0;
        while i < 64
            invariant
                pieces@.len() == 64,
                i <= 64,
                forall|j: int| 0 <= j < i ==> (#[trigger] pieces@[j]).wf(),
            decreases 64 - i,
        {
            let p = pieces[i];
            if (p.piece_type == PieceType::Empty) != (p.color == Color::Empty) {
                return Option::None;
            }
            i += 1;
        }
        if scan_single_king(&pieces, Color::White).is_none() {
            return Option::None;
        }
        if scan_single_king(&pieces, Color::Black).is_none() {
            return Option::None;
        }
        match en_passant {
            Option::None => {},
            Option::Some(t) => {
                let pusher = if white_to_move {
                    Color::Black
                } else {
                    Color::White
                };
                let expected_row: usize = if pusher == Color::White {
                    2
                } else {
                    5
                };
                if t.col >= 8 || t.row != expected_row {
                    return Option::None;
                }
                if !grid_at(&pieces, t.row, t.col).is_empty() {
                    return Option::None;
                }
                let pusher_row: usize = if pusher == Color::White {
                    3
                } else {
                    4
                };
                let pp = grid_at(&pieces, pusher_row, t.col);
                if !(pp.piece_type == PieceType::Pawn && pp.color == pusher && pp.has_moved) {
                    return Option::None;
                }
            },
        }
        let defender = if white_to_move {
            Color::Black
        } else {
            Color::White
        };
        if in_check_grid(&pieces, defender) {
            return Option::None;
        }
        let b = Board {
            grid: pieces,
            turn: white_to_move,
            en_passant,
            halfmove_clock,
            history: Vec::new(),
        };
        proof {
            assert(b@.history =~= m.history);
            assert(b@ =~= m);
        }
        Option::Some(b)
    }

    /// Some legal reply exists from the given start square.
    fn exists_move_from(&self, start_point: Point) -> (r: bool)
        requires
            self.wf(),
            start_point.in_range(),
        ensures
            r == exists|er: int, ec: int|
                #[trigger] accepted_rc(
                    self@,
                    start_point.row as int,
                    start_point.col as int,
                    er,
                    ec,
                ),
    {
        let ghost sr = start_point.row as int;
        let ghost sc = start_point.col as int;
        let mut er: usize = 0;
        while er < 8
            invariant
                self.wf(),
                start_point.in_range(),
                sr == start_point.row as int,
                sc == start_point.col as int,
                er <= 8,
                forall|r: int, c: int|
                    0 <= r < er && 0 <= c < 8 ==> !(#[trigger] accepted_rc(self@, sr, sc, r, c)),
            decreases 8 - er,
        {
            let mut ec: usize = 0;
            while ec < 8
                invariant
                    self.wf(),
                    start_point.in_range(),
                    sr == start_point.row as int,
                    sc == start_point.col as int,
                    er < 8,
                    ec <= 8,
                    forall|r: int, c: int|
                        0 <= r < er && 0 <= c < 8 ==> !(#[trigger] accepted_rc(self@, sr, sc, r, c)),
                    forall|c: int|
                        0 <= c < ec ==> !(#[trigger] accepted_rc(self@, sr, sc, er as int, c)),
                decreases 8 - ec,
            {
                let target = Point { row: er, col: ec };
                if self.can_move(start_point, target).is_ok() {
                    proof {
                        assert(pt(sr, sc) == start_point);
                        assert(accepted_rc(self@, sr, sc, er as int, ec as int));
                    }
                    return true;
                }
                ec += 1;
            }
            er += 1;
        }
        proof {
            if exists|r: int, c: int| #[trigger] accepted_rc(self@, sr, sc, r, c) {
                let (r, c) = choose|r: int, c: int| #[trigger] accepted_rc(self@, sr, sc, r, c);
                assert(sq_in_range(r, c));
                assert(false);
            }
        }
        false
    }

    /// The side to move has at least one legal move.
    pub fn has_any_legal_move(&self) -> (r: bool)
        requires
            self.wf(),
        ensures
            r == any_legal_move(self@),
    {
        let mut sr: usize = 0;
        while sr < 8
            invariant
                self.wf(),
                sr <= 8,
                forall|a: int, b: int, c: int, d: int|
                    0 <= a < sr && 0 <= b < 8 ==> !(#[trigger] accepted_rc(self@, a, b, c, d)),
            decreases 8 - sr,
        {
            let mut sc: usize = 0;
            while sc < 8
                invariant
                    self.wf(),
                    sr < 8,
                    sc <= 8,
                    forall|a: int, b: int, c: int, d: int|
                        0 <= a < sr && 0 <= b < 8 ==> !(#[trigger] accepted_rc(self@, a, b, c, d)),
                    forall|b: int, c: int, d: int|
                        0 <= b < sc ==> !(#[trigger] accepted_rc(self@, sr as int, b, c, d)),
                decreases 8 - sc,
            {
                if self.exists_move_from(Point { row: sr, col: sc }) {
                    return true;
                }
                proof {
                    assert forall|c: int, d: int| !(#[trigger] accepted_rc(
                        self@,
                        sr as int,
                        sc as int,
                        c,
                        d,
                    )) by {
                        if accepted_rc(self@, sr as int, sc as int, c, d) {
                            assert(false);
                        }
                    }
                }
                sc += 1;
            }
            sr += 1;
        }
        proof {
            if any_legal_move(self@) {
                let (a, b, c, d) = choose|a: int, b: int, c: int, d: int|
                    #[trigger] accepted_rc(self@, a, b, c, d);
                assert(sq_in_range(a, b));
                assert(false);
            }
        }
        false
    }

    /// How often the current position has occurred.
    pub fn repetition_count(&self) -> (n: usize)
        requires
            self.wf(),
        ensures
            n == fp_count(self@.history, self@.current_fp()),
    {
        let fp = make_fingerprint(&self.grid, self.turn, self.en_passant);
        let ghost hist = self@.history;
        let mut n: usize = 0;
        let mut i: usize = 0;
        proof {
            assert(hist.take(0) =~= Seq::<Fp>::empty());
        }
        while i < self.history.len()
            invariant
                fp@ == self@.current_fp(),
                hist == self@.history,
                hist.len() == self.history@.len(),
                forall|j: int| 0 <= j < hist.len() ==> hist[j] == self.history@[j]@,
                i <= hist.len(),
                n <= i,
                n == fp_count(hist.take(i as int), fp@),
            decreases hist.len() - i,
        {
            let same = fingerprint_eq(&self.history[i], &fp);
            proof {
                lemma_fp_count_take(hist, fp@, i as int);
            }
            if same {
                n += 1;
            }
            i += 1;
        }
        proof {
            assert(hist.take(hist.len() as int) =~= hist);
        }
        n
    }

    /// Classify the current position for the side to move.
    pub fn status(&self) -> (st: GameStatus)
        requires
            self.wf(),
        ensures
            st == spec_status(self@),
    {
        let mover = self.side_to_move();
        let any = self.has_any_legal_move();
        if !any {
            if in_check_grid(&self.grid, mover) {
                GameStatus::Checkmate(mover)
            } else {
                GameStatus::Stalemate
            }
        } else {
            let n = self.repetition_count();
            if n >= 3 {
                GameStatus::DrawByRepetition
            } else if self.halfmove_clock >= 100 {
                GameStatus::DrawByFiftyMove
            } else if in_check_grid(&self.grid, mover) {
                GameStatus::Check(mover)
            } else {
                GameStatus::Ongoing
            }
        }
    }

    /// Where the king of the given colour stands.
    pub fn king_square(&self, color: Color) -> (k: Point)
        requires
            self.wf(),
            color == Color::White || color == Color::Black,
        ensures
            k.in_range(),
            is_king_at(self@.grid, k.row as int, k.col as int, color),
    {
        crate::grid::find_king(&self.grid, color)
    }

    /// Some piece of colour `by` bears on the given square. A read-only
    /// query, ignoring whose turn it is.
    pub fn is_square_attacked(&self, square: Point, by: Color) -> (r: bool)
        requires
            self.wf(),
            square.in_range(),
        ensures
            r == crate::grid::square_attacked(self@.grid, square.row as int, square.col as int, by),
    {
        crate::grid::is_attacked(&self.grid, square, by)
    }

    /// The mover's king stands attacked. A read-only query.
    pub fn in_check_now(&self, color: Color) -> (r: bool)
        requires
            self.wf(),
            color == Color::White || color == Color::Black,
        ensures
            r == in_check(self@.grid, color),
    {
        in_check_grid(&self.grid, color)
    }
}

} // verus!

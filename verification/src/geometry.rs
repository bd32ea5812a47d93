use vstd::prelude::*;

verus! {

/// Absolute value of a mathematical integer.
pub open spec fn abs_val(x: int) -> int {
    if x < 0 {
        -x
    } else {
        x
    }
}

/// `x` lies strictly between `a` and `b`, in whichever order those stand.
pub open spec fn strictly_between(a: int, b: int, x: int) -> bool {
    (a < x && x < b) || (b < x && x < a)
}

/// Both coordinates name a square of the 8 by 8 board.
pub open spec fn sq_in_range(r: int, c: int) -> bool {
    0 <= r < 8 && 0 <= c < 8
}

/// The step of a knight: one square one way and two the other.
pub open spec fn knight_shape(sr: int, sc: int, er: int, ec: int) -> bool {
    (abs_val(sr - er) == 1 && abs_val(sc - ec) == 2) || (abs_val(sr - er) == 2 && abs_val(sc - ec)
        == 1)
}

/// The step of a king outside castling: at most one square each way, not standing still.
pub open spec fn king_shape(sr: int, sc: int, er: int, ec: int) -> bool {
    abs_val(sr - er) <= 1 && abs_val(sc - ec) <= 1 && !(sr == er && sc == ec)
}

/// A diagonal of nonzero length, as a bishop moves.
pub open spec fn diagonal_shape(sr: int, sc: int, er: int, ec: int) -> bool {
    abs_val(sr - er) == abs_val(sc - ec) && sr != er
}

/// A rank or file of nonzero length, as a rook moves.
pub open spec fn straight_shape(sr: int, sc: int, er: int, ec: int) -> bool {
    (sr == er && sc != ec) || (sr != er && sc == ec)
}

/// `(r, c)` lies strictly between `(sr, sc)` and `(er, ec)` on the rank, file or
/// diagonal joining them. For ends not joined by such a line no square qualifies.
pub open spec fn on_strict_segment(sr: int, sc: int, er: int, ec: int, r: int, c: int) -> bool {
    if sr == er && sc != ec {
        r == sr && strictly_between(sc, ec, c)
    } else if sc == ec && sr != er {
        c == sc && strictly_between(sr, er, r)
    } else if er - sr == ec - sc && sr != er {
        strictly_between(sr, er, r) && strictly_between(sc, ec, c) && r - c == sr - sc
    } else if er - sr == sc - ec && sr != er {
        strictly_between(sr, er, r) && strictly_between(sc, ec, c) && r + c == sr + sc
    } else {
        false
    }
}

} // verus!

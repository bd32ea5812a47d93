use vstd::prelude::*;

verus! {

/// The colour of a piece. The piece standing on an empty square carries
/// `Color::Empty`, so that every square of the grid holds a `Piece`.
#[derive(Copy, Clone, Debug, PartialEq, Eq, Structural)]
pub enum Color {
    White,
    Black,
    Empty,
}

impl Color {
    /// The colour of the opposing side. `Empty` has no opponent and maps to itself.
    pub open spec fn spec_opposite(self) -> Color {
        match self {
            Color::White => Color::Black,
            Color::Black => Color::White,
            Color::Empty => Color::Empty,
        }
    }

    pub fn opposite(self) -> (r: Color)
        ensures
            r == self.spec_opposite(),
    {
        match self {
            Color::White => Color::Black,
            Color::Black => Color::White,
            Color::Empty => Color::Empty,
        }
    }
}

/// The kind of a piece; `Empty` marks a square with nothing on it.
#[derive(Copy, Clone, Debug, PartialEq, Eq, Structural)]
pub enum PieceType {
    Bishop,
    Empty,
    King,
    Knight,
    Pawn,
    Queen,
    Rook,
}

/// One square's content: a kind, a colour, and whether the piece has moved
/// at some earlier point of the game (used for castling rights).
#[derive(Copy, Clone, Debug, PartialEq, Eq, Structural)]
pub struct Piece {
    pub piece_type: PieceType,
    pub color: Color,
    pub has_moved: bool,
}

impl Piece {
    /// The piece that stands on an empty square.
    pub open spec fn empty() -> Piece {
        Piece { piece_type: PieceType::Empty, color: Color::Empty, has_moved: false }
    }

    /// A fresh empty square.
    pub fn new() -> (r: Piece)
        ensures
            r == Piece::empty(),
    {
        Piece { piece_type: PieceType::Empty, color: Color::Empty, has_moved: false }
    }

    pub open spec fn spec_is_empty(self) -> bool {
        self.piece_type == PieceType::Empty
    }

    pub fn is_empty(&self) -> (r: bool)
        ensures
            r == self.spec_is_empty(),
    {
        self.piece_type == PieceType::Empty
    }

    /// A piece is well formed when its kind and colour agree about emptiness.
    pub open spec fn wf(self) -> bool {
        (self.piece_type == PieceType::Empty) <==> (self.color == Color::Empty)
    }

    /// The same piece after it has made a move.
    pub open spec fn after_move(self) -> Piece {
        Piece { has_moved: true, ..self }
    }
}

} // verus!

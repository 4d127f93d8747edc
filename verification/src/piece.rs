//! Pieces, and the letters that stand for them.

use crate::ascii::{is_ascii_uppercase, is_uppercase, lowercase, to_ascii_lowercase};
use vstd::prelude::*;

verus! {

/// The side that a piece belongs to.
#[derive(Clone, Copy, PartialEq, Eq, Debug, Structural)]
pub enum Color {
    White,
    Black,
}

/// What a piece is, whichever side it belongs to.
#[derive(Clone, Copy, PartialEq, Eq, Debug, Structural)]
pub enum PieceKind {
    Pawn,
    Knight,
    Bishop,
    Rook,
    Queen,
    King,
}

/// A piece: its kind is the variant, its side is what the variant holds.
#[derive(Clone, Copy, PartialEq, Eq, Debug, Structural)]
pub enum Piece {
    Rook(Color),
    Queen(Color),
    King(Color),
    Pawn(Color),
    Bishop(Color),
    Knight(Color),
}

/// The twelve letters that stand for a piece.
pub open spec fn is_piece_letter(c: char) -> bool {
    ||| c == 'P' || c == 'p'
    ||| c == 'R' || c == 'r'
    ||| c == 'N' || c == 'n'
    ||| c == 'B' || c == 'b'
    ||| c == 'Q' || c == 'q'
    ||| c == 'K' || c == 'k'
}

/// The kind that a letter stands for, whatever its case.
pub open spec fn letter_kind(c: char) -> Option<PieceKind> {
    let l = lowercase(c);
    if l == 'p' {
        Some(PieceKind::Pawn)
    } else if l == 'r' {
        Some(PieceKind::Rook)
    } else if l == 'n' {
        Some(PieceKind::Knight)
    } else if l == 'b' {
        Some(PieceKind::Bishop)
    } else if l == 'q' {
        Some(PieceKind::Queen)
    } else if l == 'k' {
        Some(PieceKind::King)
    } else {
        None
    }
}

/// The side that the case of a letter stands for: capital letters are White's.
pub open spec fn letter_color(c: char) -> Color {
    if is_uppercase(c) {
        Color::White
    } else {
        Color::Black
    }
}

impl Piece {
    /// The piece of the given kind and side.
    pub open spec fn of(kind: PieceKind, color: Color) -> Piece {
        match kind {
            PieceKind::Pawn => Piece::Pawn(color),
            PieceKind::Knight => Piece::Knight(color),
            PieceKind::Bishop => Piece::Bishop(color),
            PieceKind::Rook => Piece::Rook(color),
            PieceKind::Queen => Piece::Queen(color),
            PieceKind::King => Piece::King(color),
        }
    }

    /// The kind of this piece.
    pub open spec fn spec_kind(self) -> PieceKind {
        match self {
            Piece::Pawn(_) => PieceKind::Pawn,
            Piece::Knight(_) => PieceKind::Knight,
            Piece::Bishop(_) => PieceKind::Bishop,
            Piece::Rook(_) => PieceKind::Rook,
            Piece::Queen(_) => PieceKind::Queen,
            Piece::King(_) => PieceKind::King,
        }
    }

    /// The side of this piece.
    pub open spec fn spec_color(self) -> Color {
        match self {
            Piece::Pawn(color) => color,
            Piece::Knight(color) => color,
            Piece::Bishop(color) => color,
            Piece::Rook(color) => color,
            Piece::Queen(color) => color,
            Piece::King(color) => color,
        }
    }

    /// What a character stands for: a piece, or nothing.
    pub open spec fn spec_from_char(c: char) -> Option<Piece> {
        match letter_kind(c) {
            Some(kind) => Some(Piece::of(kind, letter_color(c))),
            None => None,
        }
    }

    /// Reads one character as a piece. The case gives the side, the letter
    /// without its case gives the kind. A character that is none of the twelve
    /// piece letters is no piece; that is an answer, not a failure.
    #[verifier::when_used_as_spec(spec_from_char)]
    pub fn from_char(c: char) -> (res: Option<Piece>)
        ensures
            res == Piece::spec_from_char(c),
            is_piece_letter(c) ==> (res matches Some(p) && Some(p.kind()) == letter_kind(c) && (p.color()
                == Color::White <==> is_uppercase(c))),
            !is_piece_letter(c) ==> res is None,
    {
        let color = if is_ascii_uppercase(c) {
            Color::White
        } else {
            Color::Black
        };

        match to_ascii_lowercase(c) {
            'p' => Some(Piece::Pawn(color)),
            'r' => Some(Piece::Rook(color)),
            'n' => Some(Piece::Knight(color)),
            'b' => Some(Piece::Bishop(color)),
            'q' => Some(Piece::Queen(color)),
            'k' => Some(Piece::King(color)),
            _ => None,
        }
    }

    /// The kind of this piece.
    #[verifier::when_used_as_spec(spec_kind)]
    pub fn kind(self) -> (res: PieceKind)
        ensures
            res == self.spec_kind(),
    {
        match self {
            Piece::Pawn(_) => PieceKind::Pawn,
            Piece::Knight(_) => PieceKind::Knight,
            Piece::Bishop(_) => PieceKind::Bishop,
            Piece::Rook(_) => PieceKind::Rook,
            Piece::Queen(_) => PieceKind::Queen,
            Piece::King(_) => PieceKind::King,
        }
    }

    /// The side of this piece.
    #[verifier::when_used_as_spec(spec_color)]
    pub fn color(self) -> (res: Color)
        ensures
            res == self.spec_color(),
    {
        match self {
            Piece::Pawn(color) => color,
            Piece::Knight(color) => color,
            Piece::Bishop(color) => color,
            Piece::Rook(color) => color,
            Piece::Queen(color) => color,
            Piece::King(color) => color,
        }
    }
}

} // verus!

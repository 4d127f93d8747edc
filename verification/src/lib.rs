//! Reading a chess position in Forsyth-Edwards Notation into a board.

pub mod ascii;
pub mod board;
pub mod fen;
pub mod piece;
pub mod rank;
pub mod start;
pub mod text;

pub use board::{Board, BoardContent, ParseError};
pub use piece::{Color, Piece, PieceKind};
pub use rank::{Row, Square, EMPTY_ROW};
pub use start::INITIAL_FEN;

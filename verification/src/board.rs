//! The board, and reading it from a position in Forsyth-Edwards Notation.

use crate::fen::{is_fen, placement_field, position_of, rank_descriptors};
use crate::rank::{accepted, expand_rank, expansion, is_rank, Row, Square, EMPTY_ROW};
use crate::start::{lemma_initial_fen, starting_position, INITIAL_FEN};
use crate::text::{chars_of, find_char, lemma_first_index, split};
use vstd::prelude::*;
use vstd::slice::slice_subrange;

verus! {

/// The eight rows of a board, from rank 8 down to rank 1.
pub type BoardContent = [Row; 8];

/// A position: the squares, and whatever the notation says beyond them.
#[derive(Debug)]
pub struct Board {
    /// The squares, row by row as they are written: rank 8 first.
    pub content: BoardContent,
    /// Everything after the first space of the text the board was read from
    /// (side to move, castling rights, en-passant square, the two counters),
    /// kept as it was written.
    pub metadata: String,
}

/// Why a text could not be read as a position.
#[derive(Clone, Copy, PartialEq, Eq, Debug, Structural)]
pub enum ParseError {
    /// The text has no space after the piece placement, the piece placement
    /// does not have exactly eight ranks, or one of its ranks holds a
    /// character that is not accepted there or does not stand for exactly
    /// eight squares.
    MalformedFen,
}

/// A board as a mathematical value: eight sequences of eight squares, and the
/// characters of the metadata.
pub struct BoardView {
    pub ranks: Seq<Seq<Square>>,
    pub metadata: Seq<char>,
}

impl BoardView {
    /// Eight ranks, of eight squares each.
    pub open spec fn well_formed(self) -> bool {
        &&& self.ranks.len() == 8
        &&& forall|r: int| 0 <= r < 8 ==> (#[trigger] self.ranks[r]).len() == 8
    }
}

impl View for Board {
    type V = BoardView;

    open spec fn view(&self) -> BoardView {
        BoardView {
            ranks: Seq::new(8, |r: int| self.content@[r]@),
            metadata: self.metadata@,
        }
    }
}

/// Every board has eight ranks of eight squares.
pub proof fn lemma_board_well_formed(board: Board)
    ensures
        board@.well_formed(),
{
}

/// What reading a text that is not well formed gives.
pub open spec fn malformed() -> Result<Board, ParseError> {
    Err(ParseError::MalformedFen)
}

impl Board {
    /// Reads a position. The text is cut at its first space: before it stands
    /// the piece placement, eight rank descriptors with a `/` between them,
    /// rank 8 first; what follows is kept unread as the metadata, further
    /// spaces included. In a rank descriptor a digit from `1` to `8` stands
    /// for that many empty squares and a piece letter for one piece; the
    /// digits `0` and `9` and every other letter make the text malformed,
    /// and a character that is neither digit nor letter stands for nothing.
    /// No board comes out of a text that is not well formed: a rank is never
    /// cut short or filled up, and neither is the board.
    pub fn from_fen(pgn: String) -> (res: Result<Board, ParseError>)
        ensures
            is_fen(pgn@) ==> (res matches Ok(board) && board@ == position_of(pgn@)),
            !is_fen(pgn@) ==> res == malformed(),
            !pgn@.contains(' ') ==> res == malformed(),
            rank_descriptors(pgn@).len() != 8 ==> res == malformed(),
            forall|r: int|
                0 <= r < rank_descriptors(pgn@).len() && expansion(
                    #[trigger] rank_descriptors(pgn@)[r],
                ).len() != 8 ==> res == malformed(),
            forall|r: int, j: int|
                0 <= r < rank_descriptors(pgn@).len() && 0 <= j < rank_descriptors(pgn@)[r].len()
                    && !accepted(#[trigger] rank_descriptors(pgn@)[r][j]) ==> res == malformed(),
    {
        let text = pgn.as_str();
        let chars = chars_of(text);
        let n = chars.len();
        let space = match find_char(chars.as_slice(), ' ') {
            Some(i) => i,
            None => {
                return Err(ParseError::MalformedFen);
            },
        };
        proof {
            lemma_first_index(chars@, ' ');
        }
        let field = slice_subrange(chars.as_slice(), 0, space);
        let ghost descs = split(field@, '/');
        let mut content: BoardContent = [EMPTY_ROW;8];
        let mut rank: usize = 0;
        let mut start: usize = 0;
        proof {
            assert(field@.skip(0) == field@);
        }
        // `rank` descriptors are read; the others are those of the field from
        // `start` on.
        loop
            invariant_except_break
                rank < descs.len(),
                descs.skip(rank as int) == split(field@.skip(start as int), '/'),
            invariant
                field@.len() == space,
                descs == rank_descriptors(pgn@),
                rank <= 8,
                start <= space,
                forall|k: int|
                    0 <= k < rank ==> is_rank(#[trigger] descs[k]) && content@[k]@ == expansion(
                        descs[k],
                    ),
            ensures
                rank == descs.len(),
            decreases space - start,
        {
            if rank == 8 {
                return Err(ParseError::MalformedFen);
            }
            let rest = slice_subrange(field, start, space);
            let (len, last) = match find_char(rest, '/') {
                Some(j) => (j, false),
                None => (rest.len(), true),
            };
            let descriptor = slice_subrange(rest, 0, len);
            proof {
                lemma_first_index(rest@, '/');
                assert(descs.skip(rank as int)[0] == descs[rank as int]);
                if !last {
                    let after = rest@.subrange(len + 1, rest@.len() as int);
                    assert(after == field@.skip(start + len + 1));
                    assert((seq![descriptor@] + split(after, '/')).skip(1) == split(after, '/'));
                }
                assert(descs[rank as int] == descriptor@);
            }
            match expand_rank(descriptor) {
                Some(row) => {
                    content[rank] = row;
                },
                None => {
                    return Err(ParseError::MalformedFen);
                },
            }
            rank += 1;
            if last {
                break ;
            }
            start = start + len + 1;
        }
        if rank != 8 {
            return Err(ParseError::MalformedFen);
        }
        let metadata = text.substring_char(space + 1, n).to_owned();
        let board = Board { content, metadata };
        proof {
            assert(board@.ranks == position_of(pgn@).ranks);
        }
        Ok(board)
    }

    /// The standard starting position, read from `INITIAL_FEN`.
    pub fn new() -> (res: Board)
        ensures
            res@ == starting_position(),
            res@ == position_of(INITIAL_FEN@),
    {
        proof {
            lemma_initial_fen();
        }
        Board::from_fen(INITIAL_FEN.to_owned()).unwrap()
    }
}

impl Default for Board {
    /// The standard starting position.
    fn default() -> (res: Board)
        ensures
            res@ == starting_position(),
    {
        Board::new()
    }
}

} // verus!

//! The standard starting position.

use crate::board::BoardView;
use crate::fen::{is_fen, lemma_fields_of_joined, position_of, rank_descriptors};
use crate::piece::{Color, Piece};
use crate::rank::{expansion, lemma_expansion_of_letters, lemma_expansion_push, Square};
use crate::text::{lemma_split_joined, lemma_split_single};
use vstd::prelude::*;

verus! {

/// The standard starting position, as a text.
pub const INITIAL_FEN: &'static str = "rnbqkbnr/pppppppp/8/8/8/8/PPPPPPPP/RNBQKBNR w KQkq - 0 1";

/// The eight pieces that a side begins with behind its pawns, from file a to
/// file h.
pub open spec fn back_rank(color: Color) -> Seq<Square> {
    seq![
        Some(Piece::Rook(color)),
        Some(Piece::Knight(color)),
        Some(Piece::Bishop(color)),
        Some(Piece::Queen(color)),
        Some(Piece::King(color)),
        Some(Piece::Bishop(color)),
        Some(Piece::Knight(color)),
        Some(Piece::Rook(color)),
    ]
}

/// Eight pawns of one side.
pub open spec fn pawn_rank(color: Color) -> Seq<Square> {
    Seq::new(8, |i: int| Some(Piece::Pawn(color)))
}

/// Eight empty squares.
pub open spec fn empty_rank() -> Seq<Square> {
    Seq::new(8, |i: int| None)
}

/// The standard starting position: Black's pieces on the two topmost ranks,
/// White's on the two lowest, White to move with every castling right, no
/// en-passant square, and the counters at 0 and 1.
pub open spec fn starting_position() -> BoardView {
    BoardView {
        ranks: seq![
            back_rank(Color::Black),
            pawn_rank(Color::Black),
            empty_rank(),
            empty_rank(),
            empty_rank(),
            empty_rank(),
            pawn_rank(Color::White),
            back_rank(Color::White),
        ],
        metadata: "w KQkq - 0 1"@,
    }
}

/// The text of the starting position is well formed and stands for the
/// starting position.
pub proof fn lemma_initial_fen()
    ensures
        is_fen(INITIAL_FEN@),
        position_of(INITIAL_FEN@) == starting_position(),
{
    reveal_strlit("rnbqkbnr/pppppppp/8/8/8/8/PPPPPPPP/RNBQKBNR w KQkq - 0 1");
    reveal_strlit("rnbqkbnr");
    reveal_strlit("pppppppp");
    reveal_strlit("8");
    reveal_strlit("PPPPPPPP");
    reveal_strlit("RNBQKBNR");
    reveal_strlit("w KQkq - 0 1");
    let text = INITIAL_FEN@;
    let slash = seq!['/'];
    let r7 = "RNBQKBNR"@;
    let r6 = "PPPPPPPP"@ + slash + r7;
    let r5 = "8"@ + slash + r6;
    let r4 = "8"@ + slash + r5;
    let r3 = "8"@ + slash + r4;
    let r2 = "8"@ + slash + r3;
    let r1 = "pppppppp"@ + slash + r2;
    let r0 = "rnbqkbnr"@ + slash + r1;
    assert(text == r0 + seq![' '] + "w KQkq - 0 1"@);
    lemma_fields_of_joined(r0, "w KQkq - 0 1"@);
    lemma_split_joined("rnbqkbnr"@, '/', r1);
    lemma_split_joined("pppppppp"@, '/', r2);
    lemma_split_joined("8"@, '/', r3);
    lemma_split_joined("8"@, '/', r4);
    lemma_split_joined("8"@, '/', r5);
    lemma_split_joined("8"@, '/', r6);
    lemma_split_joined("PPPPPPPP"@, '/', r7);
    lemma_split_single(r7, '/');
    let descs = rank_descriptors(text);
    assert(descs == seq![
        "rnbqkbnr"@,
        "pppppppp"@,
        "8"@,
        "8"@,
        "8"@,
        "8"@,
        "PPPPPPPP"@,
        "RNBQKBNR"@,
    ]);
    lemma_expansion_of_letters("rnbqkbnr"@);
    lemma_expansion_of_letters("pppppppp"@);
    lemma_expansion_of_letters("PPPPPPPP"@);
    lemma_expansion_of_letters("RNBQKBNR"@);
    lemma_expansion_push(Seq::empty(), '8');
    assert("8"@ == Seq::<char>::empty().push('8'));
    assert(expansion("rnbqkbnr"@) == back_rank(Color::Black));
    assert(expansion("pppppppp"@) == pawn_rank(Color::Black));
    assert(expansion("PPPPPPPP"@) == pawn_rank(Color::White));
    assert(expansion("RNBQKBNR"@) == back_rank(Color::White));
    assert(position_of(text).ranks == starting_position().ranks);
}

} // verus!

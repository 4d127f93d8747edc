//! Rank descriptors: the text of one row of the board, and the eight squares
//! that it stands for.

use crate::ascii::{decimal_digit, digit_value, is_ascii_alphabetic, is_digit, is_letter};
use crate::piece::{is_piece_letter, Piece};
use vstd::prelude::*;

verus! {

/// One square of the board: empty, or holding one piece.
pub type Square = Option<Piece>;

/// One row of the board: eight squares from file a to file h.
pub type Row = [Square; 8];

/// A row of empty squares.
pub const EMPTY_ROW: Row = [None, None, None, None, None, None, None, None];

/// The squares that one character of a rank descriptor stands for: a digit
/// for that many empty squares, a piece letter for one square with that
/// piece, any other character for none.
pub open spec fn squares_of(c: char) -> Seq<Square> {
    if is_digit(c) {
        Seq::new(digit_value(c), |i: int| None)
    } else {
        match Piece::spec_from_char(c) {
            Some(p) => seq![Some(p)],
            None => Seq::empty(),
        }
    }
}

/// Whether `c` may stand in a rank descriptor. Of the digits only `1` to `8`
/// may, and of the letters only the twelve piece letters: a letter that names
/// no piece is refused, not passed over. Every other character may stand
/// there, and stands for nothing.
pub open spec fn accepted(c: char) -> bool {
    if is_digit(c) {
        1 <= digit_value(c) <= 8
    } else if is_letter(c) {
        is_piece_letter(c)
    } else {
        true
    }
}

/// The squares that a rank descriptor stands for, from left to right.
pub open spec fn expansion(d: Seq<char>) -> Seq<Square>
    decreases d.len(),
{
    if d.len() == 0 {
        Seq::empty()
    } else {
        expansion(d.drop_last()) + squares_of(d.last())
    }
}

/// A rank descriptor is well formed when each of its characters is accepted
/// and it stands for exactly eight squares.
pub open spec fn is_rank(d: Seq<char>) -> bool {
    &&& forall|j: int| 0 <= j < d.len() ==> accepted(#[trigger] d[j])
    &&& expansion(d).len() == 8
}

/// A descriptor that ends in `c` stands for the squares of what comes before,
/// followed by those of `c`.
pub proof fn lemma_expansion_push(d: Seq<char>, c: char)
    ensures
        expansion(d.push(c)) == expansion(d) + squares_of(c),
{
    assert(d.push(c).drop_last() == d);
}

/// Squares are only ever added: a descriptor stands for at least as many
/// squares as any of its beginnings.
pub proof fn lemma_expansion_grows(d: Seq<char>, i: int)
    requires
        0 <= i <= d.len(),
    ensures
        expansion(d.take(i)).len() <= expansion(d).len(),
    decreases d.len(),
{
    if i == d.len() {
        assert(d.take(i) == d);
    } else {
        lemma_expansion_grows(d.drop_last(), i);
        assert(d.drop_last().take(i) == d.take(i));
    }
}

/// A descriptor made of piece letters alone stands for those pieces, one
/// square for each letter.
pub proof fn lemma_expansion_of_letters(d: Seq<char>)
    requires
        forall|j: int| 0 <= j < d.len() ==> is_piece_letter(#[trigger] d[j]),
    ensures
        forall|j: int| 0 <= j < d.len() ==> accepted(#[trigger] d[j]),
        expansion(d) == Seq::new(d.len(), |j: int| Piece::spec_from_char(d[j])),
    decreases d.len(),
{
    if d.len() > 0 {
        lemma_expansion_of_letters(d.drop_last());
    }
}

/// Reads one rank descriptor into a row. The answer is `None` when a
/// character is not accepted, when the squares run past the eighth at any
/// point, or when they do not come to exactly eight at the end; a row is
/// never cut short or filled up.
pub fn expand_rank(d: &[char]) -> (res: Option<Row>)
    ensures
        is_rank(d@) ==> (res matches Some(row) && row@ == expansion(d@)),
        !is_rank(d@) ==> res is None,
        forall|i: int| 0 <= i <= d@.len() && (#[trigger] expansion(d@.take(i))).len() > 8 ==> res is None,
{
    proof {
        assert forall|i: int| 0 <= i <= d@.len() implies (#[trigger] expansion(d@.take(i))).len()
            <= expansion(d@).len() by {
            lemma_expansion_grows(d@, i);
        }
    }
    let mut row: Row = EMPTY_ROW;
    let mut filled: usize = 0;
    let mut i: usize = 0;
    while i < d.len()
        invariant
            i <= d.len(),
            filled <= 8,
            forall|j: int| 0 <= j < i ==> accepted(#[trigger] d@[j]),
            expansion(d@.take(i as int)).len() == filled,
            forall|k: int| 0 <= k < filled ==> row@[k] == expansion(d@.take(i as int))[k],
            forall|k: int| filled <= k < 8 ==> row@[k] == None::<Piece>,
        decreases d.len() - i,
    {
        let c = d[i];
        proof {
            assert(d@.take(i + 1) == d@.take(i as int).push(c));
            lemma_expansion_push(d@.take(i as int), c);
            lemma_expansion_grows(d@, i + 1);
        }
        match decimal_digit(c) {
            Some(n) => {
                if n == 0 || n > 8 {
                    return None;
                }
                if n as usize > 8 - filled {
                    return None;
                }
                filled += n as usize;
            },
            None => {
                if is_ascii_alphabetic(c) {
                    match Piece::from_char(c) {
                        Some(p) => {
                            if filled == 8 {
                                return None;
                            }
                            row[filled] = Some(p);
                            filled += 1;
                        },
                        None => {
                            return None;
                        },
                    }
                }
            },
        }
        i += 1;
    }
    assert(d@.take(i as int) == d@);
    if filled == 8 {
        Some(row)
    } else {
        None
    }
}

} // verus!

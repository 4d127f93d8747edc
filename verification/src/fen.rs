//! The grammar of a position in Forsyth-Edwards Notation: which texts are
//! well formed, and which position each of them stands for.

use crate::board::BoardView;
use crate::rank::{expansion, is_rank};
use crate::text::{first_index, lemma_first_index_is, split};
use vstd::prelude::*;

verus! {

/// The piece placement of a text: what stands before its first space.
pub open spec fn placement_field(text: Seq<char>) -> Seq<char> {
    text.take(first_index(text, ' '))
}

/// The metadata of a text: what stands after its first space, further spaces
/// included.
pub open spec fn metadata_tail(text: Seq<char>) -> Seq<char> {
    text.skip(first_index(text, ' ') + 1)
}

/// The rank descriptors of a text: its piece placement, cut at each `/`.
pub open spec fn rank_descriptors(text: Seq<char>) -> Seq<Seq<char>> {
    split(placement_field(text), '/')
}

/// Whether a text can be read as a position: it has a space, and before the
/// first one exactly eight rank descriptors, each of them well formed.
pub open spec fn is_fen(text: Seq<char>) -> bool {
    &&& text.contains(' ')
    &&& rank_descriptors(text).len() == 8
    &&& forall|r: int| 0 <= r < 8 ==> is_rank(#[trigger] rank_descriptors(text)[r])
}

/// The position that a well-formed text stands for.
pub open spec fn position_of(text: Seq<char>) -> BoardView {
    BoardView {
        ranks: Seq::new(8, |r: int| expansion(rank_descriptors(text)[r])),
        metadata: metadata_tail(text),
    }
}

/// A well-formed text stands for eight ranks of eight squares.
pub proof fn lemma_position_well_formed(text: Seq<char>)
    requires
        is_fen(text),
    ensures
        position_of(text).well_formed(),
{
}

/// A piece placement without a space, then a space, then any metadata: the
/// text is cut into exactly these two.
pub proof fn lemma_fields_of_joined(placement: Seq<char>, metadata: Seq<char>)
    requires
        !placement.contains(' '),
    ensures
        (placement + seq![' '] + metadata).contains(' '),
        placement_field(placement + seq![' '] + metadata) == placement,
        metadata_tail(placement + seq![' '] + metadata) == metadata,
{
    let text = placement + seq![' '] + metadata;
    let i = placement.len() as int;
    assert forall|j: int| 0 <= j < i implies text[j] != ' ' by {
        assert(text[j] == placement[j]);
    }
    lemma_first_index_is(text, ' ', i);
    assert(text.take(i) == placement);
}

} // verus!

//! Finding a character in a text and cutting a text at a separator.

use vstd::prelude::*;

verus! {

/// Where `c` first stands in `s`; the length of `s` if it stands nowhere.
pub open spec fn first_index(s: Seq<char>, c: char) -> int
    decreases s.len(),
{
    if s.len() == 0 || s[0] == c {
        0
    } else {
        1 + first_index(s.drop_first(), c)
    }
}

/// The parts of `s` between the occurrences of `sep`, in their order. There is
/// always one part more than there are separators, so a text without any is
/// its own single part, and parts may be empty.
pub open spec fn split(s: Seq<char>, sep: char) -> Seq<Seq<char>>
    decreases s.len(),
{
    let i = first_index(s, sep);
    if 0 <= i < s.len() {
        seq![s.subrange(0, i)] + split(s.subrange(i + 1, s.len() as int), sep)
    } else {
        seq![s]
    }
}

/// `first_index` lies within the text or at its end, `c` stands there if it
/// is within, and `c` stands nowhere before it.
pub proof fn lemma_first_index(s: Seq<char>, c: char)
    ensures
        0 <= first_index(s, c) <= s.len(),
        first_index(s, c) < s.len() ==> s[first_index(s, c)] == c,
        forall|j: int| 0 <= j < first_index(s, c) ==> s[j] != c,
        first_index(s, c) < s.len() <==> s.contains(c),
    decreases s.len(),
{
    if s.len() == 0 || s[0] == c {
    } else {
        let t = s.drop_first();
        lemma_first_index(t, c);
        assert forall|j: int| 0 <= j < 1 + first_index(t, c) implies s[j] != c by {
            if j > 0 {
                assert(s[j] == t[j - 1]);
            }
        }
    }
}

/// An index at which `c` stands, with no `c` before it, is `first_index`; so
/// is the length of a text in which `c` stands nowhere.
pub proof fn lemma_first_index_is(s: Seq<char>, c: char, i: int)
    requires
        0 <= i <= s.len(),
        i < s.len() ==> s[i] == c,
        forall|j: int| 0 <= j < i ==> s[j] != c,
    ensures
        first_index(s, c) == i,
{
    lemma_first_index(s, c);
}

/// A text without the separator is its own single part.
pub proof fn lemma_split_single(s: Seq<char>, sep: char)
    requires
        !s.contains(sep),
    ensures
        split(s, sep) == seq![s],
{
    lemma_first_index(s, sep);
}

/// A part without the separator, then a separator, then more text: the first
/// part comes back as it was, and the rest is cut on its own.
pub proof fn lemma_split_joined(head: Seq<char>, sep: char, rest: Seq<char>)
    requires
        !head.contains(sep),
    ensures
        split(head + seq![sep] + rest, sep) == seq![head] + split(rest, sep),
{
    let s = head + seq![sep] + rest;
    let i = head.len() as int;
    lemma_first_index_is(s, sep, i);
    assert(s.subrange(0, i) == head);
    assert(s.subrange(i + 1, s.len() as int) == rest);
}

/// Looks for the first `c` in `s`.
pub fn find_char(s: &[char], c: char) -> (res: Option<usize>)
    ensures
        s@.contains(c) ==> res == Some(first_index(s@, c) as usize),
        !s@.contains(c) ==> res is None,
        res matches Some(i) ==> i < s.len(),
{
    let mut i: usize = 0;
    while i < s.len()
        invariant
            i <= s.len(),
            forall|j: int| 0 <= j < i ==> s@[j] != c,
        decreases s.len() - i,
    {
        if s[i] == c {
            proof {
                lemma_first_index(s@, c);
            }
            return Some(i);
        }
        i += 1;
    }
    None
}

/// The characters of `s`, one by one.
pub fn chars_of(s: &str) -> (res: Vec<char>)
    ensures
        res@ == s@,
{
    let mut res: Vec<char> = Vec::new();
    for c in it: s.chars()
        invariant
            res@ == it.seq().take(it.index()),
    {
        res.push(c);
    }
    res
}

} // verus!

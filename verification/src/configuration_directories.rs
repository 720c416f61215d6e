//! The list of configuration directories, written as one text with a comma
//! between neighbours.

use crate::non_empty::{EmptyInputError, NonEmptySeq, NonEmptyVec};
use vstd::prelude::*;

verus! {

/// The pieces of `text` between its commas, in order. Read from the left, a
/// comma closes the current piece and opens an empty one; any other
/// character extends the current piece. A text without a comma is one
/// piece, and so is the empty text.
pub open spec fn split_at_commas(text: Seq<char>) -> Seq<Seq<char>>
    decreases text.len(),
{
    if text.len() == 0 {
        seq![Seq::empty()]
    } else {
        let before = split_at_commas(text.drop_last());
        if text.last() == ',' {
            before.push(Seq::empty())
        } else {
            before.drop_last().push(before.last().push(text.last()))
        }
    }
}

/// The text that lists `pieces` with a comma between neighbours.
pub open spec fn join_with_commas(pieces: Seq<Seq<char>>) -> Seq<char>
    decreases pieces.len(),
{
    if pieces.len() == 0 {
        Seq::empty()
    } else if pieces.len() == 1 {
        pieces[0]
    } else {
        join_with_commas(pieces.drop_last()) + seq![','] + pieces.last()
    }
}

/// Splitting always yields a piece, no piece holds a comma, and the pieces
/// joined by commas give the text back.
pub proof fn lemma_split_at_commas(text: Seq<char>)
    ensures
        split_at_commas(text).len() >= 1,
        forall|i: int, j: int|
            0 <= i < split_at_commas(text).len() && 0 <= j < split_at_commas(text)[i].len()
                ==> split_at_commas(text)[i][j] != ',',
        join_with_commas(split_at_commas(text)) == text,
    decreases text.len(),
{
    if text.len() > 0 {
        let shorter = text.drop_last();
        let before = split_at_commas(shorter);
        let pieces = split_at_commas(text);
        lemma_split_at_commas(shorter);
        if text.last() == ',' {
            assert(pieces.drop_last() =~= before);
        } else if before.len() > 1 {
            assert(pieces.drop_last() =~= before.drop_last());
            assert(text =~= shorter.push(text.last()));
        }
    }
}

/// Joining loses nothing either: a list of at least one piece, none holding
/// a comma, is what splitting its joined text gives. So the pieces of a text
/// are the only such list that joins to it.
pub proof fn lemma_split_of_joined(pieces: Seq<Seq<char>>)
    requires
        pieces.len() >= 1,
        forall|i: int, j: int|
            0 <= i < pieces.len() && 0 <= j < pieces[i].len() ==> pieces[i][j] != ',',
    ensures
        split_at_commas(join_with_commas(pieces)) == pieces,
    decreases pieces.len(), pieces.last().len(),
{
    let text = join_with_commas(pieces);
    let last = pieces.last();
    if last.len() > 0 {
        let shorter = pieces.drop_last().push(last.drop_last());
        assert(shorter.drop_last() =~= pieces.drop_last());
        assert(join_with_commas(shorter) =~= text.drop_last());
        lemma_split_of_joined(shorter);
        assert(last.drop_last().push(last.last()) =~= last);
    } else if pieces.len() > 1 {
        assert(text.drop_last() =~= join_with_commas(pieces.drop_last()));
        lemma_split_of_joined(pieces.drop_last());
        assert(last =~= Seq::<char>::empty());
    }
}

/// Splits `text` at its commas. There is always at least one piece: a text
/// without a comma, the empty text too, is returned whole as the only piece.
pub fn split_on_commas(text: &str) -> (pieces: Vec<String>)
    ensures
        pieces.deep_view() == split_at_commas(text@),
        pieces@.len() >= 1,
        join_with_commas(pieces.deep_view()) == text@,
        forall|i: int, j: int|
            0 <= i < pieces@.len() && 0 <= j < pieces@[i]@.len() ==> pieces@[i]@[j] != ',',
{
    let length = text.unicode_len();
    let mut pieces: Vec<String> = Vec::new();
    let mut start: usize = 0;
    let mut index: usize = 0;
    let chars = text.chars();
    proof {
        assert(text@.subrange(0, 0) =~= Seq::<char>::empty());
    }
    for c in it: chars
        invariant
            it.seq() == text@,
            index == it.index(),
            start <= index <= length,
            length == text@.len(),
            split_at_commas(text@.take(index as int)) == pieces.deep_view().push(
                text@.subrange(start as int, index as int),
            ),
    {
        let ghost current = text@.subrange(start as int, index as int);
        proof {
            assert(text@.take(index + 1).drop_last() =~= text@.take(index as int));
        }
        if c == ',' {
            let piece = text.substring_char(start, index).to_string();
            pieces.push(piece);
            start = index + 1;
            proof {
                assert(text@.subrange(start as int, index + 1) =~= Seq::<char>::empty());
            }
        } else {
            proof {
                assert(text@.subrange(start as int, index + 1) =~= current.push(c));
            }
        }
        index = index + 1;
    }
    let ghost done = pieces.deep_view();
    let piece = text.substring_char(start, index).to_string();
    pieces.push(piece);
    proof {
        assert(pieces.deep_view() =~= done.push(piece@));
        assert(text@.take(index as int) =~= text@);
        lemma_split_at_commas(text@);
        assert forall|i: int, j: int|
            0 <= i < pieces@.len() && 0 <= j < pieces@[i]@.len() implies pieces@[i]@[j] != ',' by {
            assert(pieces@[i]@ == pieces.deep_view()[i]);
        }
    }
    pieces
}

/// The configuration directories that `config_dirs_string` lists, separated
/// by commas: the first one listed is the head. The list is never empty,
/// because splitting always yields a piece; an empty text lists one
/// directory, the empty one.
pub fn get_configuration_directories(config_dirs_string: &str) -> (config_dirs: NonEmptyVec<String>)
    ensures
        NonEmptySeq::try_from(split_at_commas(config_dirs_string@)) == Ok::<_, EmptyInputError>(
            config_dirs.deep_view(),
        ),
        config_dirs.deep_view().into_seq() == split_at_commas(config_dirs_string@),
{
    let mut config_dirs_list = split_on_commas(config_dirs_string);
    let ghost listed = config_dirs_list.deep_view();
    let head = config_dirs_list.remove(0);
    let config_dirs = NonEmptyVec::of(head, config_dirs_list);
    proof {
        assert(config_dirs.deep_view().tail =~= listed.drop_first());
    }
    config_dirs
}

} // verus!

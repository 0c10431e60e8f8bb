//! The boundary resolver: where a loop's driver ends and its
//! `{ body } else { block }` pair begins.
//!
//! The driver is an arbitrary expression and may hold curly brackets of its
//! own, so the first `{` proves nothing. The resolver walks the run one token
//! at a time and takes the first position from which a well-formed block,
//! the keyword `else` and a second well-formed block follow.

use vstd::prelude::*;
use crate::syntax::{block_syntax, parses_as_block};
use crate::token::{views, Token, TokenView};

verus! {

/// Where the scan of a run ended.
#[derive(Clone, Copy, Debug, PartialEq, Eq)]
pub enum Boundary {
    /// The body block is the token at this index; the driver is what lies
    /// between the start of the scan and it.
    At(usize),
    /// The pair was found with nothing before it, or there was nothing to
    /// scan at all.
    EmptyDriver,
    /// The run ended before any position qualified.
    Missing,
}

/// For each token of `run`, whether it is a group in curly brackets whose
/// text the parser accepts as a block.
pub open spec fn block_marks(run: Seq<TokenView>) -> Seq<bool> {
    Seq::new(run.len(), |i: int| run[i].is_brace() && block_syntax(run[i].text))
}

/// Whether the pair begins at index `i`: a marked block, `else`, and a
/// marked block. `sound` says which tokens are well-formed blocks.
pub open spec fn splits_at(run: Seq<TokenView>, sound: Seq<bool>, i: int) -> bool {
    &&& 0 <= i
    &&& i + 2 < run.len()
    &&& i + 2 < sound.len()
    &&& run[i].is_brace()
    &&& sound[i]
    &&& run[i + 1].is_word("else"@)
    &&& run[i + 2].is_brace()
    &&& sound[i + 2]
}

/// The first index at or after `from` at which the pair begins.
pub open spec fn leftmost_split(run: Seq<TokenView>, sound: Seq<bool>, from: int) -> Option<int>
    decreases run.len() - from,
{
    if from < 0 || from >= run.len() {
        None
    } else if splits_at(run, sound, from) {
        Some(from)
    } else {
        leftmost_split(run, sound, from + 1)
    }
}

/// The outcome of scanning `run` from index `from`.
pub open spec fn boundary(run: Seq<TokenView>, sound: Seq<bool>, from: int) -> Boundary {
    if from >= run.len() {
        Boundary::EmptyDriver
    } else {
        match leftmost_split(run, sound, from) {
            Some(i) => if i == from {
                Boundary::EmptyDriver
            } else {
                Boundary::At(i as usize)
            },
            None => Boundary::Missing,
        }
    }
}

/// The split that the scan reports is a valid one, and no position between
/// the start of the scan and it is: of several valid splits the leftmost is
/// taken, and the same run always gives the same answer. When the scan
/// reports none, no position at or after its start is valid.
pub proof fn lemma_split_is_leftmost(run: Seq<TokenView>, sound: Seq<bool>, from: int)
    requires
        0 <= from,
    ensures
        match leftmost_split(run, sound, from) {
            Some(i) => {
                &&& from <= i
                &&& splits_at(run, sound, i)
                &&& forall|j: int| from <= j < i ==> !splits_at(run, sound, j)
            },
            None => forall|j: int| from <= j ==> !splits_at(run, sound, j),
        },
    decreases run.len() - from,
{
    if from < run.len() && !splits_at(run, sound, from) {
        lemma_split_is_leftmost(run, sound, from + 1);
    }
}

/// Any valid split at or after the start of the scan bounds the reported
/// one from above.
pub proof fn lemma_split_not_after(run: Seq<TokenView>, sound: Seq<bool>, from: int, other: int)
    requires
        0 <= from <= other,
        splits_at(run, sound, other),
    ensures
        leftmost_split(run, sound, from) is Some,
        leftmost_split(run, sound, from)->0 <= other,
{
    lemma_split_is_leftmost(run, sound, from);
}

/// Marks the tokens of `run` that are well-formed blocks, asking the parser
/// about each group in curly brackets.
pub fn mark_blocks(run: &Vec<Token>) -> (sound: Vec<bool>)
    ensures
        sound@ == block_marks(views(run@)),
{
    let mut sound: Vec<bool> = Vec::new();
    let mut i: usize = 0;
    while i < run.len()
        invariant
            i <= run.len(),
            sound.len() == i,
            forall|j: int| 0 <= j < i ==> sound[j] == block_marks(views(run@))[j],
        decreases run.len() - i,
    {
        let ok = run[i].is_brace() && parses_as_block(run[i].text.as_str());
        sound.push(ok);
        i += 1;
    }
    assert(sound@ =~= block_marks(views(run@)));
    sound
}

/// Scans `run` from index `from`, given for each token whether it is a
/// well-formed block, and reports the leftmost position at which the
/// `{ body } else { block }` pair begins.
pub fn locate(run: &Vec<Token>, sound: &Vec<bool>, from: usize) -> (found: Boundary)
    requires
        sound.len() == run.len(),
    ensures
        found == boundary(views(run@), sound@, from as int),
{
    if from >= run.len() {
        return Boundary::EmptyDriver;
    }
    let ghost all = views(run@);
    let mut i: usize = from;
    while i < run.len()
        invariant
            from <= i <= run.len(),
            sound.len() == run.len(),
            all == views(run@),
            leftmost_split(all, sound@, from as int) == leftmost_split(all, sound@, i as int),
        decreases run.len() - i,
    {
        if run.len() - i > 2 && run[i].is_brace() && sound[i] && run[i + 1].is_word("else")
            && run[i + 2].is_brace() && sound[i + 2] {
            assert(splits_at(all, sound@, i as int));
            if i == from {
                return Boundary::EmptyDriver;
            }
            return Boundary::At(i);
        }
        assert(!splits_at(all, sound@, i as int));
        i += 1;
    }
    Boundary::Missing
}

/// Scans `run` from index `from` for the leftmost position at which a
/// well-formed block, `else` and a second well-formed block follow.
pub fn resolve(run: &Vec<Token>, from: usize) -> (found: Boundary)
    ensures
        found == boundary(views(run@), block_marks(views(run@)), from as int),
{
    let sound = mark_blocks(run);
    locate(run, &sound, from)
}

} // verus!

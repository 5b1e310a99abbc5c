//! The fixed-capacity vectors of the `arrayvec` crate, as this library uses
//! them.
//!
//! Nothing in this file is proved. Each function makes one call into
//! `arrayvec`, and its contract states what that call does to the vector's
//! elements.

use crate::game::PuzzleCell;
use arrayvec::ArrayVec;
use vstd::prelude::*;

verus! {

/// The longest side a puzzle may have, and the capacity of every line buffer.
pub const MAX_PUZZLE_SIZE: usize = 20;

#[verifier::external_type_specification]
#[verifier::external_body]
#[verifier::reject_recursive_types(T)]
pub struct ExArrayVec<T, const CAP: usize>(ArrayVec<T, CAP>);

/// The elements of a vector of bytes, first to last.
pub uninterp spec fn byte_items(v: ArrayVec<u8, MAX_PUZZLE_SIZE>) -> Seq<u8>;

/// The elements of a vector of cells, first to last.
pub uninterp spec fn cell_items(v: ArrayVec<PuzzleCell, MAX_PUZZLE_SIZE>) -> Seq<PuzzleCell>;

/// The elements of a vector of clue entries, first to last.
pub uninterp spec fn clue_items(v: ArrayVec<(u8, bool), MAX_PUZZLE_SIZE>) -> Seq<(u8, bool)>;

/// The clue lists held in a vector of clue lists, first to last.
pub uninterp spec fn table_items(
    v: ArrayVec<ArrayVec<(u8, bool), MAX_PUZZLE_SIZE>, MAX_PUZZLE_SIZE>,
) -> Seq<Seq<(u8, bool)>>;

/// `ArrayVec::new`: a vector without elements.
#[verifier::external_body]
pub(crate) fn bytes_new() -> (v: ArrayVec<u8, MAX_PUZZLE_SIZE>)
    ensures
        byte_items(v) == Seq::<u8>::empty(),
{
    ArrayVec::new()
}

/// `ArrayVec::push`: appends `x`. The call panics on a full vector, which
/// the precondition rules out.
#[verifier::external_body]
pub(crate) fn bytes_push(v: &mut ArrayVec<u8, MAX_PUZZLE_SIZE>, x: u8)
    requires
        byte_items(*old(v)).len() < MAX_PUZZLE_SIZE,
    ensures
        byte_items(*final(v)) == byte_items(*old(v)).push(x),
{
    v.push(x)
}

/// `ArrayVec::as_slice`: the elements as a slice.
#[verifier::external_body]
pub(crate) fn bytes_as_slice(v: &ArrayVec<u8, MAX_PUZZLE_SIZE>) -> (s: &[u8])
    ensures
        s@ == byte_items(*v),
{
    v.as_slice()
}

/// `ArrayVec::as_mut_slice`, with an assignment to element `i` of the
/// slice: replaces that element, which the precondition requires to exist.
#[verifier::external_body]
pub(crate) fn bytes_set(v: &mut ArrayVec<u8, MAX_PUZZLE_SIZE>, i: usize, x: u8)
    requires
        i < byte_items(*old(v)).len(),
    ensures
        byte_items(*final(v)) == byte_items(*old(v)).update(i as int, x),
{
    v.as_mut_slice()[i] = x;
}

/// `ArrayVec::new`: a vector without elements.
#[verifier::external_body]
pub(crate) fn cells_new() -> (v: ArrayVec<PuzzleCell, MAX_PUZZLE_SIZE>)
    ensures
        cell_items(v) == Seq::<PuzzleCell>::empty(),
{
    ArrayVec::new()
}

/// `ArrayVec::push`: appends `x`. The call panics on a full vector, which
/// the precondition rules out.
#[verifier::external_body]
pub(crate) fn cells_push(v: &mut ArrayVec<PuzzleCell, MAX_PUZZLE_SIZE>, x: PuzzleCell)
    requires
        cell_items(*old(v)).len() < MAX_PUZZLE_SIZE,
    ensures
        cell_items(*final(v)) == cell_items(*old(v)).push(x),
{
    v.push(x)
}

/// `ArrayVec::as_slice`: the elements as a slice.
#[verifier::external_body]
pub(crate) fn cells_as_slice(v: &ArrayVec<PuzzleCell, MAX_PUZZLE_SIZE>) -> (s: &[PuzzleCell])
    ensures
        s@ == cell_items(*v),
{
    v.as_slice()
}

/// `ArrayVec::new`: a vector without elements.
#[verifier::external_body]
pub(crate) fn clues_new() -> (v: ArrayVec<(u8, bool), MAX_PUZZLE_SIZE>)
    ensures
        clue_items(v) == Seq::<(u8, bool)>::empty(),
{
    ArrayVec::new()
}

/// `ArrayVec::push`: appends `x`. The call panics on a full vector, which
/// the precondition rules out.
#[verifier::external_body]
pub(crate) fn clues_push(v: &mut ArrayVec<(u8, bool), MAX_PUZZLE_SIZE>, x: (u8, bool))
    requires
        clue_items(*old(v)).len() < MAX_PUZZLE_SIZE,
    ensures
        clue_items(*final(v)) == clue_items(*old(v)).push(x),
{
    v.push(x)
}

/// `ArrayVec::as_slice`: the elements as a slice. A vector never holds more
/// elements than its capacity.
#[verifier::external_body]
pub(crate) fn clues_as_slice(v: &ArrayVec<(u8, bool), MAX_PUZZLE_SIZE>) -> (s: &[(u8, bool)])
    ensures
        s@ == clue_items(*v),
        s@.len() <= MAX_PUZZLE_SIZE,
{
    v.as_slice()
}

/// `ArrayVec::new`: a vector without elements.
#[verifier::external_body]
pub(crate) fn tables_new() -> (v: ArrayVec<ArrayVec<(u8, bool), MAX_PUZZLE_SIZE>, MAX_PUZZLE_SIZE>)
    ensures
        table_items(v) == Seq::<Seq<(u8, bool)>>::empty(),
{
    ArrayVec::new()
}

/// `ArrayVec::push`: appends the list `x`. The call panics on a full vector,
/// which the precondition rules out.
#[verifier::external_body]
pub(crate) fn tables_push(
    v: &mut ArrayVec<ArrayVec<(u8, bool), MAX_PUZZLE_SIZE>, MAX_PUZZLE_SIZE>,
    x: ArrayVec<(u8, bool), MAX_PUZZLE_SIZE>,
)
    requires
        table_items(*old(v)).len() < MAX_PUZZLE_SIZE,
    ensures
        table_items(*final(v)) == table_items(*old(v)).push(clue_items(x)),
{
    v.push(x)
}

/// `ArrayVec::as_slice`: the lists as a slice, each with the elements that
/// the vector holds for it.
#[verifier::external_body]
pub(crate) fn tables_as_slice(
    v: &ArrayVec<ArrayVec<(u8, bool), MAX_PUZZLE_SIZE>, MAX_PUZZLE_SIZE>,
) -> (s: &[ArrayVec<(u8, bool), MAX_PUZZLE_SIZE>])
    ensures
        s@.len() == table_items(*v).len(),
        forall|i: int| 0 <= i < s@.len() ==> clue_items(#[trigger] s@[i]) == table_items(*v)[i],
{
    v.as_slice()
}

/// `ArrayVec::as_mut_slice`, with an assignment to element `i` of the
/// slice: replaces that list, which the precondition requires to exist.
#[verifier::external_body]
pub(crate) fn tables_set(
    v: &mut ArrayVec<ArrayVec<(u8, bool), MAX_PUZZLE_SIZE>, MAX_PUZZLE_SIZE>,
    i: usize,
    x: ArrayVec<(u8, bool), MAX_PUZZLE_SIZE>,
)
    requires
        i < table_items(*old(v)).len(),
    ensures
        table_items(*final(v)) == table_items(*old(v)).update(i as int, clue_items(x)),
{
    v.as_mut_slice()[i] = x;
}

} // verus!

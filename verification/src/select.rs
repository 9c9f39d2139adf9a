//! The track selector: the slice of a candidate list that a range selector
//! picks.

use vstd::prelude::*;
use crate::range::RangeSelector;

verus! {

/// Index of the first track that is kept, in a list of `len` tracks.
///
/// An absent offset skips nothing. An offset beyond the list skips all of
/// it, and so does a negative one: it is not counted from the end.
pub open spec fn lower_index(offset: Option<isize>, len: int) -> int {
    match offset {
        None => 0,
        Some(o) => if 0 <= o <= len {
            o as int
        } else {
            len
        },
    }
}

/// The cutoff that a limit stands for in a list of `len` tracks; `0` means
/// that there is none.
///
/// A non-negative limit is the cutoff itself. A negative limit drops that
/// many tracks from the end, and where it would drop them all the cutoff is
/// `0`.
pub open spec fn upper_bound(limit: Option<isize>, len: int) -> int {
    match limit {
        None => 0,
        Some(l) => if l >= 0 {
            l as int
        } else if len + l > 0 {
            len + l
        } else {
            0
        },
    }
}

/// Index one past the last track that is kept. A cutoff of `0` does not
/// bound the selection, nor does one beyond the list.
pub open spec fn upper_index(limit: Option<isize>, len: int) -> int {
    let cutoff = upper_bound(limit, len);
    if cutoff == 0 || cutoff > len {
        len
    } else {
        cutoff
    }
}

/// The tracks that `range` selects from `candidates`: those at the indices
/// from `lower_index` up to, but not including, `upper_index`, in their
/// order.
pub open spec fn selected<T>(candidates: Seq<T>, range: RangeSelector) -> Seq<T> {
    let lo = lower_index(range.offset, candidates.len() as int);
    let hi = upper_index(range.limit, candidates.len() as int);
    if lo < hi {
        candidates.subrange(lo, hi)
    } else {
        Seq::empty()
    }
}

/// Whether a walk over the list passes over the track at index `i`
/// because the selection has not started yet.
pub open spec fn skips(range: RangeSelector, i: int) -> bool {
    match range.offset {
        None => false,
        Some(o) => o < 0 || i < o,
    }
}

/// Whether a walk over a list of `len` tracks ends at index `i`.
pub open spec fn stops(range: RangeSelector, len: int, i: int) -> bool {
    upper_bound(range.limit, len) != 0 && i >= upper_bound(range.limit, len)
}

/// The start of `lower_index(..)..upper_index(..)`, as a machine integer.
fn lower_of(offset: Option<isize>, len: usize) -> (lo: usize)
    ensures
        lo == lower_index(offset, len as int),
{
    match offset {
        None => 0,
        Some(o) => if o < 0 {
            len
        } else if o as usize <= len {
            o as usize
        } else {
            len
        },
    }
}

/// The cutoff that `limit` stands for in a list of `len` tracks; `0`
/// where there is none.
pub fn cutoff_of(limit: Option<isize>, len: usize) -> (cutoff: usize)
    ensures
        cutoff == upper_bound(limit, len as int),
{
    match limit {
        None => 0,
        Some(l) => if l >= 0 {
            l as usize
        } else {
            // `l` is negative: it drops `below + 1` tracks.
            let below: usize = (-(l + 1)) as usize;
            if below >= len {
                0
            } else {
                len - below - 1
            }
        },
    }
}

/// The end of `lower_index(..)..upper_index(..)`, as a machine integer.
fn upper_of(limit: Option<isize>, len: usize) -> (hi: usize)
    ensures
        hi == upper_index(limit, len as int),
{
    let cutoff: usize = cutoff_of(limit, len);
    if cutoff == 0 || cutoff > len {
        len
    } else {
        cutoff
    }
}

/// Applies `range` to `candidates` and returns the selected tracks in
/// their order.
pub fn select_tracks(candidates: &Vec<String>, range: &RangeSelector) -> (r: Vec<String>)
    ensures
        r@ == selected(candidates@, *range),
{
    let n: usize = candidates.len();
    let lo: usize = lower_of(range.offset, n);
    let hi: usize = upper_of(range.limit, n);
    let mut out: Vec<String> = Vec::new();
    if lo >= hi {
        assert(out@ =~= selected(candidates@, *range));
        return out;
    }
    let mut i: usize = lo;
    while i < hi
        invariant
            lo <= i <= hi <= n,
            n == candidates@.len(),
            out@ == candidates@.subrange(lo as int, i as int),
        decreases hi - i,
    {
        out.push(candidates[i].clone());
        assert(candidates@.subrange(lo as int, i as int + 1) =~= candidates@.subrange(
            lo as int,
            i as int,
        ).push(candidates@[i as int]));
        i += 1;
    }
    out
}

/// The selection is what a walk over the list keeps: a track is selected
/// exactly if it is not skipped and the walk has not stopped at it. So the
/// selected tracks are those whose index `i` satisfies neither `skips` nor
/// `stops`, and they keep their order.
pub proof fn lemma_selected_is_walk<T>(candidates: Seq<T>, range: RangeSelector)
    ensures
        forall|i: int|
            0 <= i < candidates.len() ==> ((lower_index(range.offset, candidates.len() as int) <= i
                < upper_index(range.limit, candidates.len() as int)) <==> (!skips(range, i)
                && !stops(range, candidates.len() as int, i))),
        forall|k: int|
            0 <= k < selected(candidates, range).len() ==> selected(candidates, range)[k]
                == candidates[lower_index(range.offset, candidates.len() as int) + k],
{
}

/// With an offset and no limit, the selection is the list without its
/// first `offset` tracks: `candidates.skip(offset)` where the list has
/// that many, and empty where it has fewer.
pub proof fn lemma_offset_only<T>(candidates: Seq<T>, offset: isize)
    requires
        0 <= offset,
    ensures
        offset <= candidates.len() ==> selected(
            candidates,
            RangeSelector { offset: Some(offset), limit: None },
        ) == candidates.skip(offset as int),
        offset > candidates.len() ==> selected(
            candidates,
            RangeSelector { offset: Some(offset), limit: None },
        ) == Seq::<T>::empty(),
        selected(candidates, RangeSelector { offset: Some(offset), limit: None })
            == candidates.skip(lower_index(Some(offset), candidates.len() as int)),
{
    let r = RangeSelector { offset: Some(offset), limit: None };
    let skip = lower_index(Some(offset), candidates.len() as int);
    assert(selected(candidates, r) =~= candidates.skip(skip));
}

/// A negative limit drops that many tracks from the end: with an offset
/// `skip` and a limit `-dropped`, where something is left between the two,
/// the selection is `candidates[skip .. len - dropped]`.
pub proof fn lemma_drop_from_end<T>(candidates: Seq<T>, skip: isize, dropped: isize)
    requires
        0 <= skip,
        0 < dropped < candidates.len(),
        skip + dropped <= candidates.len(),
    ensures
        selected(candidates, RangeSelector { offset: Some(skip), limit: Some((-dropped) as isize) })
            =~= candidates.subrange(skip as int, candidates.len() - dropped),
{
}

/// Without any bound, every track is selected.
pub proof fn lemma_unbounded_selects_all<T>(candidates: Seq<T>)
    ensures
        selected(candidates, RangeSelector { offset: None, limit: None }) == candidates,
{
    assert(selected(candidates, RangeSelector { offset: None, limit: None }) =~= candidates);
}

} // verus!

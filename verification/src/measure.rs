//! Computing the length of an event by inclusion and exclusion.
//!
//! The length of a union is the length of each branch less the length of
//! what the branches share. What they share is never built as a tree: the
//! events that have to hold at once are kept in a list, and their intervals
//! narrow a window as the list is consumed.

use crate::event::Range;
use vstd::prelude::*;
use vstd::set_lib::{
    lemma_int_range, lemma_len_subset, lemma_set_intersect_union_lens, set_int_range,
};

verus! {

/// Events that must all hold, the most recently added first.
pub(crate) enum Pending<'a> {
    Done,
    More(&'a Range, &'a Pending<'a>),
}

impl<'a> Pending<'a> {
    /// Total number of tree nodes in the listed events.
    pub(crate) open spec fn weight(self) -> nat
        decreases self,
    {
        match self {
            Pending::Done => 0,
            Pending::More(e, rest) => (*e).size() + (*rest).weight(),
        }
    }

    /// The cells of the window from `lo` to `hi` that every listed event
    /// covers.
    pub(crate) open spec fn common(self, lo: int, hi: int) -> Set<int>
        decreases self,
    {
        match self {
            Pending::Done => set_int_range(lo, hi),
            Pending::More(e, rest) => (*e).cells().intersect((*rest).common(lo, hi)),
        }
    }

    /// The common cells lie inside the window, so there are finitely many.
    pub(crate) proof fn lemma_common_in_window(self, lo: int, hi: int)
        requires
            lo <= hi,
        ensures
            self.common(lo, hi).subset_of(set_int_range(lo, hi)),
            self.common(lo, hi).finite(),
            self.common(lo, hi).len() <= hi - lo,
        decreases self,
    {
        lemma_int_range(lo, hi);
        match self {
            Pending::Done => {},
            Pending::More(e, rest) => {
                (*rest).lemma_common_in_window(lo, hi);
            },
        }
        lemma_len_subset(self.common(lo, hi), set_int_range(lo, hi));
    }

    /// Cutting the common cells down to an interval is the same as
    /// narrowing the window to it.
    pub(crate) proof fn lemma_common_narrowed(self, lo: int, hi: int, a: int, b: int)
        ensures
            self.common(lo, hi).intersect(set_int_range(a, b)) == self.common(
                if lo >= a { lo } else { a },
                if hi <= b { hi } else { b },
            ),
        decreases self,
    {
        let l = if lo >= a { lo } else { a };
        let h = if hi <= b { hi } else { b };
        match self {
            Pending::Done => {},
            Pending::More(e, rest) => {
                (*rest).lemma_common_narrowed(lo, hi, a, b);
            },
        }
        assert(self.common(lo, hi).intersect(set_int_range(a, b)) =~= self.common(l, h));
    }

    /// An empty window has no common cells.
    pub(crate) proof fn lemma_common_of_empty_window(self, lo: int, hi: int)
        requires
            lo >= hi,
        ensures
            self.common(lo, hi) == Set::<int>::empty(),
        decreases self,
    {
        match self {
            Pending::Done => {},
            Pending::More(e, rest) => {
                (*rest).lemma_common_of_empty_window(lo, hi);
            },
        }
        assert(self.common(lo, hi) =~= Set::<int>::empty());
    }
}

/// Counts the cells of the window from `lo` to `hi` that every event in
/// `pending` covers.
pub(crate) fn overlap(lo: i64, hi: i64, pending: &Pending) -> (n: u64)
    ensures
        n == pending.common(lo as int, hi as int).len(),
    decreases pending.weight(),
{
    if lo >= hi {
        proof {
            pending.lemma_common_of_empty_window(lo as int, hi as int);
        }
        return 0;
    }
    match pending {
        Pending::Done => {
            proof {
                lemma_int_range(lo as int, hi as int);
            }
            (hi as i128 - lo as i128) as u64
        },
        Pending::More(e, rest) => match e {
            Range::Empty => {
                proof {
                    assert(pending.common(lo as int, hi as int) =~= Set::<int>::empty());
                }
                0
            },
            Range::Simple(a, b) => {
                let l: i64 = if lo >= *a { lo } else { *a };
                let h: i64 = if hi <= *b { hi } else { *b };
                proof {
                    rest.lemma_common_narrowed(lo as int, hi as int, *a as int, *b as int);
                    assert(pending.common(lo as int, hi as int) =~= rest.common(
                        lo as int,
                        hi as int,
                    ).intersect(set_int_range(*a as int, *b as int)));
                }
                overlap(l, h, rest)
            },
            Range::Union(s, t) => {
                let left = Pending::More(&**s, rest);
                let right = Pending::More(&**t, rest);
                let both = Pending::More(&**s, &right);
                proof {
                    assert(right.weight() == (**t).size() + rest.weight());
                    assert(both.weight() == (**s).size() + right.weight());
                    assert(pending.weight() == 1 + (**s).size() + (**t).size() + rest.weight());
                }
                let in_left = overlap(lo, hi, &left);
                let in_right = overlap(lo, hi, &right);
                let in_both = overlap(lo, hi, &both);
                proof {
                    let (l, h) = (lo as int, hi as int);
                    left.lemma_common_in_window(l, h);
                    right.lemma_common_in_window(l, h);
                    pending.lemma_common_in_window(l, h);
                    assert(pending.common(l, h) =~= left.common(l, h).union(right.common(l, h)));
                    assert(both.common(l, h) =~= left.common(l, h).intersect(right.common(l, h)));
                    lemma_set_intersect_union_lens(left.common(l, h), right.common(l, h));
                    lemma_len_subset(both.common(l, h), left.common(l, h));
                }
                in_left - in_both + in_right
            },
        },
    }
}

} // verus!

//! What the set algebra on events does to their outcomes, their cells and
//! their length.

use crate::event::Range;
use vstd::prelude::*;
use vstd::set_lib::{
    lemma_int_range, lemma_len_subset, lemma_set_intersect_union_lens, set_int_range,
};

verus! {

impl Range {
    /// An event covers finitely many cells, all of them between the least
    /// and the greatest bound an interval can have.
    pub proof fn lemma_cells_finite(self)
        ensures
            self.cells().finite(),
            self.cells().subset_of(set_int_range(i64::MIN as int, i64::MAX as int)),
        decreases self,
    {
        lemma_int_range(i64::MIN as int, i64::MAX as int);
        match self {
            Range::Empty => {},
            Range::Simple(lo, hi) => {
                if lo <= hi {
                    lemma_int_range(lo as int, hi as int);
                } else {
                    assert(self.cells() =~= Set::empty());
                }
            },
            Range::Union(s, t) => {
                (*s).lemma_cells_finite();
                (*t).lemma_cells_finite();
            },
        }
    }

    /// The intersection covers exactly the cells that both operands cover.
    pub proof fn lemma_intersection_cells(self, other: Range)
        ensures
            self.spec_intersection(other).cells() == self.cells().intersect(other.cells()),
        decreases self.size() + other.size(),
    {
        let both = self.cells().intersect(other.cells());
        match self {
            Range::Empty => {
                assert(both =~= Set::empty());
            },
            Range::Union(s, t) => {
                (*s).lemma_intersection_cells(other);
                (*t).lemma_intersection_cells(other);
                assert(self.spec_intersection(other).cells() =~= both);
            },
            Range::Simple(a, b) => match other {
                Range::Empty => {
                    assert(both =~= Set::empty());
                },
                Range::Union(s, t) => {
                    (*s).lemma_intersection_cells(self);
                    (*t).lemma_intersection_cells(self);
                    assert(self.spec_intersection(other).cells() =~= both);
                },
                Range::Simple(c, d) => {
                    assert(self.spec_intersection(other).cells() =~= both);
                },
            },
        }
    }

    /// An outcome belongs to the intersection exactly when it belongs to
    /// both operands.
    pub proof fn lemma_intersection_contains(self, other: Range, x: int)
        ensures
            self.spec_intersection(other).spec_contains(x) == (self.spec_contains(x)
                && other.spec_contains(x)),
        decreases self.size() + other.size(),
    {
        match self {
            Range::Empty => {},
            Range::Union(s, t) => {
                (*s).lemma_intersection_contains(other, x);
                (*t).lemma_intersection_contains(other, x);
            },
            Range::Simple(a, b) => match other {
                Range::Empty => {},
                Range::Union(s, t) => {
                    (*s).lemma_intersection_contains(self, x);
                    (*t).lemma_intersection_contains(self, x);
                },
                Range::Simple(c, d) => {},
            },
        }
    }

    /// Intersecting well-formed events gives a well-formed event.
    pub proof fn lemma_intersection_wf(self, other: Range)
        requires
            self.wf(),
            other.wf(),
        ensures
            self.spec_intersection(other).wf(),
        decreases self.size() + other.size(),
    {
        match self {
            Range::Empty => {},
            Range::Union(s, t) => {
                (*s).lemma_intersection_wf(other);
                (*t).lemma_intersection_wf(other);
            },
            Range::Simple(a, b) => match other {
                Range::Empty => {},
                Range::Union(s, t) => {
                    (*s).lemma_intersection_wf(self);
                    (*t).lemma_intersection_wf(self);
                },
                Range::Simple(c, d) => {},
            },
        }
    }

    /// The union covers exactly the cells that either operand covers.
    pub proof fn lemma_union_cells(self, other: Range)
        ensures
            self.spec_union(other).cells() == self.cells().union(other.cells()),
        decreases self.size() + other.size(),
    {
        let either = self.cells().union(other.cells());
        match self {
            Range::Empty => {
                assert(either =~= other.cells());
            },
            Range::Union(s, t) => {
                (*s).lemma_union_cells(other);
                (*t).lemma_union_cells(other);
                assert(self.spec_union(other).cells() =~= either);
            },
            Range::Simple(a, b) => match other {
                Range::Empty => {
                    assert(either =~= self.cells());
                },
                Range::Union(s, t) => {
                    (*s).lemma_union_cells(self);
                    (*t).lemma_union_cells(self);
                    assert(self.spec_union(other).cells() =~= either);
                },
                Range::Simple(c, d) => {
                    assert(self.spec_union(other).cells() =~= either);
                },
            },
        }
    }

    /// An outcome of either operand is an outcome of the union. The
    /// converse fails where two touching intervals merge: the merged
    /// interval holds the bound they shared.
    pub proof fn lemma_union_contains(self, other: Range, x: int)
        ensures
            self.spec_contains(x) || other.spec_contains(x) ==> self.spec_union(
                other,
            ).spec_contains(x),
        decreases self.size() + other.size(),
    {
        match self {
            Range::Empty => {},
            Range::Union(s, t) => {
                (*s).lemma_union_contains(other, x);
                (*t).lemma_union_contains(other, x);
            },
            Range::Simple(a, b) => match other {
                Range::Empty => {},
                Range::Union(s, t) => {
                    (*s).lemma_union_contains(self, x);
                    (*t).lemma_union_contains(self, x);
                },
                Range::Simple(c, d) => {},
            },
        }
    }

    /// Joining well-formed events gives a well-formed event.
    pub proof fn lemma_union_wf(self, other: Range)
        requires
            self.wf(),
            other.wf(),
        ensures
            self.spec_union(other).wf(),
        decreases self.size() + other.size(),
    {
        match self {
            Range::Empty => {},
            Range::Union(s, t) => {
                (*s).lemma_union_wf(other);
                (*t).lemma_union_wf(other);
            },
            Range::Simple(a, b) => match other {
                Range::Empty => {},
                Range::Union(s, t) => {
                    (*s).lemma_union_wf(self);
                    (*t).lemma_union_wf(self);
                },
                Range::Simple(c, d) => {},
            },
        }
    }

    /// A length is never negative and fits the result of
    /// `lebesgue_measure`.
    pub proof fn lemma_measure_in_bounds(self)
        ensures
            0 <= self.spec_measure() <= u64::MAX,
    {
        self.lemma_cells_finite();
        lemma_int_range(i64::MIN as int, i64::MAX as int);
        lemma_len_subset(self.cells(), set_int_range(i64::MIN as int, i64::MAX as int));
    }

    /// The length by cases: nothing has length zero, an interval with its
    /// bounds in order has their difference, and a union has the lengths of
    /// its branches less the length of what they share.
    pub proof fn lemma_measure_by_cases(self)
        ensures
            self is Empty ==> self.spec_measure() == 0,
            self matches Range::Simple(lo, hi) ==> self.spec_measure() == (if lo <= hi {
                hi - lo
            } else {
                0
            }),
            self matches Range::Union(s, t) ==> self.spec_measure() == (*s).spec_measure()
                + (*t).spec_measure() - (*s).spec_intersection(*t).spec_measure(),
    {
        match self {
            Range::Empty => {},
            Range::Simple(lo, hi) => {
                if lo <= hi {
                    lemma_int_range(lo as int, hi as int);
                } else {
                    assert(self.cells() =~= Set::empty());
                }
            },
            Range::Union(s, t) => {
                (*s).lemma_cells_finite();
                (*t).lemma_cells_finite();
                (*s).lemma_intersection_cells(*t);
                lemma_set_intersect_union_lens((*s).cells(), (*t).cells());
            },
        }
    }

    /// The length of a union does not depend on the order of its operands.
    pub proof fn lemma_union_measure_commutative(self, other: Range)
        ensures
            self.spec_union(other).spec_measure() == other.spec_union(self).spec_measure(),
    {
        self.lemma_union_cells(other);
        other.lemma_union_cells(self);
        assert(self.cells().union(other.cells()) =~= other.cells().union(self.cells()));
    }

    /// Joining the empty event to an event, on either side, gives the
    /// event back unchanged.
    pub proof fn lemma_union_empty_identity(self)
        ensures
            Range::Empty.spec_union(self) == self,
            self.spec_union(Range::Empty) == self,
            self.spec_union(Range::Empty).spec_measure() == self.spec_measure(),
        decreases self,
    {
        match self {
            Range::Empty => {},
            Range::Simple(a, b) => {},
            Range::Union(s, t) => {
                (*s).lemma_union_empty_identity();
                (*t).lemma_union_empty_identity();
            },
        }
    }

    /// An intersection is no longer than either operand.
    pub proof fn lemma_intersection_measure_bounded(self, other: Range)
        ensures
            self.spec_intersection(other).spec_measure() <= self.spec_measure(),
            self.spec_intersection(other).spec_measure() <= other.spec_measure(),
    {
        self.lemma_intersection_cells(other);
        self.lemma_cells_finite();
        other.lemma_cells_finite();
        lemma_len_subset(self.cells().intersect(other.cells()), self.cells());
        lemma_len_subset(self.cells().intersect(other.cells()), other.cells());
    }

    /// A union is at least as long as either operand and no longer than
    /// both together.
    pub proof fn lemma_union_measure_bounded(self, other: Range)
        ensures
            self.spec_measure() <= self.spec_union(other).spec_measure(),
            other.spec_measure() <= self.spec_union(other).spec_measure(),
            self.spec_union(other).spec_measure() <= self.spec_measure() + other.spec_measure(),
    {
        self.lemma_union_cells(other);
        self.lemma_cells_finite();
        other.lemma_cells_finite();
        lemma_len_subset(self.cells(), self.cells().union(other.cells()));
        lemma_len_subset(other.cells(), self.cells().union(other.cells()));
        lemma_set_intersect_union_lens(self.cells(), other.cells());
    }

    /// Intersecting an event with itself keeps its length.
    pub proof fn lemma_intersection_idempotent(self)
        ensures
            self.spec_intersection(self).spec_measure() == self.spec_measure(),
    {
        self.lemma_intersection_cells(self);
        assert(self.cells().intersect(self.cells()) =~= self.cells());
    }
}

} // verus!

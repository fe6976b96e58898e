//! Events over integer outcomes, represented as trees of intervals.
//!
//! An interval `Simple(lo, hi)` has two readings that the contracts keep
//! apart. As a set of outcomes it is open: it holds the outcomes strictly
//! between its bounds. As a length it is the number of unit cells
//! `[k, k + 1)` with `lo <= k < hi`, which is `hi - lo`.

use crate::measure::{overlap, Pending};
use vstd::prelude::*;
use vstd::set_lib::set_int_range;

verus! {

/// Marker for the types that can serve as elements of a sample space.
pub trait Outcome {

}

impl Outcome for i64 {

}

/// Marker for the spaces that outcomes of type `O` are drawn from.
pub trait ProbabilitySpace<O: Outcome> {

}

/// A set of outcomes that supports membership, set algebra and a length.
pub trait Event<O: Outcome>: Sized {
    /// Whether the outcome belongs to the event.
    spec fn has_outcome(&self, o: O) -> bool;

    /// The length of the event.
    spec fn length(&self) -> nat;

    /// Membership of one outcome.
    fn contains_outcome(&self, o: O) -> (inside: bool)
        ensures
            inside == self.has_outcome(o),
    ;

    /// An event that holds exactly the outcomes of both, and is no longer
    /// than either.
    fn intersection(&self, other: &Self) -> (common: Self)
        ensures
            forall|o: O| #[trigger]
                common.has_outcome(o) == (self.has_outcome(o) && other.has_outcome(o)),
            common.length() <= self.length(),
            common.length() <= other.length(),
    ;

    /// An event that holds the outcomes of both, at least as long as
    /// either and no longer than the two together.
    fn union(&self, other: &Self) -> (joined: Self)
        ensures
            forall|o: O|
                self.has_outcome(o) || other.has_outcome(o) ==> #[trigger] joined.has_outcome(o),
            self.length() <= joined.length(),
            other.length() <= joined.length(),
            joined.length() <= self.length() + other.length(),
    ;

    /// The length of the event.
    fn lebesgue_measure(&self) -> (length: u64)
        ensures
            length == self.length(),
    ;
}

/// An event over integer outcomes: nothing, one interval, or the union of
/// two events.
#[derive(Debug)]
pub enum Range {
    Simple(i64, i64),
    Union(Box<Range>, Box<Range>),
    Empty,
}

impl Range {
    /// Every interval in the tree has its bounds in order.
    pub open spec fn wf(self) -> bool
        decreases self,
    {
        match self {
            Range::Empty => true,
            Range::Simple(lo, hi) => lo <= hi,
            Range::Union(s, t) => (*s).wf() && (*t).wf(),
        }
    }

    /// Number of nodes in the tree.
    pub open spec fn size(self) -> nat
        decreases self,
    {
        match self {
            Range::Empty => 1,
            Range::Simple(_, _) => 1,
            Range::Union(s, t) => 1 + (*s).size() + (*t).size(),
        }
    }

    /// Membership: an outcome lies strictly inside one of the intervals.
    pub open spec fn spec_contains(self, x: int) -> bool
        decreases self,
    {
        match self {
            Range::Empty => false,
            Range::Simple(lo, hi) => lo < x && x < hi,
            Range::Union(s, t) => (*s).spec_contains(x) || (*t).spec_contains(x),
        }
    }

    /// The unit cells `[k, k + 1)` that the event covers, each named by `k`.
    pub open spec fn cells(self) -> Set<int>
        decreases self,
    {
        match self {
            Range::Empty => Set::empty(),
            Range::Simple(lo, hi) => set_int_range(lo as int, hi as int),
            Range::Union(s, t) => (*s).cells().union((*t).cells()),
        }
    }

    /// The length of the event: how many unit cells it covers.
    pub open spec fn spec_measure(self) -> nat {
        self.cells().len()
    }

    /// The tree that `intersection` builds.
    pub open spec fn spec_intersection(self, other: Range) -> Range
        decreases self.size() + other.size(),
    {
        match self {
            Range::Empty => Range::Empty,
            Range::Union(s, t) => Range::Union(
                Box::new((*s).spec_intersection(other)),
                Box::new((*t).spec_intersection(other)),
            ),
            Range::Simple(a, b) => match other {
                Range::Empty => Range::Empty,
                Range::Union(s, t) => Range::Union(
                    Box::new((*s).spec_intersection(self)),
                    Box::new((*t).spec_intersection(self)),
                ),
                Range::Simple(c, d) => if a > d || b < c {
                    Range::Empty
                } else {
                    Range::Simple(if a >= c { a } else { c }, if b <= d { b } else { d })
                },
            },
        }
    }

    /// The tree that `union` builds.
    pub open spec fn spec_union(self, other: Range) -> Range
        decreases self.size() + other.size(),
    {
        match self {
            Range::Empty => other,
            Range::Union(s, t) => Range::Union(
                Box::new((*s).spec_union(other)),
                Box::new((*t).spec_union(other)),
            ),
            Range::Simple(a, b) => match other {
                Range::Empty => self,
                Range::Union(s, t) => Range::Union(
                    Box::new((*s).spec_union(self)),
                    Box::new((*t).spec_union(self)),
                ),
                Range::Simple(c, d) => if a > d || b < c {
                    Range::Union(Box::new(self), Box::new(other))
                } else {
                    Range::Simple(if a <= c { a } else { c }, if b >= d { b } else { d })
                },
            },
        }
    }

    /// The interval from `a` to `b`, or the empty event when the bounds are
    /// out of order.
    pub fn new(a: i64, b: i64) -> (r: Range)
        ensures
            r == (if a > b { Range::Empty } else { Range::Simple(a, b) }),
            r.wf(),
    {
        if a > b {
            Range::Empty
        } else {
            Range::Simple(a, b)
        }
    }

    /// Whether the event is a single interval of length zero.
    pub fn unmesaurable(&self) -> (r: bool)
        ensures
            r == (*self matches Range::Simple(a, b) && a == b),
    {
        match self {
            Range::Simple(a, b) => *a == *b,
            _ => false,
        }
    }
}

impl PartialEq for Range {
    /// Two events are equal when they are the same tree.
    fn eq(&self, other: &Range) -> (same: bool)
        decreases *self,
    {
        match (self, other) {
            (Range::Empty, Range::Empty) => true,
            (Range::Simple(a, b), Range::Simple(c, d)) => *a == *c && *b == *d,
            (Range::Union(s, t), Range::Union(u, v)) => (**s).eq(&**u) && (**t).eq(&**v),
            _ => false,
        }
    }
}

impl vstd::std_specs::cmp::PartialEqSpecImpl for Range {
    open spec fn obeys_eq_spec() -> bool {
        true
    }

    open spec fn eq_spec(&self, other: &Range) -> bool {
        *self == *other
    }
}

impl Clone for Range {
    fn clone(&self) -> (copy: Range)
        ensures
            copy == *self,
        decreases *self,
    {
        match self {
            Range::Empty => Range::Empty,
            Range::Simple(a, b) => Range::Simple(*a, *b),
            Range::Union(s, t) => Range::Union(Box::new((**s).clone()), Box::new((**t).clone())),
        }
    }
}

impl Event<i64> for Range {
    open spec fn has_outcome(&self, o: i64) -> bool {
        self.spec_contains(o as int)
    }

    open spec fn length(&self) -> nat {
        self.spec_measure()
    }

    /// Whether `x` lies strictly inside one of the intervals.
    fn contains_outcome(&self, x: i64) -> (inside: bool)
        ensures
            inside == self.spec_contains(x as int),
        decreases *self,
    {
        match self {
            Range::Empty => false,
            Range::Simple(a, b) => *a < x && x < *b,
            Range::Union(s, t) => s.contains_outcome(x) || t.contains_outcome(x),
        }
    }

    /// The event of the outcomes in both. A union is intersected branch by
    /// branch, each branch against the whole other operand; two intervals
    /// give the interval they share, or nothing when they lie apart.
    fn intersection(&self, other: &Range) -> (common: Range)
        ensures
            common == self.spec_intersection(*other),
            common.cells() == self.cells().intersect(other.cells()),
            self.wf() && other.wf() ==> common.wf(),
        decreases self.size() + other.size(),
    {
        proof {
            self.lemma_intersection_cells(*other);
            self.lemma_intersection_measure_bounded(*other);
            if self.wf() && other.wf() {
                self.lemma_intersection_wf(*other);
            }
            assert forall|o: i64|
                self.spec_intersection(*other).spec_contains(o as int) == (self.spec_contains(
                    o as int,
                ) && other.spec_contains(o as int)) by {
                self.lemma_intersection_contains(*other, o as int);
            }
        }
        match self {
            Range::Empty => Range::Empty,
            Range::Union(s, t) => Range::Union(
                Box::new(s.intersection(other)),
                Box::new(t.intersection(other)),
            ),
            Range::Simple(a, b) => match other {
                Range::Empty => Range::Empty,
                Range::Union(s, t) => Range::Union(
                    Box::new(s.intersection(self)),
                    Box::new(t.intersection(self)),
                ),
                Range::Simple(c, d) => {
                    if *a > *d || *b < *c {
                        Range::Empty
                    } else {
                        Range::Simple(if *a >= *c { *a } else { *c }, if *b <= *d { *b } else { *d })
                    }
                },
            },
        }
    }

    /// The event of the outcomes in either. Nothing joined to an event is
    /// that event; two intervals that overlap or touch merge into one, and
    /// two that lie apart stay side by side; a union is joined branch by
    /// branch, each branch to the whole other operand.
    fn union(&self, other: &Range) -> (joined: Range)
        ensures
            joined == self.spec_union(*other),
            joined.cells() == self.cells().union(other.cells()),
            self.wf() && other.wf() ==> joined.wf(),
        decreases self.size() + other.size(),
    {
        proof {
            self.lemma_union_cells(*other);
            self.lemma_union_measure_bounded(*other);
            if self.wf() && other.wf() {
                self.lemma_union_wf(*other);
            }
            assert forall|o: i64|
                self.spec_contains(o as int) || other.spec_contains(o as int) implies self.spec_union(
                *other,
            ).spec_contains(o as int) by {
                self.lemma_union_contains(*other, o as int);
            }
        }
        match self {
            Range::Empty => other.clone(),
            Range::Union(s, t) => Range::Union(Box::new(s.union(other)), Box::new(t.union(other))),
            Range::Simple(a, b) => match other {
                Range::Empty => self.clone(),
                Range::Union(s, t) => Range::Union(
                    Box::new(s.union(self)),
                    Box::new(t.union(self)),
                ),
                Range::Simple(c, d) => {
                    if *a > *d || *b < *c {
                        Range::Union(Box::new(self.clone()), Box::new(other.clone()))
                    } else {
                        Range::Simple(if *a <= *c { *a } else { *c }, if *b >= *d { *b } else { *d })
                    }
                },
            },
        }
    }

    /// The length of the event: zero for nothing, the difference of the
    /// bounds for an interval, and for a union the lengths of the branches
    /// less the length of their intersection.
    fn lebesgue_measure(&self) -> (length: u64)
        ensures
            length == self.cells().len(),
            *self is Empty ==> length == 0,
            *self matches Range::Simple(lo, hi) ==> length == (if lo <= hi {
                hi - lo
            } else {
                0
            }),
            *self matches Range::Union(s, t) ==> length == (*s).spec_measure() + (*t).spec_measure()
                - (*s).spec_intersection(*t).spec_measure(),
    {
        let done = Pending::Done;
        let whole = Pending::More(self, &done);
        proof {
            self.lemma_cells_finite();
            self.lemma_measure_by_cases();
            let (l, h) = (i64::MIN as int, i64::MAX as int);
            assert(done.common(l, h) == set_int_range(l, h));
            assert(whole.common(l, h) == self.cells().intersect(done.common(l, h)));
            assert(whole.common(l, h) =~= self.cells());
        }
        overlap(i64::MIN, i64::MAX, &whole)
    }
}

} // verus!

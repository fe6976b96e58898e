//! Random variables: what assigns each event a probability.
//!
//! A probability is kept exact, as the ratio of two lengths: the length of
//! the part of the event that the variable can reach, over the length of
//! everything it can reach.

use crate::event::{Event, Outcome, Range};
use vstd::prelude::*;
use vstd::set_lib::set_int_range;

verus! {

/// Why a random variable could not be built or asked.
#[derive(Debug, Clone, Copy, PartialEq, Eq, Structural)]
pub enum ProbabilityError {
    /// The bounds of a support were given out of order.
    InvalidArgument,
    /// The support has length zero, so no ratio of lengths exists.
    DegenerateSupport,
}

/// A probability as an exact ratio, not reduced to lowest terms.
#[derive(Debug, Clone, Copy)]
pub struct Probability {
    favourable: u64,
    possible: u64,
}

impl Probability {
    #[verifier::type_invariant]
    spec fn in_unit_interval(self) -> bool {
        self.favourable <= self.possible && self.possible > 0
    }

    /// The length counted in favour.
    pub closed spec fn spec_numerator(self) -> nat {
        self.favourable as nat
    }

    /// The length of all that is possible.
    pub closed spec fn spec_denominator(self) -> nat {
        self.possible as nat
    }

    /// The numerator of the ratio; it never exceeds the denominator.
    pub fn numerator(&self) -> (n: u64)
        ensures
            n == self.spec_numerator(),
            n <= self.spec_denominator(),
    {
        proof {
            use_type_invariant(self);
        }
        self.favourable
    }

    /// The denominator of the ratio; it is never zero.
    pub fn denominator(&self) -> (d: u64)
        ensures
            d == self.spec_denominator(),
            d > 0,
    {
        proof {
            use_type_invariant(self);
        }
        self.possible
    }
}

impl PartialEq for Probability {
    /// Two probabilities are equal when their ratios have the same value,
    /// whatever terms they are written in.
    fn eq(&self, other: &Probability) -> (same: bool) {
        let (a, b): (u64, u64) = (self.favourable, self.possible);
        let (c, d): (u64, u64) = (other.favourable, other.possible);
        proof {
            assert(a * d <= u64::MAX * u64::MAX) by (nonlinear_arith)
                requires
                    0 <= a <= u64::MAX,
                    0 <= d <= u64::MAX,
            ;
            assert(c * b <= u64::MAX * u64::MAX) by (nonlinear_arith)
                requires
                    0 <= c <= u64::MAX,
                    0 <= b <= u64::MAX,
            ;
        }
        (a as u128) * (d as u128) == (c as u128) * (b as u128)
    }
}

impl vstd::std_specs::cmp::PartialEqSpecImpl for Probability {
    open spec fn obeys_eq_spec() -> bool {
        true
    }

    open spec fn eq_spec(&self, other: &Probability) -> bool {
        self.spec_numerator() * other.spec_denominator() == other.spec_numerator()
            * self.spec_denominator()
    }
}

/// Marker for the functions that describe how outcomes of type `O` are
/// distributed.
pub trait DistributionFunction<O: Outcome> {

}

/// Anything that assigns a probability to each event of type `E`.
pub trait RandomVariable<O: Outcome, E: Event<O>> {
    /// The ratio that `probability_of` returns for the event, as numerator
    /// and denominator, or the reason it returns none.
    spec fn spec_probability_of(&self, ev: E) -> Result<(nat, nat), ProbabilityError>;

    fn probability_of(&self, ev: E) -> (p: Result<Probability, ProbabilityError>)
        ensures
            match p {
                Ok(q) => self.spec_probability_of(ev) == Ok::<(nat, nat), ProbabilityError>(
                    (q.spec_numerator(), q.spec_denominator()),
                ),
                Err(e) => self.spec_probability_of(ev) == Err::<(nat, nat), ProbabilityError>(e),
            },
    ;
}

/// The uniform distribution on the outcomes between two bounds.
#[derive(Debug, Clone, Copy)]
pub struct Unif {
    a: i64,
    b: i64,
}

impl Unif {
    #[verifier::type_invariant]
    spec fn ordered(self) -> bool {
        self.a <= self.b
    }

    /// The lower bound of the support.
    pub closed spec fn lower(self) -> i64 {
        self.a
    }

    /// The upper bound of the support.
    pub closed spec fn upper(self) -> i64 {
        self.b
    }

    /// The support as an event.
    pub open spec fn support(self) -> Range {
        Range::Simple(self.lower(), self.upper())
    }

    /// The uniform variable on the outcomes from `a` to `b`. Bounds out of
    /// order are refused.
    pub fn new(a: i64, b: i64) -> (made: Result<Unif, ProbabilityError>)
        ensures
            a > b ==> made == Err::<Unif, ProbabilityError>(ProbabilityError::InvalidArgument),
            a <= b ==> (made matches Ok(v) && v.lower() == a && v.upper() == b),
    {
        if a > b {
            Err(ProbabilityError::InvalidArgument)
        } else {
            Ok(Unif { a, b })
        }
    }
}

impl Unif {
    /// An interval inside the support has its own length over the length
    /// of the support as its probability.
    pub proof fn lemma_probability_of_subinterval(self, c: i64, d: i64)
        requires
            self.lower() < self.upper(),
            self.lower() <= c <= d <= self.upper(),
        ensures
            self.spec_probability_of(Range::Simple(c, d)) == Ok::<(nat, nat), ProbabilityError>(
                ((d - c) as nat, (self.upper() - self.lower()) as nat),
            ),
    {
        let ev = Range::Simple(c, d);
        self.support().lemma_measure_by_cases();
        self.support().lemma_intersection_cells(ev);
        assert(self.support().cells().intersect(ev.cells()) =~= ev.cells());
        ev.lemma_measure_by_cases();
    }

    /// The support itself is certain.
    pub proof fn lemma_probability_of_support(self)
        requires
            self.lower() < self.upper(),
        ensures
            self.spec_probability_of(self.support()) == Ok::<(nat, nat), ProbabilityError>(
                ((self.upper() - self.lower()) as nat, (self.upper() - self.lower()) as nat),
            ),
    {
        self.lemma_probability_of_subinterval(self.lower(), self.upper());
    }

    /// An event that covers no cell of the support is impossible.
    pub proof fn lemma_probability_of_event_outside(self, ev: Range)
        requires
            self.lower() < self.upper(),
            ev.cells().disjoint(self.support().cells()),
        ensures
            self.spec_probability_of(ev) == Ok::<(nat, nat), ProbabilityError>(
                (0nat, (self.upper() - self.lower()) as nat),
            ),
    {
        self.support().lemma_measure_by_cases();
        self.support().lemma_intersection_cells(ev);
        assert(self.support().cells().intersect(ev.cells()) =~= Set::<int>::empty());
    }

    /// An event that covers the whole support is certain, however far it
    /// reaches beyond the support.
    pub proof fn lemma_probability_of_event_containing(self, ev: Range)
        requires
            self.lower() < self.upper(),
            self.support().cells().subset_of(ev.cells()),
        ensures
            self.spec_probability_of(ev) == Ok::<(nat, nat), ProbabilityError>(
                ((self.upper() - self.lower()) as nat, (self.upper() - self.lower()) as nat),
            ),
    {
        self.support().lemma_measure_by_cases();
        self.support().lemma_intersection_cells(ev);
        assert(self.support().cells().intersect(ev.cells()) =~= self.support().cells());
    }
}

impl RandomVariable<i64, Range> for Unif {
    open spec fn spec_probability_of(&self, ev: Range) -> Result<
        (nat, nat),
        ProbabilityError,
    > {
        if self.lower() >= self.upper() {
            Err(ProbabilityError::DegenerateSupport)
        } else {
            Ok(
                (
                    self.support().spec_intersection(ev).spec_measure(),
                    self.support().spec_measure(),
                ),
            )
        }
    }

    /// The share of the support that the event covers: the length of the
    /// support intersected with the event, over the length of the support.
    /// A support of length zero has no such ratio and is reported.
    fn probability_of(&self, ev: Range) -> (p: Result<Probability, ProbabilityError>)
        ensures
            self.lower() == self.upper() ==> p == Err::<Probability, ProbabilityError>(
                ProbabilityError::DegenerateSupport,
            ),
            self.lower() < self.upper() ==> (p matches Ok(q) && q.spec_denominator()
                == self.upper() - self.lower() && q.spec_numerator() == set_int_range(
                self.lower() as int,
                self.upper() as int,
            ).intersect(ev.cells()).len()),
    {
        proof {
            use_type_invariant(self);
        }
        if self.a == self.b {
            return Err(ProbabilityError::DegenerateSupport);
        }
        let s = Range::Simple(self.a, self.b);
        let reached = s.intersection(&ev);
        let favourable = reached.lebesgue_measure();
        let possible = s.lebesgue_measure();
        proof {
            s.lemma_intersection_measure_bounded(ev);
        }
        Ok(Probability { favourable, possible })
    }
}

/// A random variable together with a constant to add to its outcomes.
///
/// The constant is carried along and not applied: an event has the same
/// probability under this variable as under the one it wraps.
pub struct AddedConstantVariable<RV> {
    pub v: RV,
    pub k: i64,
}

impl<RV, O, E> RandomVariable<O, E> for AddedConstantVariable<RV> where
    RV: RandomVariable<O, E>,
    O: Outcome,
    E: Event<O>,
 {
    open spec fn spec_probability_of(&self, ev: E) -> Result<(nat, nat), ProbabilityError> {
        self.v.spec_probability_of(ev)
    }

    fn probability_of(&self, ev: E) -> (p: Result<Probability, ProbabilityError>) {
        self.v.probability_of(ev)
    }
}

/// Random variables that can be paired with an additive constant.
pub trait AddConstant<E, O>: RandomVariable<O, E> + Sized where E: Event<O>, O: Outcome {
    fn add_constant(&self, k: i64) -> (shifted: AddedConstantVariable<Self>)
        ensures
            shifted.v == *self,
            shifted.k == k,
            forall|ev: E| #[trigger]
                shifted.spec_probability_of(ev) == self.spec_probability_of(ev),
    ;
}

impl<RV, E, O> AddConstant<E, O> for RV where
    RV: RandomVariable<O, E> + Copy,
    E: Event<O>,
    O: Outcome,
 {
    fn add_constant(&self, k: i64) -> (shifted: AddedConstantVariable<RV>) {
        AddedConstantVariable { v: *self, k }
    }
}

} // verus!

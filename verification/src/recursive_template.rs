//! Chains of processors: each link hands what it was given to the links
//! before it, and what they make of it to its own processor.

use vstd::prelude::*;

verus! {

/// Marker for the values that a chain passes along.
pub trait Data {

}

impl Data for String {

}

/// One processing step. A step may keep state between runs.
pub trait Processor<D> where D: Data, Self: Sized {
    /// What the step promises of one run: that from this state and `data`
    /// it may end in the state `after` and give back `out`. A step that
    /// promises nothing leaves this as it is.
    open spec fn processes(&self, data: D, after: Self, out: D) -> bool {
        true
    }

    fn process(&mut self, data: D) -> (out: D)
        ensures
            old(self).processes(data, *final(self), out),
    ;
}

/// A sequence of steps that is run from its oldest link to its newest.
pub trait Chain<D> where D: Data, Self: Sized {
    /// Whether one run of the chain from this state on `data` may end in
    /// the state `after` and give back `out`.
    spec fn runs(&self, data: D, after: Self, out: D) -> bool;

    fn process(&mut self, data: D) -> (out: D)
        ensures
            old(self).runs(data, *final(self), out),
    ;

    /// The chain with `processor` as its newest link.
    fn add<P: Processor<D> + Sized>(self, processor: P) -> (node: Node<D, P, Self>)
        ensures
            node.before() == Some(self),
            node.step() == processor,
    {
        Node { next: Some(self), processor, phantom_data: None }
    }
}

/// A link: a processor, and the chain that runs before it.
pub struct Node<D, P, C> {
    next: Option<C>,
    processor: P,
    phantom_data: Option<Box<D>>,
}

impl<D, P, C> Node<D, P, C> {
    /// The chain that runs before this link's processor, if any.
    pub closed spec fn before(self) -> Option<C> {
        self.next
    }

    /// This link's processor.
    pub closed spec fn step(self) -> P {
        self.processor
    }
}

impl<D, P, C> Chain<D> for Node<D, P, C> where D: Data, P: Processor<D>, C: Chain<D> {
    /// The chain before this link runs on `data`, and this link's processor
    /// runs on what that chain gave back; a link with no chain before it
    /// runs its processor on `data` itself.
    open spec fn runs(&self, data: D, after: Self, out: D) -> bool {
        match self.before() {
            Some(chain) => after.before() matches Some(chain_after) && exists|handed_on: D|
                #[trigger] chain.runs(data, chain_after, handed_on) && self.step().processes(
                    handed_on,
                    after.step(),
                    out,
                ),
            None => after.before() is None && self.step().processes(data, after.step(), out),
        }
    }

    fn process(&mut self, data: D) -> (out: D) {
        let handed_on = match &mut self.next {
            Some(node) => node.process(data),
            None => data,
        };
        assert(self.processor == old(self).processor);
        assert(match old(self).next {
            Some(chain) => self.next matches Some(chain_after) && chain.runs(
                data,
                chain_after,
                handed_on,
            ),
            None => self.next is None && handed_on == data,
        });
        self.processor.process(handed_on)
    }
}

/// The empty chain: it gives back what it is given.
pub struct System;

impl<D> Chain<D> for System where D: Data {
    open spec fn runs(&self, data: D, after: Self, out: D) -> bool {
        out == data
    }

    fn process(&mut self, data: D) -> (out: D) {
        data
    }
}

} // verus!

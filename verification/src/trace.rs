//! The trace of one execution: the leaves that the outputs of a call leave
//! behind for the proving step.
use crate::field::Field;
use crate::program::Request;
use vstd::prelude::*;

verus! {

/// The accumulator of one execution. It is made for a request, takes one leaf
/// per output, and is finalized once.
#[derive(Clone, Debug, PartialEq, Eq)]
pub struct Trace {
    tvk: Field,
    leaves: Vec<Field>,
    finalized: bool,
}

/// The mathematical model of a [`Trace`].
pub struct TraceView {
    /// The transcript key of the request that the trace is bound to.
    pub tvk: Field,
    /// The leaves, in the order in which they were added.
    pub leaves: Seq<Field>,
    pub is_finalized: bool,
}

impl View for Trace {
    type V = TraceView;

    closed spec fn view(&self) -> TraceView {
        TraceView { tvk: self.tvk, leaves: self.leaves@, is_finalized: self.finalized }
    }
}

impl Trace {
    /// A trace for the given request, without leaves.
    pub fn new(request: &Request) -> (r: Trace)
        ensures
            r@ == (TraceView { tvk: request.tvk, leaves: Seq::empty(), is_finalized: false }),
    {
        Trace { tvk: request.tvk, leaves: Vec::new(), finalized: false }
    }

    /// Appends the leaf of the next output.
    pub fn add_output(&mut self, leaf: Field)
        requires
            !old(self)@.is_finalized,
        ensures
            final(self)@ == (TraceView { leaves: old(self)@.leaves.push(leaf), ..old(self)@ }),
    {
        self.leaves.push(leaf);
    }

    /// Marks the trace as complete. The leaves stay as they are.
    pub fn finalize(&mut self)
        requires
            !old(self)@.is_finalized,
        ensures
            final(self)@ == (TraceView { is_finalized: true, ..old(self)@ }),
    {
        self.finalized = true;
    }

    /// Tells whether the trace has been finalized.
    pub fn is_finalized(&self) -> (r: bool)
        ensures
            r == self@.is_finalized,
    {
        self.finalized
    }

    /// The transcript key of the request that the trace is bound to.
    pub fn tvk(&self) -> (r: &Field)
        ensures
            *r == self@.tvk,
    {
        &self.tvk
    }

    /// The leaves, in the order in which they were added.
    pub fn leaves(&self) -> (r: &Vec<Field>)
        ensures
            r@ == self@.leaves,
    {
        &self.leaves
    }
}

} // verus!

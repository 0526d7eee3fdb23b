//! The policy that composes an endpoint's parts list.
//!
//! A matcher answers one question: is this candidate endpoint a part of that
//! owner endpoint? It holds no state, and the answer depends on the two ids
//! alone.

use vstd::prelude::*;

verus! {

/// The policy that decides which endpoints belong to the parts list of an
/// endpoint.
pub trait PartsMatcher {
    /// Whether `endpoint` is a part of `our_endpoint`.
    spec fn describes(&self, our_endpoint: u16, endpoint: u16) -> bool;

    /// Whether `endpoint` is a part of `our_endpoint`.
    fn describe(&self, our_endpoint: u16, endpoint: u16) -> (part: bool)
        ensures
            part == self.describes(our_endpoint, endpoint),
    ;
}

/// The policy of a flat device: the root endpoint is made up of all the
/// others, and no other endpoint has parts.
pub struct StandardPartsMatcher;

impl PartsMatcher for StandardPartsMatcher {
    open spec fn describes(&self, our_endpoint: u16, endpoint: u16) -> bool {
        our_endpoint == 0 && endpoint != our_endpoint
    }

    fn describe(&self, our_endpoint: u16, endpoint: u16) -> (part: bool) {
        our_endpoint == 0 && endpoint != our_endpoint
    }
}

/// The policy of an aggregator: every endpoint is made up of all the others
/// but the root.
pub struct AggregatorPartsMatcher;

impl PartsMatcher for AggregatorPartsMatcher {
    open spec fn describes(&self, our_endpoint: u16, endpoint: u16) -> bool {
        endpoint != our_endpoint && endpoint != 0
    }

    fn describe(&self, our_endpoint: u16, endpoint: u16) -> (part: bool) {
        endpoint != our_endpoint && endpoint != 0
    }
}

impl<T: PartsMatcher> PartsMatcher for &T {
    open spec fn describes(&self, our_endpoint: u16, endpoint: u16) -> bool {
        (**self).describes(our_endpoint, endpoint)
    }

    fn describe(&self, our_endpoint: u16, endpoint: u16) -> (part: bool) {
        (**self).describe(our_endpoint, endpoint)
    }
}

impl<T: PartsMatcher> PartsMatcher for &mut T {
    open spec fn describes(&self, our_endpoint: u16, endpoint: u16) -> bool {
        (**self).describes(our_endpoint, endpoint)
    }

    fn describe(&self, our_endpoint: u16, endpoint: u16) -> (part: bool) {
        (**self).describe(our_endpoint, endpoint)
    }
}

/// The policy of `matcher` as a predicate on an owner and a candidate.
pub open spec fn policy_of<M: PartsMatcher + ?Sized>(matcher: &M) -> spec_fn(u16, u16) -> bool {
    |our_endpoint: u16, endpoint: u16| matcher.describes(our_endpoint, endpoint)
}

} // verus!

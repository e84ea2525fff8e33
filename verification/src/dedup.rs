//! Deduplication middleware for inbound messages: a message whose
//! signature the cache has already seen is discarded, any other message is
//! handed to the next service.  The transport, the cache and the service
//! calls live outside; the decision is made here.

use vstd::prelude::*;

verus! {

/// The middleware: the next service in the chain and the handle used to
/// query the signature cache.
pub struct DedupMiddleware<S, R> {
    pub next_service: S,
    pub dht_requester: R,
}

impl<S, R> DedupMiddleware<S, R> {
    pub fn new(service: S, dht_requester: R) -> (m: Self)
        ensures
            m.next_service == service,
            m.dht_requester == dht_requester,
    {
        DedupMiddleware { next_service: service, dht_requester }
    }

    /// The deduplication decision: forward exactly the messages whose
    /// signature was not in the cache.
    pub fn should_forward(already_seen: bool) -> (r: bool)
        ensures
            r == !already_seen,
    {
        !already_seen
    }
}

/// Builds a [`DedupMiddleware`] around each service it is given.
pub struct DedupLayer<R> {
    pub dht_requester: R,
}

impl<R> DedupLayer<R> {
    pub fn new(dht_requester: R) -> (l: Self)
        ensures
            l.dht_requester == dht_requester,
    {
        DedupLayer { dht_requester }
    }
}

impl<R: Clone> DedupLayer<R> {
    /// Wraps a service with deduplication, sharing this layer's cache
    /// handle.
    pub fn layer<S>(&self, service: S) -> (m: DedupMiddleware<S, R>)
        ensures
            m.next_service == service,
    {
        DedupMiddleware { next_service: service, dht_requester: self.dht_requester.clone() }
    }
}

} // verus!

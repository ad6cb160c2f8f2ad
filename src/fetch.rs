//! The per-request decision pipeline: local route dispatch, then cache
//! lookup, then network fetch, then the offline page. Each step's outside
//! work (running the router, reading the cache, fetching) is done by the
//! driver; this module decides what to do next from what came back.

use vstd::prelude::*;
use crate::message::{CacheError, NetworkError, Response};

verus! {

/// Where a request stands in the pipeline.
#[derive(Debug, PartialEq, Eq)]
pub enum FetchState {
    /// Waiting for the local router's answer.
    Routing,
    /// Waiting for the cache lookup of the request itself.
    CacheLookup,
    /// Waiting for the network.
    NetworkFetch,
    /// The network failed with the held error; waiting for the offline page lookup.
    OfflineLookup(NetworkError),
    /// A response was produced or the request failed.
    Finished,
}

/// The result of the outside work that the previous action asked for.
#[derive(Debug, PartialEq, Eq)]
pub enum FetchEvent {
    /// The router's answer: a handler's response, or `None` when no route matched.
    Routed(Option<Response>),
    /// The cache lookup of the request: a hit, a miss, or a store failure.
    CacheRead(Result<Option<Response>, CacheError>),
    /// The network's answer.
    NetworkDone(Result<Response, NetworkError>),
    /// The cache lookup of the offline page.
    OfflineRead(Result<Option<Response>, CacheError>),
}

/// What the driver must do next.
#[derive(Debug, PartialEq, Eq)]
pub enum FetchAction {
    /// Look the request up in the current cache, then report `CacheRead`.
    LookUpCache,
    /// Send the request to the network, then report `NetworkDone`.
    FetchFromNetwork,
    /// Look the offline page up in the current cache, then report `OfflineRead`.
    LookUpOffline,
    /// Answer the request with this response; the request is finished.
    Respond(Response),
    /// Fail the request with this network error; the request is finished.
    Fail(NetworkError),
}

/// Whether `state` waits for an event of the kind of `event`.
pub open spec fn accepts(state: FetchState, event: FetchEvent) -> bool {
    match (state, event) {
        (FetchState::Routing, FetchEvent::Routed(_)) => true,
        (FetchState::CacheLookup, FetchEvent::CacheRead(_)) => true,
        (FetchState::NetworkFetch, FetchEvent::NetworkDone(_)) => true,
        (FetchState::OfflineLookup(_), FetchEvent::OfflineRead(_)) => true,
        _ => false,
    }
}

/// The transition table. A route match, a cache hit, a network answer or an
/// offline page ends the request with that response; a cache store failure
/// counts as a miss; a missing offline page ends it with the network error.
pub open spec fn next(state: FetchState, event: FetchEvent) -> (FetchState, FetchAction) {
    match (state, event) {
        (FetchState::Routing, FetchEvent::Routed(Some(r))) => (FetchState::Finished, FetchAction::Respond(r)),
        (FetchState::Routing, FetchEvent::Routed(None)) => (FetchState::CacheLookup, FetchAction::LookUpCache),
        (FetchState::CacheLookup, FetchEvent::CacheRead(Ok(Some(r)))) => (FetchState::Finished, FetchAction::Respond(r)),
        (FetchState::CacheLookup, FetchEvent::CacheRead(_)) => (FetchState::NetworkFetch, FetchAction::FetchFromNetwork),
        (FetchState::NetworkFetch, FetchEvent::NetworkDone(Ok(r))) => (FetchState::Finished, FetchAction::Respond(r)),
        (FetchState::NetworkFetch, FetchEvent::NetworkDone(Err(e))) => (FetchState::OfflineLookup(e), FetchAction::LookUpOffline),
        (FetchState::OfflineLookup(_), FetchEvent::OfflineRead(Ok(Some(r)))) => (FetchState::Finished, FetchAction::Respond(r)),
        (FetchState::OfflineLookup(e), FetchEvent::OfflineRead(_)) => (FetchState::Finished, FetchAction::Fail(e)),
        (s, _) => (s, FetchAction::LookUpCache),
    }
}

/// The final action of one request, when each step's outside work gives
/// the corresponding argument. Arguments of steps that are never reached
/// have no effect.
pub open spec fn pipeline(
    routed: Option<Response>,
    cached: Result<Option<Response>, CacheError>,
    fetched: Result<Response, NetworkError>,
    offline: Result<Option<Response>, CacheError>,
) -> FetchAction {
    let (s1, a1) = next(FetchState::Routing, FetchEvent::Routed(routed));
    if s1 is Finished {
        a1
    } else {
        let (s2, a2) = next(s1, FetchEvent::CacheRead(cached));
        if s2 is Finished {
            a2
        } else {
            let (s3, a3) = next(s2, FetchEvent::NetworkDone(fetched));
            if s3 is Finished {
                a3
            } else {
                next(s3, FetchEvent::OfflineRead(offline)).1
            }
        }
    }
}

impl FetchState {
    /// The state of a freshly intercepted request.
    pub fn start() -> (r: FetchState)
        ensures
            r is Routing,
    {
        FetchState::Routing
    }

    pub fn is_finished(&self) -> (r: bool)
        ensures
            r == (*self is Finished),
    {
        match self {
            FetchState::Finished => true,
            _ => false,
        }
    }

    /// Whether this state waits for an event of the kind of `event`.
    pub fn accepts(&self, event: &FetchEvent) -> (r: bool)
        ensures
            r == accepts(*self, *event),
    {
        match (self, event) {
            (FetchState::Routing, FetchEvent::Routed(_)) => true,
            (FetchState::CacheLookup, FetchEvent::CacheRead(_)) => true,
            (FetchState::NetworkFetch, FetchEvent::NetworkDone(_)) => true,
            (FetchState::OfflineLookup(_), FetchEvent::OfflineRead(_)) => true,
            _ => false,
        }
    }
}

/// One step of the pipeline: the next state and the action to perform.
pub fn advance(state: FetchState, event: FetchEvent) -> (r: (FetchState, FetchAction))
    requires
        accepts(state, event),
    ensures
        r == next(state, event),
{
    match (state, event) {
        (FetchState::Routing, FetchEvent::Routed(Some(r))) => (FetchState::Finished, FetchAction::Respond(r)),
        (FetchState::Routing, FetchEvent::Routed(None)) => (FetchState::CacheLookup, FetchAction::LookUpCache),
        (FetchState::CacheLookup, FetchEvent::CacheRead(Ok(Some(r)))) => (FetchState::Finished, FetchAction::Respond(r)),
        (FetchState::CacheLookup, FetchEvent::CacheRead(_)) => (FetchState::NetworkFetch, FetchAction::FetchFromNetwork),
        (FetchState::NetworkFetch, FetchEvent::NetworkDone(Ok(r))) => (FetchState::Finished, FetchAction::Respond(r)),
        (FetchState::NetworkFetch, FetchEvent::NetworkDone(Err(e))) => (FetchState::OfflineLookup(e), FetchAction::LookUpOffline),
        (FetchState::OfflineLookup(_), FetchEvent::OfflineRead(Ok(Some(r)))) => (FetchState::Finished, FetchAction::Respond(r)),
        (FetchState::OfflineLookup(e), FetchEvent::OfflineRead(_)) => (FetchState::Finished, FetchAction::Fail(e)),
        (s, _) => (s, FetchAction::LookUpCache),
    }
}

/// Runs the whole pipeline for one request, given what each step's outside
/// work returns, and gives the final action.
pub fn resolve(
    routed: Option<Response>,
    cached: Result<Option<Response>, CacheError>,
    fetched: Result<Response, NetworkError>,
    offline: Result<Option<Response>, CacheError>,
) -> (r: FetchAction)
    ensures
        r == pipeline(routed, cached, fetched, offline),
        r is Respond || r is Fail,
{
    let (s1, a1) = advance(FetchState::start(), FetchEvent::Routed(routed));
    if s1.is_finished() {
        return a1;
    }
    let (s2, a2) = advance(s1, FetchEvent::CacheRead(cached));
    if s2.is_finished() {
        return a2;
    }
    let (s3, a3) = advance(s2, FetchEvent::NetworkDone(fetched));
    if s3.is_finished() {
        return a3;
    }
    let (_s4, a4) = advance(s3, FetchEvent::OfflineRead(offline));
    a4
}

/// A request that a route handles is answered with the handler's response,
/// whatever its status, and the pipeline then ends: it asks for no cache
/// lookup and no network fetch.
pub proof fn route_match_short_circuits(
    r: Response,
    cached: Result<Option<Response>, CacheError>,
    fetched: Result<Response, NetworkError>,
    offline: Result<Option<Response>, CacheError>,
)
    ensures
        next(FetchState::Routing, FetchEvent::Routed(Some(r))) == (FetchState::Finished, FetchAction::Respond(r)),
        forall|e: FetchEvent| !accepts(FetchState::Finished, e),
        pipeline(Some(r), cached, fetched, offline) == FetchAction::Respond(r),
{
}

/// A request that no route handles and that the cache holds is answered
/// with the cached response itself, whatever the network would say.
pub proof fn cache_hit_served(
    entry: Response,
    fetched: Result<Response, NetworkError>,
    offline: Result<Option<Response>, CacheError>,
)
    ensures
        next(FetchState::Routing, FetchEvent::Routed(None)) == (FetchState::CacheLookup, FetchAction::LookUpCache),
        next(FetchState::CacheLookup, FetchEvent::CacheRead(Ok(Some(entry)))) == (FetchState::Finished, FetchAction::Respond(entry)),
        pipeline(None, Ok(Some(entry)), fetched, offline) == FetchAction::Respond(entry),
{
}

/// With no route, no cache entry for the request and a failing network,
/// a present offline page is the answer, with its own status.
pub proof fn offline_page_on_network_failure(
    cached: Result<Option<Response>, CacheError>,
    err: NetworkError,
    page: Response,
)
    requires
        !(cached matches Ok(Some(_))),
    ensures
        pipeline(None, cached, Err(err), Ok(Some(page))) == FetchAction::Respond(page),
{
}

/// With no route, no cache entry, a failing network and no offline page,
/// the request fails with the network's error: no response is made up.
pub proof fn failure_when_everything_misses(
    cached: Result<Option<Response>, CacheError>,
    err: NetworkError,
    offline: Result<Option<Response>, CacheError>,
)
    requires
        !(cached matches Ok(Some(_))),
        !(offline matches Ok(Some(_))),
    ensures
        pipeline(None, cached, Err(err), offline) == FetchAction::Fail(err),
{
}

} // verus!

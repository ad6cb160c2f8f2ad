use offline_shell::fetch::{advance, resolve, FetchAction, FetchEvent, FetchState};
use offline_shell::message::{CacheError, Header, Method, NetworkError, Request, RequestKey, Response};

fn page(status: u16, body: &str) -> Response {
    Response::new(
        status,
        vec![Header::new("content-type".to_string(), "text/html".to_string())],
        body.as_bytes().to_vec(),
    )
}

fn net_err() -> NetworkError {
    NetworkError { reason: "offline".to_string() }
}

#[test]
fn route_match_is_final_even_for_not_found() {
    let r = resolve(
        Some(page(404, "handler says missing")),
        Ok(Some(page(200, "cached"))),
        Ok(page(200, "network")),
        Ok(Some(page(200, "offline"))),
    );
    assert_eq!(r, FetchAction::Respond(page(404, "handler says missing")));
}

#[test]
fn route_match_asks_for_nothing_else() {
    let (s, a) = advance(FetchState::start(), FetchEvent::Routed(Some(page(200, "hello"))));
    assert_eq!(a, FetchAction::Respond(page(200, "hello")));
    assert!(s.is_finished());
    assert!(!s.accepts(&FetchEvent::CacheRead(Ok(None))));
    assert!(!s.accepts(&FetchEvent::NetworkDone(Ok(page(200, "x")))));
}

#[test]
fn step_sequence_without_route() {
    let (s, a) = advance(FetchState::start(), FetchEvent::Routed(None));
    assert_eq!(a, FetchAction::LookUpCache);
    assert_eq!(s, FetchState::CacheLookup);
    let (s, a) = advance(s, FetchEvent::CacheRead(Ok(None)));
    assert_eq!(a, FetchAction::FetchFromNetwork);
    let (s, a) = advance(s, FetchEvent::NetworkDone(Err(net_err())));
    assert_eq!(a, FetchAction::LookUpOffline);
    assert_eq!(s, FetchState::OfflineLookup(net_err()));
    let (s, a) = advance(s, FetchEvent::OfflineRead(Ok(Some(page(200, "offline")))));
    assert_eq!(a, FetchAction::Respond(page(200, "offline")));
    assert!(s.is_finished());
}

#[test]
fn cache_hit_returned_byte_for_byte() {
    let entry = Response::new(
        203,
        vec![
            Header::new("etag".to_string(), "\"abc\"".to_string()),
            Header::new("x-a".to_string(), "1".to_string()),
        ],
        vec![0, 1, 2, 255],
    );
    let expected = entry.duplicate();
    let r = resolve(None, Ok(Some(entry)), Ok(page(200, "network")), Ok(None));
    assert_eq!(r, FetchAction::Respond(expected));
}

#[test]
fn network_answer_used_on_cache_miss() {
    let r = resolve(None, Ok(None), Ok(page(500, "server error")), Ok(Some(page(200, "offline"))));
    assert_eq!(r, FetchAction::Respond(page(500, "server error")));
}

#[test]
fn cache_store_failure_counts_as_miss() {
    let r = resolve(
        None,
        Err(CacheError { reason: "quota".to_string() }),
        Ok(page(200, "network")),
        Ok(None),
    );
    assert_eq!(r, FetchAction::Respond(page(200, "network")));
}

#[test]
fn offline_page_keeps_its_status() {
    let r = resolve(None, Ok(None), Err(net_err()), Ok(Some(page(503, "you are offline"))));
    assert_eq!(r, FetchAction::Respond(page(503, "you are offline")));
}

#[test]
fn fails_when_everything_misses() {
    let r = resolve(None, Ok(None), Err(net_err()), Ok(None));
    assert_eq!(r, FetchAction::Fail(net_err()));
}

#[test]
fn fails_when_offline_lookup_errors() {
    let r = resolve(None, Ok(None), Err(net_err()), Err(CacheError { reason: "io".to_string() }));
    assert_eq!(r, FetchAction::Fail(net_err()));
}

#[test]
fn response_success_range() {
    assert!(page(200, "").is_success());
    assert!(page(299, "").is_success());
    assert!(!page(199, "").is_success());
    assert!(!page(300, "").is_success());
    assert!(!page(404, "").is_success());
}

#[test]
fn request_identity_is_method_and_full_url() {
    let req = Request::new(
        Method::Get,
        "https://app.example/a?x=1".to_string(),
        vec![Header::new("accept".to_string(), "*/*".to_string())],
        None,
    );
    let id = req.identity();
    assert!(id.same_as(&RequestKey::new(Method::Get, "https://app.example/a?x=1".to_string())));
    assert!(!id.same_as(&RequestKey::new(Method::Get, "https://app.example/a".to_string())));
    assert!(!id.same_as(&RequestKey::new(Method::Head, "https://app.example/a?x=1".to_string())));
}

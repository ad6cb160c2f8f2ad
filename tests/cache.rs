use offline_shell::fetch::{resolve, FetchAction};
use offline_shell::message::{Method, NetworkError, RequestKey, Response};
use offline_shell::shell::{offline_key, static_assets, CACHE_NAME, OFFLINE_PATH};
use offline_shell::store::{should_store, stale_cache_names, CacheStore};

fn page(status: u16, body: &str) -> Response {
    Response::new(status, vec![], body.as_bytes().to_vec())
}

fn down() -> NetworkError {
    NetworkError { reason: "down".to_string() }
}

fn sorted(mut v: Vec<String>) -> Vec<String> {
    v.sort();
    v
}

#[test]
fn open_is_idempotent() {
    let mut s = CacheStore::new();
    s.open("v1");
    s.open("v1");
    assert_eq!(s.list_names(), vec!["v1".to_string()]);
    assert!(s.has_cache("v1"));
    assert!(!s.has_cache("v2"));
}

#[test]
fn put_replaces_and_get_misses() {
    let mut s = CacheStore::new();
    s.open("v1");
    s.put("v1", RequestKey::get("/a"), page(200, "one"));
    s.put("v1", RequestKey::get("/a"), page(200, "two"));
    assert_eq!(s.get("v1", &RequestKey::get("/a")), Some(page(200, "two")));
    assert_eq!(s.get("v1", &RequestKey::get("/a?q=1")), None);
    assert_eq!(s.get("v1", &RequestKey::new(Method::Post, "/a".to_string())), None);
    assert_eq!(s.get("v2", &RequestKey::get("/a")), None);
}

#[test]
fn delete_drops_cache_and_entries() {
    let mut s = CacheStore::new();
    s.open("v1");
    s.open("v2");
    s.put("v1", RequestKey::get("/a"), page(200, "a"));
    s.put("v2", RequestKey::get("/a"), page(200, "b"));
    assert!(s.delete("v1"));
    assert!(!s.delete("v1"));
    assert_eq!(s.get("v1", &RequestKey::get("/a")), None);
    assert_eq!(s.get("v2", &RequestKey::get("/a")), Some(page(200, "b")));
    assert_eq!(s.list_names(), vec!["v2".to_string()]);
}

#[test]
fn stale_names_exclude_current() {
    let names = vec!["v0".to_string(), "my-app-cache-v1".to_string(), "other".to_string()];
    assert_eq!(
        sorted(stale_cache_names(&names, CACHE_NAME)),
        vec!["other".to_string(), "v0".to_string()]
    );
    assert_eq!(stale_cache_names(&vec![CACHE_NAME.to_string()], CACHE_NAME), Vec::<String>::new());
}

#[test]
fn activate_twice_same_as_once() {
    let mut s = CacheStore::new();
    s.open("old");
    s.open(CACHE_NAME);
    s.put("old", RequestKey::get("/"), page(200, "stale"));
    s.put(CACHE_NAME, RequestKey::get("/"), page(200, "fresh"));
    s.activate(CACHE_NAME);
    let once = s.list_names();
    let once_entry = s.get(CACHE_NAME, &RequestKey::get("/"));
    s.activate(CACHE_NAME);
    assert_eq!(s.list_names(), once);
    assert_eq!(once, vec![CACHE_NAME.to_string()]);
    assert_eq!(s.get(CACHE_NAME, &RequestKey::get("/")), once_entry);
    assert_eq!(once_entry, Some(page(200, "fresh")));
    assert_eq!(s.get("old", &RequestKey::get("/")), None);
}

#[test]
fn install_skips_one_failed_fetch() {
    let mut s = CacheStore::new();
    let manifest = vec!["/".to_string(), "/app.js".to_string(), "/styles.css".to_string()];
    let fetched = vec![Ok(page(200, "root")), Err(down()), Ok(page(200, "css"))];
    s.install(CACHE_NAME, &manifest, fetched);
    assert_eq!(s.get(CACHE_NAME, &RequestKey::get("/")), Some(page(200, "root")));
    assert_eq!(s.get(CACHE_NAME, &RequestKey::get("/app.js")), None);
    assert_eq!(s.get(CACHE_NAME, &RequestKey::get("/styles.css")), Some(page(200, "css")));
}

#[test]
fn install_skips_error_status() {
    let mut s = CacheStore::new();
    s.open(CACHE_NAME);
    assert!(!s.install_asset(CACHE_NAME, "/missing.js", Ok(page(404, "nope"))));
    assert!(s.install_asset(CACHE_NAME, "/app.js", Ok(page(200, "js"))));
    assert_eq!(s.get(CACHE_NAME, &RequestKey::get("/missing.js")), None);
    assert!(!should_store(&Err(down())));
    assert!(should_store(&Ok(page(204, ""))));
}

#[test]
fn install_full_manifest() {
    let mut s = CacheStore::new();
    let manifest = static_assets();
    assert_eq!(manifest.len(), 8);
    let fetched = manifest.iter().map(|p| Ok(page(200, p))).collect();
    s.install(CACHE_NAME, &manifest, fetched);
    for p in &manifest {
        assert_eq!(s.get(CACHE_NAME, &RequestKey::get(p)), Some(page(200, p)));
    }
}

#[test]
fn offline_scenario_after_install() {
    let mut s = CacheStore::new();
    let manifest = vec!["/".to_string(), OFFLINE_PATH.to_string()];
    let offline_page = page(200, "<p>offline</p>");
    s.install(CACHE_NAME, &manifest, vec![Ok(page(200, "<p>home</p>")), Ok(offline_page.duplicate())]);
    assert!(s.get(CACHE_NAME, &RequestKey::get("/")).is_some());
    assert!(s.get(CACHE_NAME, &offline_key()).is_some());

    let request = RequestKey::get("https://app.example/");
    let cached = s.get(CACHE_NAME, &request);
    assert_eq!(cached, None);
    let offline = s.get(CACHE_NAME, &offline_key());
    let r = resolve(None, Ok(cached), Err(down()), Ok(offline));
    assert_eq!(r, FetchAction::Respond(offline_page));
}

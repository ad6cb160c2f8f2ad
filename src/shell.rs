//! The application shell's fixed configuration: cache version, seeded
//! assets, offline page and local routes.

use vstd::prelude::*;
use crate::message::{Method, RequestKey};
use crate::route::RouteTable;

verus! {

/// Name of the current cache version; bumped when the assets change.
pub const CACHE_NAME: &'static str = "my-app-cache-v1";

/// Path of the page served when the network is unreachable.
pub const OFFLINE_PATH: &'static str = "/offline.html";

/// The assets seeded into the cache on install, in order.
pub fn static_assets() -> (r: Vec<String>)
    ensures
        r@.map_values(|s: String| s@) == seq![
            "/"@,
            "/index.html"@,
            "/styles.css"@,
            "/app.js"@,
            "/offline.html"@,
            "/htmx.min.js"@,
            "/htmx.js"@,
            "/pico.min.css"@,
        ],
{
    let r = vec![
        String::from_str("/"),
        String::from_str("/index.html"),
        String::from_str("/styles.css"),
        String::from_str("/app.js"),
        String::from_str("/offline.html"),
        String::from_str("/htmx.min.js"),
        String::from_str("/htmx.js"),
        String::from_str("/pico.min.css"),
    ];
    assert(r@.map_values(|s: String| s@) =~= seq![
        "/"@,
        "/index.html"@,
        "/styles.css"@,
        "/app.js"@,
        "/offline.html"@,
        "/htmx.min.js"@,
        "/htmx.js"@,
        "/pico.min.css"@,
    ]);
    r
}

/// The identity under which the offline page is cached.
pub fn offline_key() -> (r: RequestKey)
    ensures
        r@ == (Method::Get, OFFLINE_PATH@),
{
    RequestKey::get(OFFLINE_PATH)
}

/// Index of the counting page route in `app_routes`.
pub const ROUTE_HELLO: usize = 0;

/// Index of the form submission route in `app_routes`.
pub const ROUTE_FORM: usize = 1;

/// Index of the counting click route in `app_routes`.
pub const ROUTE_CLICKED: usize = 2;

/// The local routes, in registration order.
pub fn app_routes() -> (r: RouteTable)
    ensures
        r@ == seq![(Method::Get, "/hello"@), (Method::Post, "/form"@), (Method::Post, "/clicked"@)],
{
    let mut t = RouteTable::new();
    t.add(Method::Get, "/hello");
    t.add(Method::Post, "/form");
    t.add(Method::Post, "/clicked");
    assert(t@ =~= seq![(Method::Get, "/hello"@), (Method::Post, "/form"@), (Method::Post, "/clicked"@)]);
    t
}

} // verus!

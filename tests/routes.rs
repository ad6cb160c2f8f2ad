use offline_shell::message::Method;
use offline_shell::route::{path_fits, split_segments, RouteTable};
use offline_shell::shell::{app_routes, ROUTE_CLICKED, ROUTE_FORM, ROUTE_HELLO};

#[test]
fn splits_on_slashes() {
    assert_eq!(split_segments("/a/bc"), vec!["".to_string(), "a".to_string(), "bc".to_string()]);
    assert_eq!(split_segments(""), vec!["".to_string()]);
    assert_eq!(split_segments("/"), vec!["".to_string(), "".to_string()]);
}

#[test]
fn literal_and_parameter_segments() {
    assert!(path_fits("/hello", "/hello"));
    assert!(!path_fits("/hello", "/hello/"));
    assert!(!path_fits("/hello", "/hellO"));
    assert!(path_fits("/{name}/clicked", "/bob/clicked"));
    assert!(!path_fits("/{name}/clicked", "//clicked"));
    assert!(!path_fits("/{name}/clicked", "/bob/clicked/more"));
}

#[test]
fn first_registered_route_wins() {
    let mut t = RouteTable::new();
    assert_eq!(t.add(Method::Get, "/{page}"), 0);
    assert_eq!(t.add(Method::Get, "/about"), 1);
    assert_eq!(t.len(), 2);
    assert_eq!(t.find(Method::Get, "/about"), Some(0));
    assert_eq!(t.find(Method::Post, "/about"), None);
}

#[test]
fn app_routes_dispatch() {
    let t = app_routes();
    assert_eq!(t.find(Method::Get, "/hello"), Some(ROUTE_HELLO));
    assert_eq!(t.find(Method::Post, "/form"), Some(ROUTE_FORM));
    assert_eq!(t.find(Method::Post, "/clicked"), Some(ROUTE_CLICKED));
    assert_eq!(t.find(Method::Get, "/clicked"), None);
    assert_eq!(t.find(Method::Get, "/"), None);
}

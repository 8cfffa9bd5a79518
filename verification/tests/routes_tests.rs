use cpu_dashboard::assets::asset_body;
use cpu_dashboard::routes::{content_type_of, route_of, Route};

fn route(path: &str) -> Option<Route> {
    route_of(&path.as_bytes().to_vec())
}

#[test]
fn the_four_routes_dispatch() {
    assert_eq!(route("/"), Some(Route::Dashboard));
    assert_eq!(route("/index.mjs"), Some(Route::Script));
    assert_eq!(route("/index.css"), Some(Route::Style));
    assert_eq!(route("/realtime/cpus"), Some(Route::RealtimeCpus));
}

#[test]
fn unknown_paths_are_rejected() {
    for p in ["", "/index.js", "/index.css/", "/realtime", "/realtime/cpus/", "//", "/INDEX.MJS"] {
        assert_eq!(route(p), None, "dispatched {:?}", p);
    }
}

#[test]
fn content_types_are_fixed() {
    assert_eq!(content_type_of(Route::Dashboard), Some("text/html"));
    assert_eq!(
        content_type_of(Route::Script),
        Some("application/javascript;charset=utf-8")
    );
    assert_eq!(content_type_of(Route::Style), Some("text/css;charset=utf-8"));
    assert_eq!(content_type_of(Route::RealtimeCpus), None);
}

#[test]
fn asset_responses_are_byte_identical_across_requests() {
    for r in [Route::Dashboard, Route::Script, Route::Style] {
        let first = asset_body(r).expect("asset routes have a body");
        let second = asset_body(r).expect("asset routes have a body");
        assert_eq!(first.as_bytes(), second.as_bytes());
        assert!(!first.is_empty());
    }
}

#[test]
fn upgrade_endpoint_serves_no_asset() {
    assert_eq!(asset_body(Route::RealtimeCpus), None);
}

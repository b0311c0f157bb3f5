use moviebay::matcher::PathMatcher;
use moviebay::matcher::PatternError;
use moviebay::router::Method;
use moviebay::router::Route;
use moviebay::router::Router;

fn route(method: Method, pattern: &str, name: &str) -> Route {
    let builder = Route::get(pattern).expect("pattern must compile");
    let mut r = builder.name(name);
    r.method = method;
    r
}

#[test]
fn compile_accepts_literal_and_capture() {
    assert!(PathMatcher::compile("/movies/").is_ok());
    assert!(PathMatcher::compile(r"/movies/(\d+)").is_ok());
    assert!(PathMatcher::compile(r"/stream/(\d+)").is_ok());
}

#[test]
fn compile_rejects_malformed_patterns() {
    assert_eq!(PathMatcher::compile("/movies/(").unwrap_err(), PatternError::InvalidPattern);
    assert_eq!(PathMatcher::compile("/movies/)").unwrap_err(), PatternError::InvalidPattern);
    assert_eq!(PathMatcher::compile(r"/movies/(\d+)(\d+)").unwrap_err(), PatternError::InvalidPattern);
    assert_eq!(PathMatcher::compile(r"/movies/(\w+)").unwrap_err(), PatternError::InvalidPattern);
    assert_eq!(PathMatcher::compile("back\\slash").unwrap_err(), PatternError::InvalidPattern);
}

#[test]
fn literal_pattern_matches_only_itself() {
    let m = PathMatcher::compile("/movies/").unwrap();
    let hit = m.try_match("/movies/").expect("exact path must match");
    assert_eq!(hit.full_match, "/movies/");
    assert!(hit.captured.is_none());
    assert!(m.try_match("/movies/42").is_none());
    assert!(m.try_match("/movies").is_none());
    assert!(m.try_match("/a/movies/").is_none());
}

#[test]
fn capture_pattern_extracts_digits() {
    let m = PathMatcher::compile(r"/movies/(\d+)").unwrap();
    let hit = m.try_match("/movies/42").expect("digit path must match");
    assert_eq!(hit.full_match, "/movies/42");
    assert_eq!(hit.captured.as_deref(), Some("42"));
    assert!(m.try_match("/movies/").is_none());
    assert!(m.try_match("/movies/abc").is_none());
    assert!(m.try_match("/movies/42x").is_none());
}

#[test]
fn resolve_returns_first_registration_in_insertion_order() {
    let mut router = Router::new();
    router.add(route(Method::Get, r"/movies/(\d+)", "get_movie"));
    router.add(route(Method::Get, "/movies/", "get_movies"));
    router.add(route(Method::Get, r"/stream/(\d+)", "get_stream"));

    let hit = router.resolve(Method::Get, "/movies/42").expect("id path must resolve");
    assert_eq!(hit.handler_name, "get_movie");
    assert_eq!(hit.params, vec!["42".to_string()]);

    let listing = router.resolve(Method::Get, "/movies/").expect("listing must resolve");
    assert_eq!(listing.handler_name, "get_movies");
    assert!(listing.params.is_empty());

    let stream = router.resolve(Method::Get, "/stream/7").expect("stream must resolve");
    assert_eq!(stream.handler_name, "get_stream");
    assert_eq!(stream.params, vec!["7".to_string()]);
}

#[test]
fn resolve_prefers_earlier_route_when_both_match() {
    let mut first_wins = Router::new();
    first_wins.add(route(Method::Get, r"/movies/(\d+)", "specific"));
    first_wins.add(route(Method::Get, r"/movies/(\d+)", "general"));
    let hit = first_wins.resolve(Method::Get, "/movies/5").unwrap();
    assert_eq!(hit.handler_name, "specific");

    let mut other_order = Router::new();
    other_order.add(route(Method::Get, r"/movies/(\d+)", "general"));
    other_order.add(route(Method::Get, r"/movies/(\d+)", "specific"));
    let hit = other_order.resolve(Method::Get, "/movies/5").unwrap();
    assert_eq!(hit.handler_name, "general");
}

#[test]
fn resolve_checks_the_method() {
    let mut router = Router::new();
    router.add(route(Method::Get, "/movies/", "get_movies"));
    assert!(router.resolve(Method::Post, "/movies/").is_none());
}

#[test]
fn resolve_unmatched_path_returns_none() {
    let mut router = Router::new();
    router.add(route(Method::Get, r"/movies/(\d+)", "get_movie"));
    router.add(route(Method::Get, "/movies/", "get_movies"));
    assert!(router.resolve(Method::Get, "/nothing/here").is_none());
    assert!(router.resolve(Method::Get, "/movies/abc").is_none());
}

#[test]
fn is_match_ignores_method_and_fills_params() {
    let mut router = Router::new();
    router.add(route(Method::Get, r"/movies/(\d+)", "get_movie"));
    let hit = router.is_match("/movies/42").expect("path must match");
    assert_eq!(hit.name, "get_movie");
    assert_eq!(hit.params, vec!["42".to_string()]);
    assert!(router.is_match("/else").is_none());
}

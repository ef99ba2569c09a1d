use dc_api_core::router::{PathMatcher, Router};

#[test]
fn users_id_captures_value() {
    let m = PathMatcher::from_pattern("/users/{id}".to_string());
    let params = m.exec("/users/42").expect("pattern should match");
    assert_eq!(params.len(), 1);
    assert_eq!(params[0].0, "id");
    assert_eq!(params[0].1, "42");
}

#[test]
fn users_id_captures_empty() {
    let m = PathMatcher::from_pattern("/users/{id}".to_string());
    let params = m.exec("/users/").expect("empty capture should match");
    assert_eq!(params.len(), 1);
    assert_eq!(params[0].0, "id");
    assert_eq!(params[0].1, "");
}

#[test]
fn two_variables_with_dash_stop() {
    let m = PathMatcher::from_pattern("/test-endpoint/{sup}-{sub}".to_string());
    let params = m.exec("/test-endpoint/a-b").expect("pattern should match");
    assert_eq!(params.len(), 2);
    assert_eq!(params[0], ("sup".to_string(), "a".to_string()));
    assert_eq!(params[1], ("sub".to_string(), "b".to_string()));
}

#[test]
fn literal_mismatch_fails() {
    let m = PathMatcher::from_pattern("/users/{id}".to_string());
    assert!(m.exec("/other/42").is_none());
}

#[test]
fn trailing_path_fails() {
    let m = PathMatcher::from_pattern("/users".to_string());
    assert!(m.exec("/users/42").is_none());
    assert!(m.exec("/users").is_some());
}

#[test]
fn variable_between_literals() {
    let m = PathMatcher::from_pattern("/a/{x}/tail".to_string());
    let params = m.exec("/a/val/tail").expect("pattern should match");
    assert_eq!(params, vec![("x".to_string(), "val".to_string())]);
    assert!(m.exec("/a/val/other").is_none());
}

#[test]
fn missing_stop_character_fails() {
    let m = PathMatcher::from_pattern("/a/{x}/b".to_string());
    assert!(m.exec("/a/foo").is_none());
}

#[test]
fn first_registered_route_wins() {
    let mut router: Router<u32> = Router::empty();
    router.register("/api/{rest}".to_string(), 1);
    router.register("/api/users".to_string(), 2);
    let (index, params) = router.match_path("/api/users").expect("a route should match");
    assert_eq!(index, 0);
    assert_eq!(params, vec![("rest".to_string(), "users".to_string())]);
}

#[test]
fn match_path_skips_non_matching_routes() {
    let mut router: Router<u32> = Router::empty();
    router.register("/one".to_string(), 1);
    router.register("/two/{id}".to_string(), 2);
    let (index, params) = router.match_path("/two/9").expect("second route should match");
    assert_eq!(index, 1);
    assert_eq!(params, vec![("id".to_string(), "9".to_string())]);
    assert!(router.match_path("/three").is_none());
}

#[test]
fn register_tags_routes_with_module() {
    let mut router: Router<u32> = Router::empty();
    router.register("/core".to_string(), 1);
    router.set_origin_module(Some("shop".to_string()));
    router.register("/shop".to_string(), 2);
    router.set_origin_module(None);
    router.register("/late".to_string(), 3);
    assert_eq!(router.routes[0].origin_module, None);
    assert_eq!(router.routes[1].origin_module, Some("shop".to_string()));
    assert_eq!(router.routes[2].origin_module, None);
}

#[test]
fn route_new_compiles_pattern() {
    let route = dc_api_core::router::Route::new("/r/{v}".to_string(), 5u32);
    assert!(route.origin_module.is_none());
    let params = route.matcher.exec("/r/x").expect("pattern should match");
    assert_eq!(params, vec![("v".to_string(), "x".to_string())]);
    assert_eq!(route.call, 5);
}

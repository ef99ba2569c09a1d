use dc_api_core::cors::{Cors, CorsConfig};
use dc_api_core::entity::{HttpMethod, Request, Response};
use dc_api_core::codes::HttpCode;

fn request_with_origin(origin: Option<&str>) -> Request {
    let mut req = Request::new(HttpMethod::GET, "/".to_string());
    if let Some(o) = origin {
        req.headers.set_normal("Origin".to_string(), o.to_string());
    }
    req
}

#[test]
fn config_defaults_match_documentation() {
    let cfg = CorsConfig::from_parts(None, None, None, None);
    assert_eq!(cfg.origin, "");
    assert_eq!(cfg.methods, "GET,POST");
    assert_eq!(cfg.headers, "content-type,session");
    assert_eq!(cfg.ttl, "86400");
}

#[test]
fn config_joins_lists_and_formats_ttl() {
    let cfg = CorsConfig::from_parts(
        Some("https://site".to_string()),
        Some(vec!["GET".to_string(), "PUT".to_string(), "DELETE".to_string()]),
        Some(vec!["x-key".to_string()]),
        Some(300),
    );
    assert_eq!(cfg.origin, "https://site");
    assert_eq!(cfg.methods, "GET,PUT,DELETE");
    assert_eq!(cfg.headers, "x-key");
    assert_eq!(cfg.ttl, "300");
}

#[test]
fn missing_origin_header_answers_star() {
    let req = request_with_origin(None);
    let cors = Cors::new(&req);
    assert_eq!(cors.origin, "*");
    let mut res = Response::from_status(HttpCode::OK);
    cors.apply_origin_check(&mut res, &CorsConfig::from_parts(None, None, None, None));
    assert_eq!(
        res.headers.get("Access-Control-Allow-Origin"),
        Some("*".to_string())
    );
}

#[test]
fn request_origin_is_echoed() {
    let req = request_with_origin(Some("https://a.example"));
    let cors = Cors::new(&req);
    let mut res = Response::from_status(HttpCode::OK);
    cors.apply_origin_check(&mut res, &CorsConfig::from_parts(None, None, None, None));
    assert_eq!(
        res.headers.get("Access-Control-Allow-Origin"),
        Some("https://a.example".to_string())
    );
}

#[test]
fn empty_origin_falls_back_to_configuration() {
    let req = request_with_origin(Some(""));
    let cors = Cors::new(&req);
    let cfg = CorsConfig::from_parts(Some("https://cfg".to_string()), None, None, None);
    let mut res = Response::from_status(HttpCode::OK);
    cors.apply_origin_check(&mut res, &cfg);
    assert_eq!(
        res.headers.get("Access-Control-Allow-Origin"),
        Some("https://cfg".to_string())
    );
}

#[test]
fn normal_responses_expose_headers() {
    let req = request_with_origin(Some("https://a.example"));
    let cors = Cors::new(&req);
    let cfg = CorsConfig::from_parts(None, None, None, None);
    let mut res = Response::from_status(HttpCode::OK);
    cors.apply_normal(&mut res, &cfg);
    assert_eq!(
        res.headers.get("Access-Control-Expose-Headers"),
        Some("content-type,session".to_string())
    );
    assert_eq!(
        res.headers.get("Access-Control-Allow-Origin"),
        Some("https://a.example".to_string())
    );
    assert_eq!(res.headers.get("Access-Control-Allow-Methods"), None);
}

#[test]
fn preflight_carries_all_four_headers() {
    let req = request_with_origin(Some("https://a.example"));
    let cors = Cors::new(&req);
    let cfg = CorsConfig::from_parts(None, None, None, None);
    let mut res = Response::from_status(HttpCode::OK);
    cors.apply_preflight(&mut res, &cfg);
    assert_eq!(
        res.headers.get("Access-Control-Allow-Methods"),
        Some("GET,POST".to_string())
    );
    assert_eq!(
        res.headers.get("Access-Control-Allow-Headers"),
        Some("content-type,session".to_string())
    );
    assert_eq!(res.headers.get("Access-Control-Max-Age"), Some("86400".to_string()));
    assert_eq!(
        res.headers.get("Access-Control-Allow-Origin"),
        Some("https://a.example".to_string())
    );
}

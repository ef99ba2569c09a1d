use dc_api_core::codes::HttpCode;
use dc_api_core::cors::{Cors, CorsConfig};
use dc_api_core::dispatch::{
    connection_step, finish_http, is_connection_upgrade, is_websocket_upgrade, plan_http,
    ConnectionStep, HttpPlan,
};
use dc_api_core::entity::{
    HttpMethod, ParsingResult, Request, Response, ResponseRet, ResponseType,
};
use dc_api_core::router::Router;

fn request(method: HttpMethod, path: &str) -> Request {
    Request::new(method, path.to_string())
}

#[test]
fn upgrade_detection_is_exact() {
    let mut req = request(HttpMethod::GET, "/");
    assert!(!is_connection_upgrade(&req));
    req.headers.set_normal("Connection".to_string(), "Upgrade".to_string());
    assert!(is_connection_upgrade(&req));
    assert!(!is_websocket_upgrade(&req));
    req.headers.set_normal("Upgrade".to_string(), "websocket".to_string());
    assert!(is_websocket_upgrade(&req));
    req.headers.set_normal("Connection".to_string(), "upgrade".to_string());
    assert!(!is_connection_upgrade(&req));
}

#[test]
fn websocket_upgrade_is_handed_off() {
    let mut req = request(HttpMethod::GET, "/socket");
    req.headers.set_normal("Connection".to_string(), "Upgrade".to_string());
    req.headers.set_normal("Upgrade".to_string(), "websocket".to_string());
    match connection_step(ParsingResult::Complete(req)) {
        ConnectionStep::WebSocket(r) => assert_eq!(r.path, "/socket"),
        _ => panic!("expected a websocket handoff"),
    }
}

#[test]
fn other_upgrade_gets_bad_request() {
    let mut req = request(HttpMethod::GET, "/");
    req.headers.set_normal("Connection".to_string(), "Upgrade".to_string());
    req.headers.set_normal("Upgrade".to_string(), "h2c".to_string());
    match connection_step(ParsingResult::Complete(req)) {
        ConnectionStep::RespondOnly(res) => assert_eq!(res.code, HttpCode::BadRequest),
        _ => panic!("expected a bare bad-request answer"),
    }
}

#[test]
fn plain_request_goes_to_http() {
    match connection_step(ParsingResult::Complete(request(HttpMethod::GET, "/x"))) {
        ConnectionStep::Http(r) => assert_eq!(r.path, "/x"),
        _ => panic!("expected the http path"),
    }
}

#[test]
fn parse_error_is_answered_and_closed() {
    match connection_step(ParsingResult::Error(HttpCode::RequestHeaderFieldsTooLarge)) {
        ConnectionStep::RespondAndClose(res) => {
            assert_eq!(res.code, HttpCode::RequestHeaderFieldsTooLarge);
            assert!(matches!(res.payload, ResponseType::NoContent));
        }
        _ => panic!("expected respond-and-close"),
    }
}

#[test]
fn invalid_stream_is_dropped_silently() {
    assert!(matches!(connection_step(ParsingResult::Invalid), ConnectionStep::CloseOnly));
    assert!(matches!(connection_step(ParsingResult::Partial), ConnectionStep::Idle));
}

#[test]
fn preflight_answers_200_with_cors_headers_on_unrouted_path() {
    let router: Router<u32> = Router::empty();
    let cfg = CorsConfig::from_parts(None, None, None, None);
    let req = request(HttpMethod::OPTIONS, "/no/route/here");
    match plan_http(&req, &router, &cfg) {
        HttpPlan::Ready(res) => {
            assert_eq!(res.code, HttpCode::OK);
            assert!(res.headers.get("Access-Control-Allow-Methods").is_some());
            assert!(res.headers.get("Access-Control-Allow-Headers").is_some());
            assert!(res.headers.get("Access-Control-Max-Age").is_some());
            assert!(res.headers.get("Access-Control-Allow-Origin").is_some());
        }
        _ => panic!("a preflight must be answered directly"),
    }
}

#[test]
fn matching_route_is_invoked_with_params() {
    let mut router: Router<u32> = Router::empty();
    router.register("/users/{id}".to_string(), 7);
    let cfg = CorsConfig::from_parts(None, None, None, None);
    let req = request(HttpMethod::GET, "/users/42");
    match plan_http(&req, &router, &cfg) {
        HttpPlan::Invoke(index, params) => {
            assert_eq!(index, 0);
            assert_eq!(params, vec![("id".to_string(), "42".to_string())]);
        }
        _ => panic!("the route should have matched"),
    }
}

#[test]
fn unmatched_path_gets_404_with_text_body() {
    let router: Router<u32> = Router::empty();
    let cfg = CorsConfig::from_parts(None, None, None, None);
    let req = request(HttpMethod::GET, "/missing");
    match plan_http(&req, &router, &cfg) {
        HttpPlan::Ready(res) => {
            assert_eq!(res.code, HttpCode::NotFound);
            match res.payload {
                ResponseType::Payload(p) => assert_eq!(p, b"API endpoint not found".to_vec()),
                _ => panic!("expected a text body"),
            }
            assert!(res.headers.get("Access-Control-Allow-Origin").is_some());
        }
        _ => panic!("expected a ready 404"),
    }
}

#[test]
fn replace_result_substitutes_the_response() {
    let cfg = CorsConfig::from_parts(None, None, None, None);
    let req = request(HttpMethod::GET, "/");
    let cors = Cors::new(&req);
    let ctx_res = Response::from_status(HttpCode::OK);
    let replacement = Response::from_code(HttpCode::NotFound, "gone");
    let res = finish_http(ctx_res, ResponseRet::Replace(replacement), cors, &cfg);
    assert_eq!(res.code, HttpCode::NotFound);
    assert!(res.headers.get("Access-Control-Allow-Origin").is_some());
}

#[test]
fn continue_result_keeps_the_context_response() {
    let cfg = CorsConfig::from_parts(None, None, None, None);
    let req = request(HttpMethod::GET, "/");
    let cors = Cors::new(&req);
    let ctx_res = Response::from_code(HttpCode::OK, "body");
    let res = finish_http(ctx_res, ResponseRet::Continue, cors, &cfg);
    assert_eq!(res.code, HttpCode::OK);
    assert!(res.headers.get("Access-Control-Expose-Headers").is_some());
}

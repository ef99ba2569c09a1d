use dc_api_core::codes::HttpCode;
use dc_api_core::context::HttpContext;
use dc_api_core::entity::{HttpMethod, Request, ResponseRet, ResponseType};
use dc_api_core::validator::{Validate, ValidateJson, ValidationError};

fn context_for(method: HttpMethod, path: &str, body: &[u8]) -> HttpContext {
    let mut req = Request::new(method, path.to_string());
    req.body = body.to_vec();
    HttpContext::from("127.0.0.1".to_string(), req, Vec::new())
}

#[derive(Default, Debug)]
struct TestPayload {
    range_test: i32,
}

impl Validate for TestPayload {
    fn validate(&self) -> Result<(), ValidationError> {
        if self.range_test < 0 || self.range_test > 100 {
            return Err(ValidationError {
                message: format!("value out of range [{}; {}]", 0, 100),
                path: vec!["range_test".to_string()],
            });
        }
        Ok(())
    }
}

impl ValidateJson for TestPayload {
    fn parse_json(&mut self, raw: &str) -> Result<(), ValidationError> {
        match json::parse(raw) {
            Err(error) => Err(ValidationError { message: error.to_string(), path: Vec::new() }),
            Ok(parsed) => self.assign_json(&parsed),
        }
    }

    fn assign_json(&mut self, parsed: &json::JsonValue) -> Result<(), ValidationError> {
        if let Some(value) = parsed["range_test"].as_i32() {
            self.range_test = value;
            Ok(())
        } else {
            Err(ValidationError {
                message: "expected i32".to_string(),
                path: vec!["range_test".to_string()],
            })
        }
    }
}

#[test]
fn fresh_context_has_unsent_response() {
    let ctx = context_for(HttpMethod::GET, "/", b"");
    assert_eq!(ctx.res.code, HttpCode::NotSent);
    assert!(matches!(ctx.res.payload, ResponseType::NoContent));
    assert_eq!(ctx.address, "127.0.0.1");
}

#[test]
fn header_helpers_read_and_write() {
    let mut ctx = context_for(HttpMethod::GET, "/", b"");
    ctx.req.headers.set_normal("Host".to_string(), "h".to_string());
    assert_eq!(ctx.get_header("host"), Some("h".to_string()));
    assert_eq!(ctx.get_header_default("host", "none".to_string()), "h");
    assert_eq!(ctx.get_header_default("missing", "none".to_string()), "none");
    ctx.set_header("x-echo-host", "h".to_string());
    assert_eq!(ctx.res.headers.get("x-echo-host"), Some("h".to_string()));
}

#[test]
fn text_fills_response_and_continues() {
    let mut ctx = context_for(HttpMethod::GET, "/", b"");
    let r = ctx.text("Check headers!");
    assert!(matches!(r, ResponseRet::Continue));
    assert_eq!(ctx.res.code, HttpCode::OK);
    assert_eq!(ctx.res.headers.get("content-type"), Some("text/plain".to_string()));
    match &ctx.res.payload {
        ResponseType::Payload(p) => assert_eq!(p, &b"Check headers!".to_vec()),
        _ => panic!("expected a payload"),
    }
}

#[test]
fn text_status_uses_given_code() {
    let mut ctx = context_for(HttpMethod::GET, "/", b"");
    let r = ctx.text_status("Nothing there!", HttpCode::NotFound);
    assert!(matches!(r, ResponseRet::Continue));
    assert_eq!(ctx.res.code, HttpCode::NotFound);
}

#[test]
fn json_status_dumps_the_value() {
    let mut ctx = context_for(HttpMethod::GET, "/", b"");
    let mut obj = json::JsonValue::new_object();
    obj.insert("result", 5).unwrap();
    let expected = obj.dump().into_bytes();
    let r: ResponseRet = ctx.json_status(obj, HttpCode::OK);
    assert!(matches!(r, ResponseRet::Continue));
    assert_eq!(ctx.res.code, HttpCode::OK);
    assert_eq!(ctx.res.headers.get("content-type"), Some("application/json".to_string()));
    match &ctx.res.payload {
        ResponseType::Payload(p) => assert_eq!(p, &expected),
        _ => panic!("expected a payload"),
    }
}

#[test]
fn json_defaults_content_type_only_when_absent() {
    let mut ctx = context_for(HttpMethod::GET, "/", b"");
    ctx.res.headers.set("content-type".to_string(), "text/html".to_string());
    let r = ctx.json(json::JsonValue::new_object());
    assert!(matches!(r, ResponseRet::Continue));
    assert_eq!(ctx.res.headers.get("content-type"), Some("text/html".to_string()));
}

#[test]
fn redirect_sets_location_and_no_body() {
    let mut ctx = context_for(HttpMethod::GET, "/", b"");
    let r = ctx.redirect("./redirected");
    assert!(matches!(r, ResponseRet::Continue));
    assert_eq!(ctx.res.code, HttpCode::TemporaryRedirect);
    assert_eq!(ctx.res.headers.get("location"), Some("./redirected".to_string()));
    assert!(matches!(ctx.res.payload, ResponseType::NoContent));
}

#[test]
fn drop_replaces_with_the_drop_marker() {
    let ctx = context_for(HttpMethod::GET, "/", b"");
    match ctx.drop() {
        ResponseRet::Replace(res) => assert!(matches!(res.payload, ResponseType::Drop)),
        _ => panic!("expected a replacement"),
    }
}

#[test]
fn validate_json_returns_the_parsed_payload() {
    let mut ctx = context_for(HttpMethod::POST, "/", b"{\"range_test\":42}");
    match ctx.validate_json::<TestPayload>() {
        ResponseRet::Value(p) => assert_eq!(p.range_test, 42),
        _ => panic!("expected the parsed value"),
    }
}

#[test]
fn validate_json_rejects_out_of_range_with_400() {
    let mut ctx = context_for(HttpMethod::POST, "/", b"{\"range_test\":1000}");
    match ctx.validate_json::<TestPayload>() {
        ResponseRet::Replace(res) => {
            assert_eq!(res.code, HttpCode::BadRequest);
            assert_eq!(res.headers.get("content-type"), Some("application/json".to_string()));
            match res.payload {
                ResponseType::Payload(p) => assert_eq!(
                    String::from_utf8(p).unwrap(),
                    "{\"type\":\"ValidationError\",\"message\":\"value out of range [0; 100]\",\"path\":[\"range_test\"]}"
                ),
                _ => panic!("expected a JSON body"),
            }
        }
        _ => panic!("expected a replacement"),
    }
    assert_eq!(ctx.res.code, HttpCode::NotSent);
}

#[test]
fn validate_json_rejects_wrong_type() {
    let mut ctx = context_for(HttpMethod::POST, "/", b"{\"range_test\":\"nope\"}");
    match ctx.validate_json::<TestPayload>() {
        ResponseRet::Replace(res) => assert_eq!(res.code, HttpCode::BadRequest),
        _ => panic!("expected a replacement"),
    }
}

#[test]
fn validate_json_rejects_invalid_utf8_body() {
    let mut ctx = context_for(HttpMethod::POST, "/", &[0xFF, 0xFE]);
    match ctx.validate_json::<TestPayload>() {
        ResponseRet::Replace(res) => {
            assert_eq!(res.code, HttpCode::BadRequest);
            match res.payload {
                ResponseType::Payload(p) => assert_eq!(
                    String::from_utf8(p).unwrap(),
                    "{\"type\":\"ValidationError\",\"message\":\"invalid UTF-8 in request body\",\"path\":[]}"
                ),
                _ => panic!("expected a JSON body"),
            }
        }
        _ => panic!("expected a replacement"),
    }
}

#[test]
fn validation_error_serializes_with_escapes() {
    let error = ValidationError {
        message: "a \"quoted\\\" line\nwith\ttabs\u{1}".to_string(),
        path: vec!["outer".to_string(), "inner".to_string()],
    };
    assert_eq!(
        error.into_json(),
        "{\"type\":\"ValidationError\",\"message\":\"a \\\"quoted\\\\\\\" line\\nwith\\ttabs\\u0001\",\"path\":[\"outer\",\"inner\"]}"
    );
}

#[test]
fn propagate_keeps_the_non_value_outcome() {
    let cont: ResponseRet<i32> = ResponseRet::Continue;
    assert!(matches!(cont.propagate::<u8>(), ResponseRet::Continue));
    let rep: ResponseRet<i32> =
        ResponseRet::Replace(dc_api_core::entity::Response::from_status(HttpCode::NotFound));
    match rep.propagate::<u8>() {
        ResponseRet::Replace(res) => assert_eq!(res.code, HttpCode::NotFound),
        _ => panic!("expected the replacement to survive"),
    }
}

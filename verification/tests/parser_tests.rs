use dc_api_core::codes::HttpCode;
use dc_api_core::entity::{HttpMethod, ParsingResult};
use dc_api_core::http1::Http1Engine;

fn parse(bytes: &[u8], eof: bool) -> ParsingResult {
    let mut engine = Http1Engine::new();
    engine.parse(&bytes.to_vec(), eof)
}

#[test]
fn parses_minimal_get() {
    match parse(b"GET /hello HTTP/1.1\r\n\r\n", false) {
        ParsingResult::Complete(req) => {
            assert!(matches!(req.method, HttpMethod::GET));
            assert_eq!(req.path, "/hello");
            assert_eq!(req.query, "");
            assert_eq!(req.body.len(), 0);
        }
        _ => panic!("expected a complete request"),
    }
}

#[test]
fn splits_query_at_first_question_mark() {
    match parse(b"GET /a?b=c?d HTTP/1.1\r\n\r\n", false) {
        ParsingResult::Complete(req) => {
            assert_eq!(req.path, "/a");
            assert_eq!(req.query, "b=c?d");
        }
        _ => panic!("expected a complete request"),
    }
}

#[test]
fn headers_are_lowercased_and_trimmed() {
    let raw = b"GET / HTTP/1.1\r\nHost: example.com\r\nX-ToKeN:abc\r\n\r\n";
    match parse(raw, false) {
        ParsingResult::Complete(req) => {
            assert_eq!(req.headers.get("host"), Some("example.com".to_string()));
            assert_eq!(req.headers.get("x-token"), Some("abc".to_string()));
            assert_eq!(req.headers.get("Host"), None);
        }
        _ => panic!("expected a complete request"),
    }
}

#[test]
fn post_reads_exactly_content_length_bytes() {
    let raw = b"POST /x HTTP/1.1\r\nContent-Length: 5\r\n\r\nhello";
    match parse(raw, false) {
        ParsingResult::Complete(req) => {
            assert!(matches!(req.method, HttpMethod::POST));
            assert_eq!(req.body, b"hello".to_vec());
        }
        _ => panic!("expected a complete request"),
    }
}

#[test]
fn post_body_arrives_across_reads() {
    let full: &[u8] = b"POST /x HTTP/1.1\r\nContent-Length: 5\r\n\r\nhello";
    let mut engine = Http1Engine::new();
    let mut buffer: Vec<u8> = Vec::new();
    let mut outcome = None;
    for chunk in full.chunks(7) {
        buffer.extend_from_slice(chunk);
        match engine.parse(&buffer, false) {
            ParsingResult::Partial => continue,
            other => {
                outcome = Some(other);
                break;
            }
        }
    }
    match outcome.expect("the full buffer should parse") {
        ParsingResult::Complete(req) => assert_eq!(req.body, b"hello".to_vec()),
        _ => panic!("expected a complete request"),
    }
}

#[test]
fn post_with_excess_bytes_keeps_declared_length() {
    let raw = b"POST /x HTTP/1.1\r\nContent-Length: 2\r\n\r\nhello";
    match parse(raw, false) {
        ParsingResult::Complete(req) => assert_eq!(req.body, b"he".to_vec()),
        _ => panic!("expected a complete request"),
    }
}

#[test]
fn post_without_length_waits_for_eof() {
    let raw = b"POST /x HTTP/1.1\r\n\r\nabc";
    assert!(matches!(parse(raw, false), ParsingResult::Partial));
    match parse(raw, true) {
        ParsingResult::Complete(req) => assert_eq!(req.body, b"abc".to_vec()),
        _ => panic!("expected a complete request"),
    }
}

#[test]
fn post_with_short_body_is_invalid_at_eof() {
    let raw = b"POST /x HTTP/1.1\r\nContent-Length: 9\r\n\r\nhi";
    assert!(matches!(parse(raw, false), ParsingResult::Partial));
    assert!(matches!(parse(raw, true), ParsingResult::Invalid));
}

#[test]
fn unknown_method_is_rejected() {
    match parse(b"PUT /x HTTP/1.1\r\n\r\n", false) {
        ParsingResult::Error(code) => assert_eq!(code, HttpCode::MethodNotAllowed),
        _ => panic!("expected a method error"),
    }
}

#[test]
fn missing_url_token_is_an_entity_error_at_eof() {
    assert!(matches!(parse(b"GET /hello", false), ParsingResult::Partial));
    match parse(b"GET /hello", true) {
        ParsingResult::Error(code) => assert_eq!(code, HttpCode::RequestEntityTooLarge),
        _ => panic!("expected an error"),
    }
}

#[test]
fn wrong_version_prefix_is_invalid() {
    assert!(matches!(parse(b"GET / XTTP/1.1\r\n\r\n", false), ParsingResult::Invalid));
}

#[test]
fn missing_carriage_return_is_invalid() {
    assert!(matches!(parse(b"GET / HTTP/1.1x\n\r\n", false), ParsingResult::Invalid));
}

#[test]
fn header_without_colon_is_a_fields_error_at_eof() {
    let raw = b"GET / HTTP/1.1\r\nBadHeader";
    assert!(matches!(parse(raw, false), ParsingResult::Partial));
    match parse(raw, true) {
        ParsingResult::Error(code) => assert_eq!(code, HttpCode::RequestHeaderFieldsTooLarge),
        _ => panic!("expected a header error"),
    }
}

#[test]
fn empty_input_is_partial_then_invalid() {
    assert!(matches!(parse(b"", false), ParsingResult::Partial));
    assert!(matches!(parse(b"", true), ParsingResult::Invalid));
}

#[test]
fn engine_remembers_version_minor() {
    let mut engine = Http1Engine::new();
    assert_eq!(engine.version_minor, 0);
    let raw = b"GET / HTTP/1.0\r\n\r\n".to_vec();
    assert!(matches!(engine.parse(&raw, false), ParsingResult::Complete(_)));
    assert_eq!(engine.version_minor, b'0');
}

#[test]
fn lossy_decoding_replaces_invalid_utf8() {
    let mut raw = b"GET / HTTP/1.1\r\nx-tag: a".to_vec();
    raw.push(0xFF);
    raw.extend_from_slice(b"b\r\n\r\n");
    match parse(&raw, false) {
        ParsingResult::Complete(req) => {
            assert_eq!(req.headers.get("x-tag"), Some("a\u{FFFD}b".to_string()));
        }
        _ => panic!("expected a complete request"),
    }
}

#[test]
fn bad_content_length_falls_back_to_eof_body() {
    let raw = b"POST /x HTTP/1.1\r\nContent-Length: zzz\r\n\r\nab";
    assert!(matches!(parse(raw, false), ParsingResult::Partial));
    match parse(raw, true) {
        ParsingResult::Complete(req) => assert_eq!(req.body, b"ab".to_vec()),
        _ => panic!("expected a complete request"),
    }
}

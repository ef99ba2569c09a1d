use dc_api_core::codes::HttpCode;
use dc_api_core::entity::{HttpMethod, Request, Response, ResponseType};
use dc_api_core::registry::DatabaseConnections;
use dc_api_core::config::Config;
use dc_api_core::cors::CorsConfig;
use dc_api_core::bindings::{camel_to_kebab, ModelField, ModelFieldType, ModelMeta};

#[test]
fn method_tokens_are_a_closed_set() {
    assert!(matches!(HttpMethod::from_str("GET"), Some(HttpMethod::GET)));
    assert!(matches!(HttpMethod::from_str("POST"), Some(HttpMethod::POST)));
    assert!(matches!(HttpMethod::from_str("OPTIONS"), Some(HttpMethod::OPTIONS)));
    assert!(HttpMethod::from_str("get").is_none());
    assert!(HttpMethod::from_str("PUT").is_none());
}

#[test]
fn request_new_splits_url_once() {
    let req = Request::new(HttpMethod::GET, "/p?x=1&y=2".to_string());
    assert_eq!(req.path, "/p");
    assert_eq!(req.query, "x=1&y=2");
    let plain = Request::new(HttpMethod::GET, "/p".to_string());
    assert_eq!(plain.path, "/p");
    assert_eq!(plain.query, "");
}

#[test]
fn content_length_needs_digits() {
    let mut req = Request::new(HttpMethod::POST, "/".to_string());
    req.headers.set_normal("Content-Length".to_string(), " 12".to_string());
    assert_eq!(req.parse_content_length(), Some(12));
    req.headers.set_normal("Content-Length".to_string(), "x9".to_string());
    assert_eq!(req.parse_content_length(), None);
    req.headers.set_normal("Content-Length".to_string(), "".to_string());
    assert_eq!(req.parse_content_length(), None);
}

#[test]
fn response_constructors_fill_their_fields() {
    let empty = Response::empty();
    assert_eq!(empty.code, HttpCode::NotSent);
    assert!(matches!(empty.payload, ResponseType::NoContent));

    let coded = Response::from_code(HttpCode::BadRequest, "nope");
    assert_eq!(coded.code, HttpCode::BadRequest);
    assert_eq!(coded.headers.get("content-type"), Some("text/plain".to_string()));

    let status = Response::from_status(HttpCode::OK);
    assert_eq!(status.headers.len(), 0);
    assert!(matches!(status.payload, ResponseType::NoContent));

    let dropped = Response::drop();
    assert!(matches!(dropped.payload, ResponseType::Drop));
}

#[test]
fn status_descriptions_match_the_wire() {
    assert_eq!(HttpCode::OK.get_description(), ("200", "OK"));
    assert_eq!(HttpCode::NotFound.get_description(), ("404", "Not Found"));
    assert_eq!(HttpCode::MethodNotAllowed.get_description(), ("405", "Method Not Allowed"));
    assert_eq!(
        HttpCode::RequestEntityTooLarge.get_description(),
        ("413", "Request Entity Too Large")
    );
    assert_eq!(
        HttpCode::RequestHeaderFieldsTooLarge.get_description(),
        ("431", "Request Header Fields Too Large")
    );
}

#[test]
fn registry_replaces_on_same_key() {
    let mut reg: DatabaseConnections<u32> = DatabaseConnections::new();
    assert!(reg.find("primary").is_none());
    reg.register("primary".to_string(), 1);
    reg.register("backup".to_string(), 2);
    reg.register("primary".to_string(), 3);
    assert_eq!(reg.len(), 2);
    assert_eq!(reg.find("primary"), Some(&3));
    assert_eq!(reg.find("backup"), Some(&2));
    assert_eq!(reg.find("missing"), None);
}

#[test]
fn config_resolution_prefers_environment() {
    assert_eq!(Config::resolve_port(Some(9000), Some(8000)), 9000);
    assert_eq!(Config::resolve_port(None, Some(8000)), 8000);
    assert_eq!(Config::resolve_port(None, None), 8081);
    assert_eq!(Config::resolve_host(None), "127.0.0.1");
    assert_eq!(Config::resolve_host(Some("0.0.0.0".to_string())), "0.0.0.0");
    let cfg = Config::from_parts(
        None,
        Some(8000),
        None,
        CorsConfig::from_parts(None, None, None, None),
    );
    assert_eq!(cfg.host, "127.0.0.1");
    assert_eq!(cfg.port, 8000);
    let defaults = Config::default();
    assert_eq!(defaults.host, "127.0.0.1");
    assert_eq!(defaults.port, 8081);
}

#[test]
fn camel_to_kebab_renames_models() {
    assert_eq!(camel_to_kebab("MyModelName"), "my-model-name");
    assert_eq!(camel_to_kebab("camelCase"), "camel-case");
    assert_eq!(camel_to_kebab("ABC"), "abc");
    assert_eq!(camel_to_kebab("plain"), "plain");
    assert_eq!(camel_to_kebab(""), "");
}

#[test]
fn model_meta_collects_fields_in_order() {
    let mut meta = ModelMeta::new("user".to_string());
    assert_eq!(meta.get_name(), "user");
    meta.add_field(ModelField {
        name: "id".to_string(),
        type_id: ModelFieldType::U64,
        length: 0,
        optional: false,
        enum_values: Vec::new(),
    });
    meta.add_field(ModelField {
        name: "role".to_string(),
        type_id: ModelFieldType::Enum,
        length: 2,
        optional: true,
        enum_values: vec!["admin".to_string(), "guest".to_string()],
    });
    let fields = meta.get_fields();
    assert_eq!(fields.len(), 2);
    assert_eq!(fields[0].name, "id");
    assert!(matches!(fields[1].type_id, ModelFieldType::Enum));
    assert_eq!(fields[1].enum_values, vec!["admin".to_string(), "guest".to_string()]);
}

#[test]
fn content_length_over_usize_is_rejected() {
    let mut req = Request::new(HttpMethod::POST, "/".to_string());
    req.headers.set_normal(
        "Content-Length".to_string(),
        "99999999999999999999999999".to_string(),
    );
    assert_eq!(req.parse_content_length(), None);
}

#[test]
fn content_length_rejects_sign_characters() {
    let mut req = Request::new(HttpMethod::POST, "/".to_string());
    req.headers.set_normal("Content-Length".to_string(), "+5".to_string());
    assert_eq!(req.parse_content_length(), None);
}

use dc_api_core::headers::HttpHeaders;

#[test]
fn set_normal_twice_keeps_one_entry() {
    let mut h = HttpHeaders::empty();
    h.set_normal("X-Token".to_string(), "abc".to_string());
    h.set_normal("x-token".to_string(), "abc".to_string());
    assert_eq!(h.len(), 1);
    assert_eq!(h.get("x-token"), Some("abc".to_string()));
}

#[test]
fn set_replaces_on_exact_name() {
    let mut h = HttpHeaders::empty();
    h.set("Accept".to_string(), "a".to_string());
    h.set("Accept".to_string(), "b".to_string());
    assert_eq!(h.len(), 1);
    assert_eq!(h.get("Accept"), Some("b".to_string()));
}

#[test]
fn set_is_case_sensitive() {
    let mut h = HttpHeaders::empty();
    h.set("Accept".to_string(), "a".to_string());
    h.set("accept".to_string(), "b".to_string());
    assert_eq!(h.len(), 2);
    assert_eq!(h.get("Accept"), Some("a".to_string()));
    assert_eq!(h.get("accept"), Some("b".to_string()));
}

#[test]
fn set_default_appends_only_when_absent() {
    let mut h = HttpHeaders::empty();
    h.set_default("content-type".to_string(), "text/plain".to_string());
    h.set_default("content-type".to_string(), "application/json".to_string());
    assert_eq!(h.len(), 1);
    assert_eq!(h.get("content-type"), Some("text/plain".to_string()));
}

#[test]
fn set_normal_lowercases_and_trims() {
    let mut h = HttpHeaders::empty();
    h.set_normal("Content-Length".to_string(), "  5".to_string());
    assert_eq!(h.get("content-length"), Some("5".to_string()));
    assert_eq!(h.get("Content-Length"), None);
}

#[test]
fn remove_drops_first_match_case_insensitively() {
    let mut h = HttpHeaders::empty();
    h.set("session".to_string(), "s1".to_string());
    h.set("other".to_string(), "x".to_string());
    h.remove("SESSION".to_string());
    assert_eq!(h.len(), 1);
    assert_eq!(h.get("session"), None);
    assert_eq!(h.get("other"), Some("x".to_string()));
}

#[test]
fn from_type_sets_content_type() {
    let h = HttpHeaders::from_type("application/json");
    assert_eq!(h.len(), 1);
    assert_eq!(h.get("content-type"), Some("application/json".to_string()));
}

#[test]
fn with_type_respects_existing_entry() {
    let mut h = HttpHeaders::empty();
    h.set("content-type".to_string(), "text/html".to_string());
    let h = h.with_type("text/plain");
    assert_eq!(h.get("content-type"), Some("text/html".to_string()));
}

#[test]
fn entries_keep_insertion_order() {
    let mut h = HttpHeaders::empty();
    h.set("a".to_string(), "1".to_string());
    h.set("b".to_string(), "2".to_string());
    h.set("a".to_string(), "3".to_string());
    let entries = h.entries();
    assert_eq!(entries.len(), 2);
    assert_eq!(entries[0].name, "a");
    assert_eq!(entries[0].value, "3");
    assert_eq!(entries[1].name, "b");
}

use httpie_lite::render::{body_is_json, is_json_media_type, render_body, render_json, FormatError};

#[test]
fn json_body_is_reindented() {
    let out = render_body(Some("application/json"), "{\"a\":1}").unwrap();
    assert_eq!(out, "{\n  \"a\": 1\n}");
    assert!(out.lines().count() > 1);
}

#[test]
fn plain_text_body_is_unchanged() {
    assert_eq!(render_body(Some("text/plain"), "hello").unwrap(), "hello");
}

#[test]
fn missing_content_type_means_plain_text() {
    assert_eq!(render_body(None, "{\"a\":1}").unwrap(), "{\"a\":1}");
}

#[test]
fn json_with_parameters_is_not_reindented() {
    let body = "{\"a\":1}";
    assert_eq!(render_body(Some("application/json; charset=utf-8"), body).unwrap(), body);
}

#[test]
fn content_type_is_normalised_before_comparing() {
    assert_eq!(body_is_json(Some("Application/JSON")).unwrap(), true);
    assert_eq!(body_is_json(Some("text/html")).unwrap(), false);
    assert_eq!(body_is_json(None).unwrap(), false);
}

#[test]
fn invalid_content_type_is_an_error() {
    match render_body(Some("not a media type"), "x") {
        Err(FormatError::InvalidContentType(h)) => assert_eq!(h, "not a media type"),
        other => panic!("unexpected {:?}", other),
    }
}

#[test]
fn json_media_type_is_exact() {
    assert!(is_json_media_type("application/json"));
    assert!(!is_json_media_type("application/json5"));
    assert!(!is_json_media_type("text/json"));
}

#[test]
fn render_json_reindents_nested_values() {
    let out = render_json("{\"empty\":{},\"one\":[1]}").unwrap();
    assert_eq!(out, "{\n  \"empty\": {},\n  \"one\": [\n    1\n  ]\n}");
}

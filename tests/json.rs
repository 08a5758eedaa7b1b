use httpie_lite::json::json_bytes_valid;
use httpie_lite::render::{render_body, FormatError};

fn valid(s: &str) -> bool {
    json_bytes_valid(s.as_bytes())
}

#[test]
fn accepts_json_values() {
    for s in [
        "{\"a\":1}",
        " [1, -2.5e+3, 0, 0.25, 3E2] ",
        "{\"k\": {\"n\": null, \"t\": true, \"f\": false}, \"s\": \"x\\\"\\u00e9\\n\"}",
        "\"caf\u{e9}\"",
        "[]",
        "{}",
        "-0",
    ] {
        assert!(valid(s), "{}", s);
    }
}

#[test]
fn refuses_non_json() {
    for s in [
        "", "not json", "{\"a\":1", "[1,]", "{\"a\" 1}", "{a:1}", "01", "1.", "-", "1e",
        "tru", "nul", "[1] 2", "\"\\x\"", "\"\\u12g4\"", "{\"a\":1]", "[}", "\"a\nb\"",
    ] {
        assert!(!valid(s), "{:?}", s);
    }
}

#[test]
fn json_labelled_non_json_body_is_an_error() {
    match render_body(Some("application/json"), "not json") {
        Err(FormatError::InvalidJson(_)) => {}
        other => panic!("unexpected {:?}", other),
    }
}

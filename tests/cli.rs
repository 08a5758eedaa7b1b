use httpie_lite::cli::{parse_body_kv_pair, parse_url, ParseError, PostBodyKVPair};

fn pair(s: &str) -> (String, String) {
    let p = parse_body_kv_pair(s).unwrap();
    (p.key, p.value)
}

#[test]
fn accepts_absolute_urls() {
    assert_eq!(parse_url("https://example.com").unwrap(), "https://example.com");
    assert_eq!(
        parse_url("http://localhost:8080/path?q=1").unwrap(),
        "http://localhost:8080/path?q=1"
    );
}

#[test]
fn rejects_url_without_scheme() {
    match parse_url("example.com/path") {
        Err(ParseError::InvalidUrl(u)) => assert_eq!(u, "example.com/path"),
        other => panic!("unexpected {:?}", other),
    }
    assert!(parse_url("").is_err());
}

#[test]
fn rejects_url_without_host() {
    assert!(parse_url("http://").is_err());
    assert!(parse_url("https://").is_err());
    assert!(parse_url("mailto:a@b.c").is_err());
    assert!(parse_url("data:text/plain,x").is_err());
}

#[test]
fn rejects_relative_references() {
    assert!(parse_url("/path").is_err());
    assert!(parse_url("//host/p").is_err());
    assert!(parse_url("/a:b").is_err());
}

#[test]
fn all_whitespace_is_removed() {
    assert_eq!(pair("a\t=\tb"), ("a".to_string(), "b".to_string()));
    assert_eq!(pair("a\t=b=c"), ("a".to_string(), "b=c".to_string()));
    assert!(parse_body_kv_pair("a=\t").is_err());
    assert!(parse_body_kv_pair("\n=b").is_err());
}

#[test]
fn splits_simple_pair() {
    assert_eq!(pair("a=b"), ("a".to_string(), "b".to_string()));
}

#[test]
fn only_first_equals_splits() {
    assert_eq!(pair("a=b=c"), ("a".to_string(), "b=c".to_string()));
}

#[test]
fn spaces_are_removed() {
    assert_eq!(pair(" na me = va lue "), ("name".to_string(), "value".to_string()));
}

#[test]
fn from_str_agrees_with_parse_body_kv_pair() {
    let p = PostBodyKVPair::from_str("k=v").unwrap();
    assert_eq!((p.key, p.value), ("k".to_string(), "v".to_string()));
}

#[test]
fn rejects_token_without_equals() {
    match parse_body_kv_pair("abc") {
        Err(ParseError::InvalidPair(t)) => assert_eq!(t, "abc"),
        other => panic!("unexpected {:?}", other),
    }
}

#[test]
fn rejects_empty_key_or_value() {
    assert!(parse_body_kv_pair("=b").is_err());
    assert!(parse_body_kv_pair("a=").is_err());
    assert!(parse_body_kv_pair("=").is_err());
    assert!(parse_body_kv_pair(" = ").is_err());
    assert!(parse_body_kv_pair("").is_err());
}

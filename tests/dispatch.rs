use httpie_lite::cli::PostBodyKVPair;
use httpie_lite::dispatch::post_body;

fn kv(k: &str, v: &str) -> PostBodyKVPair {
    PostBodyKVPair { key: k.to_string(), value: v.to_string() }
}

fn entries(e: &[(&str, &str)]) -> Vec<(String, String)> {
    e.iter().map(|(k, v)| (k.to_string(), v.to_string())).collect()
}

#[test]
fn body_holds_each_pair() {
    let body = post_body(&vec![kv("x", "1"), kv("y", "2")]);
    assert_eq!(body, entries(&[("x", "1"), ("y", "2")]));
}

#[test]
fn last_duplicate_key_wins() {
    let body = post_body(&vec![kv("x", "1"), kv("x", "2")]);
    assert_eq!(body, entries(&[("x", "2")]));
}

#[test]
fn duplicate_among_others_keeps_last_value() {
    let mut body = post_body(&vec![kv("a", "1"), kv("b", "2"), kv("a", "3")]);
    body.sort();
    assert_eq!(body, entries(&[("a", "3"), ("b", "2")]));
}

#[test]
fn empty_pairs_give_empty_body() {
    assert!(post_body(&vec![]).is_empty());
}

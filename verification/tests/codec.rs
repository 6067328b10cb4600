use twitter_api::error::Error;
use twitter_api::query::{encode_query, split_query, ParamMap};

#[test]
fn round_trip_simple_mapping() {
    let mut m = ParamMap::new();
    m.insert("alpha".to_string(), "one".to_string());
    m.insert("beta".to_string(), "two".to_string());
    let encoded = encode_query(&m);
    assert_eq!(encoded.as_str(), "alpha=one&beta=two");
    let decoded = split_query(encoded.as_str()).unwrap();
    assert_eq!(decoded.len(), 2);
    assert_eq!(decoded.get("alpha").unwrap().as_str(), "one");
    assert_eq!(decoded.get("beta").unwrap().as_str(), "two");
}

#[test]
fn round_trip_single_pair_exact() {
    let mut m = ParamMap::new();
    m.insert("a".to_string(), "1".to_string());
    assert_eq!(encode_query(&m).as_str(), "a=1");
    let decoded = split_query("a=1").unwrap();
    assert_eq!(decoded.len(), 1);
    assert_eq!(decoded.get("a").unwrap().as_str(), "1");
}

#[test]
fn split_query_token_body() {
    let m = split_query("oauth_token=abc&oauth_token_secret=xyz").unwrap();
    assert_eq!(m.get("oauth_token").unwrap().as_str(), "abc");
    assert_eq!(m.get("oauth_token_secret").unwrap().as_str(), "xyz");
}

#[test]
fn split_query_later_duplicate_overwrites() {
    let m = split_query("k=first&k=second").unwrap();
    assert_eq!(m.len(), 1);
    assert_eq!(m.get("k").unwrap().as_str(), "second");
}

#[test]
fn split_query_segment_without_equals_is_parse_error() {
    let r = split_query("justakey");
    assert!(matches!(r, Err(Error::Parse)));
    let r2 = split_query("a=1&nopair&b=2");
    assert!(matches!(r2, Err(Error::Parse)));
}

#[test]
fn split_query_empty_body_is_parse_error() {
    assert!(matches!(split_query(""), Err(Error::Parse)));
}

#[test]
fn split_query_splits_on_first_equals_only() {
    let m = split_query("k=a=b").unwrap();
    assert_eq!(m.get("k").unwrap().as_str(), "a=b");
}

#[test]
fn split_query_empty_key_and_value() {
    let m = split_query("=v&k=").unwrap();
    assert_eq!(m.get("").unwrap().as_str(), "v");
    assert_eq!(m.get("k").unwrap().as_str(), "");
}

#[test]
fn insert_overwrites_in_place() {
    let mut m = ParamMap::new();
    m.insert("k".to_string(), "1".to_string());
    m.insert("k".to_string(), "2".to_string());
    assert_eq!(m.len(), 1);
    assert_eq!(m.get("k").unwrap().as_str(), "2");
    assert!(m.get("missing").is_none());
}

#[test]
fn encode_empty_mapping_is_empty_string() {
    let m = ParamMap::new();
    assert_eq!(encode_query(&m).as_str(), "");
}

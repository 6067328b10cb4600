use twitter_api::error::Error;
use twitter_api::flow::{
    access_token_params, access_token_url, get_authorize_url, parse_access_token_response,
    parse_request_token_response, request_token_url, RequestToken,
};

#[test]
fn request_token_from_body() {
    let t = parse_request_token_response("oauth_token=abc&oauth_token_secret=xyz").unwrap();
    assert_eq!(t.key.as_str(), "abc");
    assert_eq!(t.secret.as_str(), "xyz");
}

#[test]
fn access_token_from_body() {
    let t = parse_access_token_response("oauth_token=abc&oauth_token_secret=xyz").unwrap();
    assert_eq!(t.key.as_str(), "abc");
    assert_eq!(t.secret.as_str(), "xyz");
}

#[test]
fn token_body_with_extra_fields() {
    let t = parse_request_token_response(
        "oauth_token=tok&oauth_token_secret=sec&oauth_callback_confirmed=true",
    )
    .unwrap();
    assert_eq!(t.key.as_str(), "tok");
    assert_eq!(t.secret.as_str(), "sec");
}

#[test]
fn missing_secret_is_schema_error() {
    let r = parse_request_token_response("oauth_token=abc");
    assert!(matches!(r, Err(Error::Schema)));
}

#[test]
fn missing_token_is_schema_error() {
    let r = parse_access_token_response("oauth_token_secret=xyz&other=1");
    assert!(matches!(r, Err(Error::Schema)));
}

#[test]
fn unsplittable_body_is_parse_error() {
    let r = parse_request_token_response("no separators here");
    assert!(matches!(r, Err(Error::Parse)));
}

#[test]
fn authorize_url_appends_token_key() {
    let t = RequestToken { key: "abc".to_string(), secret: "xyz".to_string() };
    let url = get_authorize_url(&t);
    assert_eq!(url.as_str(), "https://api.twitter.com/oauth/authorize?oauth_token=abc");
}

#[test]
fn verifier_parameter_carries_the_pin() {
    let p = access_token_params("7431");
    assert_eq!(p.len(), 1);
    assert_eq!(p.get("oauth_verifier").unwrap().as_str(), "7431");
}

#[test]
fn oauth_endpoints_are_fixed() {
    assert_eq!(request_token_url().as_str(), "https://api.twitter.com/oauth/request_token");
    assert_eq!(access_token_url().as_str(), "https://api.twitter.com/oauth/access_token");
}

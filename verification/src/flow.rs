//! The three-legged OAuth handshake: endpoint URLs, authorization-URL
//! construction, request parameters, and token-response decoding.
//!
//! The flow's order is enforced by the types: only
//! `parse_request_token_response` yields a `RequestToken`, the only
//! value the authorization and access-token legs accept; only
//! `parse_access_token_response` yields an `AccessToken`, which every
//! domain action requires. Exchanging an access token before holding a
//! request token therefore cannot be written down.

use vstd::prelude::*;
use crate::error::Error;
use crate::query::{spec_pairs_map, spec_split_query, split_query, ParamMap};

verus! {

/// An opaque key/secret pair identifying the calling application,
/// supplied by the caller and never produced here.
#[derive(Debug, Clone)]
pub struct Token {
    pub key: String,
    pub secret: String,
}

/// The credential the first leg of the handshake yields; it only
/// authorizes asking the end user for a verifier.
#[derive(Debug, Clone)]
pub struct RequestToken {
    pub key: String,
    pub secret: String,
}

/// The credential the final leg yields; it authorizes domain actions on
/// behalf of the end user.
#[derive(Debug, Clone)]
pub struct AccessToken {
    pub key: String,
    pub secret: String,
}

/// The request-token endpoint.
pub fn request_token_url() -> (r: String)
    ensures
        r@ == "https://api.twitter.com/oauth/request_token"@,
{
    String::from_str("https://api.twitter.com/oauth/request_token")
}

/// The access-token endpoint.
pub fn access_token_url() -> (r: String)
    ensures
        r@ == "https://api.twitter.com/oauth/access_token"@,
{
    String::from_str("https://api.twitter.com/oauth/access_token")
}

/// Where `get_authorize_url` points the end user.
pub open spec fn spec_authorize_url(key: Seq<char>) -> Seq<char> {
    "https://api.twitter.com/oauth/authorize"@ + "?oauth_token="@ + key
}

/// The URL the end user must visit to authorize the request token:
/// the authorize endpoint with the token's key as `oauth_token`.
pub fn get_authorize_url(request: &RequestToken) -> (r: String)
    ensures
        r@ == spec_authorize_url(request.key@),
{
    let mut r = String::from_str("https://api.twitter.com/oauth/authorize");
    r.append("?oauth_token=");
    r.append(request.key.as_str());
    proof {
        assert(r@ =~= spec_authorize_url(request.key@));
    }
    r
}

/// The single parameter the access-token leg carries: the verifier PIN
/// the end user retrieved after authorizing.
pub fn access_token_params(pin: &str) -> (r: ParamMap)
    ensures
        r.wf(),
        r.as_map() == Map::<Seq<char>, Seq<char>>::empty().insert("oauth_verifier"@, pin@),
{
    let mut m = ParamMap::new();
    m.insert(String::from_str("oauth_verifier"), String::from_str(pin));
    m
}

/// The token and secret of a token-endpoint response body, when both
/// required fields are present.
pub open spec fn spec_token_fields(s: Seq<char>) -> Option<(Seq<char>, Seq<char>)> {
    match spec_split_query(s) {
        None => None,
        Some(ps) => {
            let m = spec_pairs_map(ps);
            if m.contains_key("oauth_token"@) && m.contains_key("oauth_token_secret"@) {
                Some((m["oauth_token"@], m["oauth_token_secret"@]))
            } else {
                None
            }
        },
    }
}

/// Decode a request-token response body: a `key=value&...` string that
/// must carry `oauth_token` and `oauth_token_secret`. A body that does
/// not split is a parse error; a missing field is a schema error.
pub fn parse_request_token_response(body: &str) -> (r: Result<RequestToken, Error>)
    ensures
        match r {
            Ok(t) => spec_token_fields(body@) == Some((t.key@, t.secret@)),
            Err(e) => match e {
                Error::Parse => spec_split_query(body@) is None,
                Error::Schema => spec_split_query(body@) is Some && spec_token_fields(
                    body@,
                ) is None,
                _ => false,
            },
        },
{
    let m = match split_query(body) {
        Ok(m) => m,
        Err(_) => {
            return Err(Error::Parse);
        },
    };
    let tok = match m.get("oauth_token") {
        Some(t) => t.clone(),
        None => {
            return Err(Error::Schema);
        },
    };
    let sec = match m.get("oauth_token_secret") {
        Some(t) => t.clone(),
        None => {
            return Err(Error::Schema);
        },
    };
    Ok(RequestToken { key: tok, secret: sec })
}

/// Decode an access-token response body; same wire shape as the
/// request-token leg, but it yields the final credential.
pub fn parse_access_token_response(body: &str) -> (r: Result<AccessToken, Error>)
    ensures
        match r {
            Ok(t) => spec_token_fields(body@) == Some((t.key@, t.secret@)),
            Err(e) => match e {
                Error::Parse => spec_split_query(body@) is None,
                Error::Schema => spec_split_query(body@) is Some && spec_token_fields(
                    body@,
                ) is None,
                _ => false,
            },
        },
{
    let m = match split_query(body) {
        Ok(m) => m,
        Err(_) => {
            return Err(Error::Parse);
        },
    };
    let tok = match m.get("oauth_token") {
        Some(t) => t.clone(),
        None => {
            return Err(Error::Schema);
        },
    };
    let sec = match m.get("oauth_token_secret") {
        Some(t) => t.clone(),
        None => {
            return Err(Error::Schema);
        },
    };
    Ok(AccessToken { key: tok, secret: sec })
}

} // verus!

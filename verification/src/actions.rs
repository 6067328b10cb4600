//! The domain actions' request shapes: each action's fixed endpoint and
//! the exact parameter mapping it sends. The signed transport that
//! carries them is the caller's capability.

use vstd::prelude::*;
use crate::chars::push_char;
use crate::query::ParamMap;

verus! {

/// The status-update endpoint.
pub fn update_status_url() -> (r: String)
    ensures
        r@ == "https://api.twitter.com/1.1/statuses/update.json"@,
{
    String::from_str("https://api.twitter.com/1.1/statuses/update.json")
}

/// The direct-message-create endpoint.
pub fn direct_message_url() -> (r: String)
    ensures
        r@ == "https://api.twitter.com/1.1/direct_messages/new.json"@,
{
    String::from_str("https://api.twitter.com/1.1/direct_messages/new.json")
}

/// The direct-message-list endpoint.
pub fn direct_messages_url() -> (r: String)
    ensures
        r@ == "https://api.twitter.com/1.1/direct_messages.json"@,
{
    String::from_str("https://api.twitter.com/1.1/direct_messages.json")
}

/// The home-timeline endpoint.
pub fn home_timeline_url() -> (r: String)
    ensures
        r@ == "https://api.twitter.com/1.1/statuses/home_timeline.json"@,
{
    String::from_str("https://api.twitter.com/1.1/statuses/home_timeline.json")
}

/// Posting a status sends exactly `status = <text>`.
pub fn update_status_params(status: &str) -> (r: ParamMap)
    ensures
        r.wf(),
        r.as_map() == Map::<Seq<char>, Seq<char>>::empty().insert("status"@, status@),
{
    let mut m = ParamMap::new();
    m.insert(String::from_str("status"), String::from_str(status));
    m
}

/// Sending a direct message sends exactly `text` and `screen_name`.
pub fn direct_message_params(text: &str, screen_name: &str) -> (r: ParamMap)
    ensures
        r.wf(),
        r.as_map() == Map::<Seq<char>, Seq<char>>::empty().insert("text"@, text@).insert(
            "screen_name"@,
            screen_name@,
        ),
{
    let mut m = ParamMap::new();
    m.insert(String::from_str("text"), String::from_str(text));
    m.insert(String::from_str("screen_name"), String::from_str(screen_name));
    m
}

/// Listing the home timeline sends exactly `tweet_mode = extended`, so
/// the service returns the untruncated text field.
pub fn home_timeline_params() -> (r: ParamMap)
    ensures
        r.wf(),
        r.as_map() == Map::<Seq<char>, Seq<char>>::empty().insert("tweet_mode"@, "extended"@),
{
    let mut m = ParamMap::new();
    m.insert(String::from_str("tweet_mode"), String::from_str("extended"));
    m
}

/// The character of a decimal digit.
pub open spec fn spec_digit_char(d: u64) -> char {
    ((48 + d) as u8) as char
}

/// The decimal notation of `n`, most significant digit first.
pub open spec fn spec_u64_dec(n: u64) -> Seq<char>
    decreases n,
{
    if n < 10 {
        seq![spec_digit_char(n)]
    } else {
        spec_u64_dec(n / 10).push(spec_digit_char(n % 10))
    }
}

/// `n` in decimal notation.
pub fn u64_to_dec(n: u64) -> (r: String)
    ensures
        r@ == spec_u64_dec(n),
    decreases n,
{
    if n < 10 {
        let mut s = String::new();
        let d = (48 + n) as u8;
        push_char(&mut s, d as char);
        proof {
            assert(s@ =~= seq![spec_digit_char(n)]);
        }
        s
    } else {
        let mut s = u64_to_dec(n / 10);
        let d = (48 + n % 10) as u8;
        push_char(&mut s, d as char);
        s
    }
}

/// Where deleting the status with the given id posts to.
pub open spec fn spec_destroy_status_url(id: u64) -> Seq<char> {
    "https://api.twitter.com/1.1/statuses/destroy/"@ + spec_u64_dec(id) + ".json"@
}

/// The status-destroy endpoint for one status: the destroy prefix, the
/// id in decimal, then `.json`. Deleting sends no parameters.
pub fn destroy_status_url(id: u64) -> (r: String)
    ensures
        r@ == spec_destroy_status_url(id),
{
    let mut r = String::from_str("https://api.twitter.com/1.1/statuses/destroy/");
    let digits = u64_to_dec(id);
    r.append(digits.as_str());
    r.append(".json");
    proof {
        assert(r@ =~= spec_destroy_status_url(id));
    }
    r
}

} // verus!

use twitter_api::actions::{
    destroy_status_url, direct_message_params, direct_message_url, direct_messages_url,
    home_timeline_params, home_timeline_url, u64_to_dec, update_status_params, update_status_url,
};

#[test]
fn destroy_url_embeds_the_id() {
    assert_eq!(
        destroy_status_url(12345).as_str(),
        "https://api.twitter.com/1.1/statuses/destroy/12345.json"
    );
    assert_eq!(
        destroy_status_url(0).as_str(),
        "https://api.twitter.com/1.1/statuses/destroy/0.json"
    );
    assert_eq!(
        destroy_status_url(u64::MAX).as_str(),
        "https://api.twitter.com/1.1/statuses/destroy/18446744073709551615.json"
    );
}

#[test]
fn decimal_rendering_is_exact() {
    assert_eq!(u64_to_dec(0).as_str(), "0");
    assert_eq!(u64_to_dec(10).as_str(), "10");
    assert_eq!(u64_to_dec(907).as_str(), "907");
    assert_eq!(u64_to_dec(18446744073709551615).as_str(), "18446744073709551615");
}

#[test]
fn update_status_sends_exactly_the_status() {
    let p = update_status_params("hello world");
    assert_eq!(p.len(), 1);
    assert_eq!(p.get("status").unwrap().as_str(), "hello world");
}

#[test]
fn direct_message_sends_text_and_screen_name() {
    let p = direct_message_params("psst", "bob");
    assert_eq!(p.len(), 2);
    assert_eq!(p.get("text").unwrap().as_str(), "psst");
    assert_eq!(p.get("screen_name").unwrap().as_str(), "bob");
}

#[test]
fn home_timeline_asks_for_extended_mode() {
    let p = home_timeline_params();
    assert_eq!(p.len(), 1);
    assert_eq!(p.get("tweet_mode").unwrap().as_str(), "extended");
}

#[test]
fn rest_endpoints_are_fixed() {
    assert_eq!(update_status_url().as_str(), "https://api.twitter.com/1.1/statuses/update.json");
    assert_eq!(
        direct_message_url().as_str(),
        "https://api.twitter.com/1.1/direct_messages/new.json"
    );
    assert_eq!(direct_messages_url().as_str(), "https://api.twitter.com/1.1/direct_messages.json");
    assert_eq!(
        home_timeline_url().as_str(),
        "https://api.twitter.com/1.1/statuses/home_timeline.json"
    );
}

use twitter_api::error::Error;
use twitter_api::timeline::{DirectMessage, Tweet};

#[test]
fn one_post_decodes() {
    let body = r#"[{"created_at":"t","full_text":"hi","id":1,"user":{"screen_name":"bob"}}]"#;
    let ts = Tweet::parse_timeline(body.to_string()).unwrap();
    assert_eq!(ts.len(), 1);
    assert_eq!(ts[0].id, 1);
    assert_eq!(ts[0].created_at.as_str(), "t");
    assert_eq!(ts[0].full_text.as_str(), "hi");
    assert_eq!(ts[0].user.screen_name.as_str(), "bob");
}

#[test]
fn id_as_string_is_schema_error() {
    let body = r#"[{"created_at":"t","full_text":"hi","id":"not-a-number","user":{"screen_name":"bob"}}]"#;
    let r = Tweet::parse_timeline(body.to_string());
    assert!(matches!(r, Err(Error::Schema)));
}

#[test]
fn malformed_json_is_parse_error_not_schema() {
    let r = Tweet::parse_timeline("{not json".to_string());
    assert!(matches!(r, Err(Error::Parse)));
    assert!(!matches!(r, Err(Error::Schema)));
}

#[test]
fn missing_field_in_one_of_three_fails_all() {
    let body = r#"[
        {"created_at":"a","full_text":"1","id":1,"user":{"screen_name":"u1"}},
        {"created_at":"b","id":2,"user":{"screen_name":"u2"}},
        {"created_at":"c","full_text":"3","id":3,"user":{"screen_name":"u3"}}
    ]"#;
    let r = Tweet::parse_timeline(body.to_string());
    assert!(matches!(r, Err(Error::Schema)));
}

#[test]
fn decoding_twice_gives_equal_records() {
    let body = r#"[{"created_at":"t","full_text":"hi","id":9,"user":{"screen_name":"bob"}},
                   {"created_at":"u","full_text":"ho","id":10,"user":{"screen_name":"eve"}}]"#;
    let a = Tweet::parse_timeline(body.to_string()).unwrap();
    let b = Tweet::parse_timeline(body.to_string()).unwrap();
    assert_eq!(a.len(), b.len());
    let mut i = 0;
    while i < a.len() {
        assert_eq!(a[i].created_at, b[i].created_at);
        assert_eq!(a[i].full_text, b[i].full_text);
        assert_eq!(a[i].id, b[i].id);
        assert_eq!(a[i].user.screen_name, b[i].user.screen_name);
        i += 1;
    }
}

#[test]
fn empty_array_decodes_to_no_posts() {
    let ts = Tweet::parse_timeline("[]".to_string()).unwrap();
    assert_eq!(ts.len(), 0);
    let ds = DirectMessage::parse_timeline(" [ ] ".to_string()).unwrap();
    assert_eq!(ds.len(), 0);
}

#[test]
fn top_level_object_is_schema_error() {
    let r = Tweet::parse_timeline(r#"{"a":1}"#.to_string());
    assert!(matches!(r, Err(Error::Schema)));
}

#[test]
fn trailing_garbage_is_parse_error() {
    let r = Tweet::parse_timeline("[] trailing".to_string());
    assert!(matches!(r, Err(Error::Parse)));
}

#[test]
fn unknown_fields_are_skipped() {
    let body = r#"[{"extra":{"deep":[1,2,{"x":null}]},"created_at":"t","retweeted":false,
                    "full_text":"hi","id":5,"user":{"verified":true,"screen_name":"bob"},
                    "lang":"en"}]"#;
    let ts = Tweet::parse_timeline(body.to_string()).unwrap();
    assert_eq!(ts.len(), 1);
    assert_eq!(ts[0].id, 5);
    assert_eq!(ts[0].user.screen_name.as_str(), "bob");
}

#[test]
fn later_duplicate_field_overwrites() {
    let body = r#"[{"created_at":"t","full_text":"first","full_text":"second",
                    "id":1,"user":{"screen_name":"bob"}}]"#;
    let ts = Tweet::parse_timeline(body.to_string()).unwrap();
    assert_eq!(ts[0].full_text.as_str(), "second");
}

#[test]
fn string_escapes_decode() {
    let body = "[{\"created_at\":\"a\\nb\",\"full_text\":\"q\\\"\\u0041\\t\",\"id\":1,\"user\":{\"screen_name\":\"b\\\\o\"}}]";
    let ts = Tweet::parse_timeline(body.to_string()).unwrap();
    assert_eq!(ts[0].created_at.as_str(), "a\nb");
    assert_eq!(ts[0].full_text.as_str(), "q\"A\t");
    assert_eq!(ts[0].user.screen_name.as_str(), "b\\o");
}

#[test]
fn surrogate_pair_escape_decodes() {
    let body = "[{\"created_at\":\"t\",\"full_text\":\"\\ud83d\\ude00\",\"id\":1,\"user\":{\"screen_name\":\"b\"}}]";
    let ts = Tweet::parse_timeline(body.to_string()).unwrap();
    assert_eq!(ts[0].full_text.as_str(), "\u{1F600}");
}

#[test]
fn lone_surrogate_escape_is_parse_error() {
    let body = "[{\"created_at\":\"t\",\"full_text\":\"\\ud83d\",\"id\":1,\"user\":{\"screen_name\":\"b\"}}]";
    let r = Tweet::parse_timeline(body.to_string());
    assert!(matches!(r, Err(Error::Parse)));
}

#[test]
fn id_at_u64_limit_decodes() {
    let body = r#"[{"created_at":"t","full_text":"x","id":18446744073709551615,"user":{"screen_name":"b"}}]"#;
    let ts = Tweet::parse_timeline(body.to_string()).unwrap();
    assert_eq!(ts[0].id, u64::MAX);
}

#[test]
fn id_above_u64_limit_is_schema_error() {
    let body = r#"[{"created_at":"t","full_text":"x","id":18446744073709551616,"user":{"screen_name":"b"}}]"#;
    let r = Tweet::parse_timeline(body.to_string());
    assert!(matches!(r, Err(Error::Schema)));
}

#[test]
fn fractional_or_negative_id_is_schema_error() {
    let frac = r#"[{"created_at":"t","full_text":"x","id":1.5,"user":{"screen_name":"b"}}]"#;
    assert!(matches!(Tweet::parse_timeline(frac.to_string()), Err(Error::Schema)));
    let exp = r#"[{"created_at":"t","full_text":"x","id":1e3,"user":{"screen_name":"b"}}]"#;
    assert!(matches!(Tweet::parse_timeline(exp.to_string()), Err(Error::Schema)));
    let neg = r#"[{"created_at":"t","full_text":"x","id":-4,"user":{"screen_name":"b"}}]"#;
    assert!(matches!(Tweet::parse_timeline(neg.to_string()), Err(Error::Schema)));
}

#[test]
fn whitespace_everywhere_is_tolerated() {
    let body = " [ { \"created_at\" : \"t\" ,\n \"full_text\" : \"hi\" ,\t \"id\" : 7 , \"user\" : { \"screen_name\" : \"bob\" } } ] ";
    let ts = Tweet::parse_timeline(body.to_string()).unwrap();
    assert_eq!(ts[0].id, 7);
}

#[test]
fn direct_message_decodes() {
    let body = r#"[{"created_at":"now","text":"psst","id":42,"sender_screen_name":"alice"},
                   {"created_at":"then","text":"hey","id":43,"sender_screen_name":"carol"}]"#;
    let ds = DirectMessage::parse_timeline(body.to_string()).unwrap();
    assert_eq!(ds.len(), 2);
    assert_eq!(ds[0].id, 42);
    assert_eq!(ds[0].text.as_str(), "psst");
    assert_eq!(ds[0].sender_screen_name.as_str(), "alice");
    assert_eq!(ds[1].created_at.as_str(), "then");
}

#[test]
fn direct_message_missing_sender_is_schema_error() {
    let body = r#"[{"created_at":"now","text":"psst","id":42}]"#;
    let r = DirectMessage::parse_timeline(body.to_string());
    assert!(matches!(r, Err(Error::Schema)));
}

#[test]
fn error_descriptions_are_distinct() {
    let p = Error::Parse.describe();
    let s = Error::Schema.describe();
    let e = Error::Encoding.describe();
    let t = Error::Transport("boom".to_string()).describe();
    assert_ne!(p, s);
    assert_ne!(p, e);
    assert!(!t.is_empty());
}

#[test]
fn byte_bodies_decode_like_text() {
    let body = br#"[{"created_at":"t","full_text":"hi","id":3,"user":{"screen_name":"bob"}}]"#;
    let ts = Tweet::decode_body(body.to_vec()).unwrap();
    assert_eq!(ts[0].id, 3);
    let ds = DirectMessage::decode_body(b"[]".to_vec()).unwrap();
    assert_eq!(ds.len(), 0);
}

#[test]
fn invalid_utf8_is_encoding_error() {
    let bytes = vec![0x5b, 0xff, 0xfe, 0x5d];
    let r = Tweet::decode_body(bytes);
    assert!(matches!(r, Err(Error::Encoding)));
}

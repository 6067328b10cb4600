//! Typed records decoded from timeline responses, and the all-or-nothing
//! decoder that turns JSON bodies into them.

use vstd::prelude::*;
use crate::chars::{str_eq, str_to_chars, string_from_utf8};
use crate::error::Error;
use crate::json::{
    json_valid,
    parse_string_at,
    parse_u64_at,
    skip_value,
    skip_ws,
    spec_json_valid,
    spec_parse_string,
    spec_parse_u64,
    spec_parse_value,
    spec_skip_ws,
};

verus! {

/// Mathematical model of a decoded user.
pub struct UserRep {
    pub screen_name: Seq<char>,
}

/// Mathematical model of a decoded post.
pub struct TweetRep {
    pub created_at: Seq<char>,
    pub full_text: Seq<char>,
    pub id: u64,
    pub user: UserRep,
}

/// Mathematical model of a decoded direct message.
pub struct DirectMessageRep {
    pub created_at: Seq<char>,
    pub text: Seq<char>,
    pub id: u64,
    pub sender_screen_name: Seq<char>,
}

/// The author of a post.
#[derive(Debug, Clone)]
pub struct TwitterUser {
    pub screen_name: String,
}

/// A post of the home timeline. Immutable once decoded.
#[derive(Debug, Clone)]
pub struct Tweet {
    pub created_at: String,
    pub full_text: String,
    pub id: u64,
    pub user: TwitterUser,
}

/// A direct message. Immutable once decoded.
#[derive(Debug, Clone)]
pub struct DirectMessage {
    pub created_at: String,
    pub text: String,
    pub id: u64,
    pub sender_screen_name: String,
}

impl View for TwitterUser {
    type V = UserRep;

    open spec fn view(&self) -> UserRep {
        UserRep { screen_name: self.screen_name@ }
    }
}

impl DeepView for TwitterUser {
    type V = UserRep;

    open spec fn deep_view(&self) -> UserRep {
        self@
    }
}

impl View for Tweet {
    type V = TweetRep;

    open spec fn view(&self) -> TweetRep {
        TweetRep {
            created_at: self.created_at@,
            full_text: self.full_text@,
            id: self.id,
            user: self.user@,
        }
    }
}

impl DeepView for Tweet {
    type V = TweetRep;

    open spec fn deep_view(&self) -> TweetRep {
        self@
    }
}

impl View for DirectMessage {
    type V = DirectMessageRep;

    open spec fn view(&self) -> DirectMessageRep {
        DirectMessageRep {
            created_at: self.created_at@,
            text: self.text@,
            id: self.id,
            sender_screen_name: self.sender_screen_name@,
        }
    }
}

impl DeepView for DirectMessage {
    type V = DirectMessageRep;

    open spec fn deep_view(&self) -> DirectMessageRep {
        self@
    }
}

/// Walk the members of a user object from the first key `j`, keeping
/// the `screen_name` seen last; at `}` all required fields must be
/// present.
pub open spec fn spec_user_members(s: Seq<char>, j: int, sn: Option<Seq<char>>) -> Option<
    (UserRep, int),
>
    decreases s.len() - j,
{
    if !(0 <= j <= s.len()) {
        None
    } else {
        match spec_parse_string(s, j) {
            None => None,
            Some(kp) => {
                let k = spec_skip_ws(s, kp.1);
                if k < s.len() && s[k] == ':' {
                    let m = spec_skip_ws(s, k + 1);
                    let fr: Option<(Option<Seq<char>>, int)> = if kp.0 == "screen_name"@ {
                        match spec_parse_string(s, m) {
                            Some(vp) => Some((Some(vp.0), vp.1)),
                            None => None,
                        }
                    } else {
                        match spec_parse_value(s, m) {
                            Some(e2) => Some((sn, e2)),
                            None => None,
                        }
                    };
                    match fr {
                        None => None,
                        Some(pr) => {
                            let k2 = spec_skip_ws(s, pr.1);
                            if k2 < s.len() && s[k2] == ',' {
                                let n2 = spec_skip_ws(s, k2 + 1);
                                if j < n2 && n2 <= s.len() {
                                    spec_user_members(s, n2, pr.0)
                                } else {
                                    None
                                }
                            } else if k2 < s.len() && s[k2] == '}' {
                                match pr.0 {
                                    Some(name) => Some((UserRep { screen_name: name }, k2 + 1)),
                                    None => None,
                                }
                            } else {
                                None
                            }
                        },
                    }
                } else {
                    None
                }
            },
        }
    }
}

/// A user object at `i`: `{` then members holding a `screen_name`
/// string.
pub open spec fn spec_user_obj(s: Seq<char>, i: int) -> Option<(UserRep, int)> {
    if 0 <= i && i < s.len() && s[i] == '{' {
        let j = spec_skip_ws(s, i + 1);
        if i < j && j <= s.len() {
            spec_user_members(s, j, None)
        } else {
            None
        }
    } else {
        None
    }
}

/// Walk the members of a post object from the first key `j`. The four
/// required fields must all be present and well-typed at `}`; a later
/// duplicate overwrites an earlier one; unknown members are skipped.
pub open spec fn spec_tweet_members(
    s: Seq<char>,
    j: int,
    ca: Option<Seq<char>>,
    ft: Option<Seq<char>>,
    idv: Option<u64>,
    us: Option<UserRep>,
) -> Option<(TweetRep, int)>
    decreases s.len() - j,
{
    if !(0 <= j <= s.len()) {
        None
    } else {
        match spec_parse_string(s, j) {
            None => None,
            Some(kp) => {
                let k = spec_skip_ws(s, kp.1);
                if k < s.len() && s[k] == ':' {
                    let m = spec_skip_ws(s, k + 1);
                    let fr: Option<(Option<Seq<char>>, Option<Seq<char>>, Option<u64>, Option<
                        UserRep,
                    >, int)> = if kp.0 == "created_at"@ {
                        match spec_parse_string(s, m) {
                            Some(vp) => Some((Some(vp.0), ft, idv, us, vp.1)),
                            None => None,
                        }
                    } else if kp.0 == "full_text"@ {
                        match spec_parse_string(s, m) {
                            Some(vp) => Some((ca, Some(vp.0), idv, us, vp.1)),
                            None => None,
                        }
                    } else if kp.0 == "id"@ {
                        match spec_parse_u64(s, m) {
                            Some(vp) => Some((ca, ft, Some(vp.0), us, vp.1)),
                            None => None,
                        }
                    } else if kp.0 == "user"@ {
                        match spec_user_obj(s, m) {
                            Some(vp) => Some((ca, ft, idv, Some(vp.0), vp.1)),
                            None => None,
                        }
                    } else {
                        match spec_parse_value(s, m) {
                            Some(e2) => Some((ca, ft, idv, us, e2)),
                            None => None,
                        }
                    };
                    match fr {
                        None => None,
                        Some(pr) => {
                            let k2 = spec_skip_ws(s, pr.4);
                            if k2 < s.len() && s[k2] == ',' {
                                let n2 = spec_skip_ws(s, k2 + 1);
                                if j < n2 && n2 <= s.len() {
                                    spec_tweet_members(s, n2, pr.0, pr.1, pr.2, pr.3)
                                } else {
                                    None
                                }
                            } else if k2 < s.len() && s[k2] == '}' {
                                match (pr.0, pr.1, pr.2, pr.3) {
                                    (Some(a), Some(b), Some(c), Some(d)) => Some(
                                        (
                                            TweetRep {
                                                created_at: a,
                                                full_text: b,
                                                id: c,
                                                user: d,
                                            },
                                            k2 + 1,
                                        ),
                                    ),
                                    _ => None,
                                }
                            } else {
                                None
                            }
                        },
                    }
                } else {
                    None
                }
            },
        }
    }
}

/// A post object at `i`.
pub open spec fn spec_tweet_obj(s: Seq<char>, i: int) -> Option<(TweetRep, int)> {
    if 0 <= i && i < s.len() && s[i] == '{' {
        let j = spec_skip_ws(s, i + 1);
        if i < j && j <= s.len() {
            spec_tweet_members(s, j, None, None, None, None)
        } else {
            None
        }
    } else {
        None
    }
}

/// The post objects of a nonempty array from the first element `j`
/// through the closing `]`.
pub open spec fn spec_tweet_items(s: Seq<char>, j: int) -> Option<(Seq<TweetRep>, int)>
    decreases s.len() - j,
{
    if !(0 <= j <= s.len()) {
        None
    } else {
        match spec_tweet_obj(s, j) {
            None => None,
            Some(tp) => {
                let k = spec_skip_ws(s, tp.1);
                if k < s.len() && s[k] == ',' {
                    let n2 = spec_skip_ws(s, k + 1);
                    if j < n2 && n2 <= s.len() {
                        match spec_tweet_items(s, n2) {
                            Some(rp) => Some((seq![tp.0] + rp.0, rp.1)),
                            None => None,
                        }
                    } else {
                        None
                    }
                } else if k < s.len() && s[k] == ']' {
                    Some((seq![tp.0], k + 1))
                } else {
                    None
                }
            },
        }
    }
}

/// What decoding a whole body into posts yields: every element of the
/// top-level array decodes, or the whole decode is nothing.
pub open spec fn spec_decode_tweets(s: Seq<char>) -> Option<Seq<TweetRep>> {
    let i = spec_skip_ws(s, 0);
    if i < s.len() && s[i] == '[' {
        let j = spec_skip_ws(s, i + 1);
        if j < s.len() && s[j] == ']' {
            if spec_skip_ws(s, j + 1) == s.len() {
                Some(Seq::empty())
            } else {
                None
            }
        } else {
            match spec_tweet_items(s, j) {
                Some(tp) => if spec_skip_ws(s, tp.1) == s.len() {
                    Some(tp.0)
                } else {
                    None
                },
                None => None,
            }
        }
    } else {
        None
    }
}

/// Walk the members of a direct-message object from the first key `j`.
pub open spec fn spec_dm_members(
    s: Seq<char>,
    j: int,
    ca: Option<Seq<char>>,
    tx: Option<Seq<char>>,
    idv: Option<u64>,
    sn: Option<Seq<char>>,
) -> Option<(DirectMessageRep, int)>
    decreases s.len() - j,
{
    if !(0 <= j <= s.len()) {
        None
    } else {
        match spec_parse_string(s, j) {
            None => None,
            Some(kp) => {
                let k = spec_skip_ws(s, kp.1);
                if k < s.len() && s[k] == ':' {
                    let m = spec_skip_ws(s, k + 1);
                    let fr: Option<(Option<Seq<char>>, Option<Seq<char>>, Option<u64>, Option<
                        Seq<char>,
                    >, int)> = if kp.0 == "created_at"@ {
                        match spec_parse_string(s, m) {
                            Some(vp) => Some((Some(vp.0), tx, idv, sn, vp.1)),
                            None => None,
                        }
                    } else if kp.0 == "text"@ {
                        match spec_parse_string(s, m) {
                            Some(vp) => Some((ca, Some(vp.0), idv, sn, vp.1)),
                            None => None,
                        }
                    } else if kp.0 == "id"@ {
                        match spec_parse_u64(s, m) {
                            Some(vp) => Some((ca, tx, Some(vp.0), sn, vp.1)),
                            None => None,
                        }
                    } else if kp.0 == "sender_screen_name"@ {
                        match spec_parse_string(s, m) {
                            Some(vp) => Some((ca, tx, idv, Some(vp.0), vp.1)),
                            None => None,
                        }
                    } else {
                        match spec_parse_value(s, m) {
                            Some(e2) => Some((ca, tx, idv, sn, e2)),
                            None => None,
                        }
                    };
                    match fr {
                        None => None,
                        Some(pr) => {
                            let k2 = spec_skip_ws(s, pr.4);
                            if k2 < s.len() && s[k2] == ',' {
                                let n2 = spec_skip_ws(s, k2 + 1);
                                if j < n2 && n2 <= s.len() {
                                    spec_dm_members(s, n2, pr.0, pr.1, pr.2, pr.3)
                                } else {
                                    None
                                }
                            } else if k2 < s.len() && s[k2] == '}' {
                                match (pr.0, pr.1, pr.2, pr.3) {
                                    (Some(a), Some(b), Some(c), Some(d)) => Some(
                                        (
                                            DirectMessageRep {
                                                created_at: a,
                                                text: b,
                                                id: c,
                                                sender_screen_name: d,
                                            },
                                            k2 + 1,
                                        ),
                                    ),
                                    _ => None,
                                }
                            } else {
                                None
                            }
                        },
                    }
                } else {
                    None
                }
            },
        }
    }
}

/// A direct-message object at `i`.
pub open spec fn spec_dm_obj(s: Seq<char>, i: int) -> Option<(DirectMessageRep, int)> {
    if 0 <= i && i < s.len() && s[i] == '{' {
        let j = spec_skip_ws(s, i + 1);
        if i < j && j <= s.len() {
            spec_dm_members(s, j, None, None, None, None)
        } else {
            None
        }
    } else {
        None
    }
}

/// The direct-message objects of a nonempty array from `j` through `]`.
pub open spec fn spec_dm_items(s: Seq<char>, j: int) -> Option<(Seq<DirectMessageRep>, int)>
    decreases s.len() - j,
{
    if !(0 <= j <= s.len()) {
        None
    } else {
        match spec_dm_obj(s, j) {
            None => None,
            Some(tp) => {
                let k = spec_skip_ws(s, tp.1);
                if k < s.len() && s[k] == ',' {
                    let n2 = spec_skip_ws(s, k + 1);
                    if j < n2 && n2 <= s.len() {
                        match spec_dm_items(s, n2) {
                            Some(rp) => Some((seq![tp.0] + rp.0, rp.1)),
                            None => None,
                        }
                    } else {
                        None
                    }
                } else if k < s.len() && s[k] == ']' {
                    Some((seq![tp.0], k + 1))
                } else {
                    None
                }
            },
        }
    }
}

/// What decoding a whole body into direct messages yields.
pub open spec fn spec_decode_dms(s: Seq<char>) -> Option<Seq<DirectMessageRep>> {
    let i = spec_skip_ws(s, 0);
    if i < s.len() && s[i] == '[' {
        let j = spec_skip_ws(s, i + 1);
        if j < s.len() && s[j] == ']' {
            if spec_skip_ws(s, j + 1) == s.len() {
                Some(Seq::empty())
            } else {
                None
            }
        } else {
            match spec_dm_items(s, j) {
                Some(tp) => if spec_skip_ws(s, tp.1) == s.len() {
                    Some(tp.0)
                } else {
                    None
                },
                None => None,
            }
        }
    } else {
        None
    }
}

/// Decode the user object at `i`.
fn user_obj_at(v: &Vec<char>, i: usize) -> (r: Option<(TwitterUser, usize)>)
    requires
        i <= v@.len(),
    ensures
        match r {
            Some(p) => spec_user_obj(v@, i as int) == Some((p.0.deep_view(), p.1 as int)) && i
                < p.1 <= v@.len(),
            None => spec_user_obj(v@, i as int) is None,
        },
{
    let n = v.len();
    if i >= n || v[i] != '{' {
        return None;
    }
    let j0 = skip_ws(v, i + 1);
    let mut cur = j0;
    let mut sn: Option<String> = None;
    loop
        invariant
            i < j0 <= n,
            j0 <= cur <= n,
            n == v@.len(),
            spec_user_obj(v@, i as int) == spec_user_members(v@, cur as int, sn.deep_view()),
        decreases n - cur,
    {
        let ghost cur0 = cur as int;
        let ghost snv0 = sn.deep_view();
        match parse_string_at(v, cur) {
            None => {
                return None;
            },
            Some(kp) => {
                let key = kp.0;
                let k = skip_ws(v, kp.1);
                if !(k < n && v[k] == ':') {
                    return None;
                }
                let m = skip_ws(v, k + 1);
                let vend: usize;
                if str_eq(key.as_str(), "screen_name") {
                    match parse_string_at(v, m) {
                        None => {
                            return None;
                        },
                        Some(vp) => {
                            sn = Some(vp.0);
                            vend = vp.1;
                        },
                    }
                } else {
                    match skip_value(v, m) {
                        None => {
                            return None;
                        },
                        Some(e2) => {
                            vend = e2;
                        },
                    }
                }
                let k2 = skip_ws(v, vend);
                if k2 < n && v[k2] == ',' {
                    let n2 = skip_ws(v, k2 + 1);
                    proof {
                        assert(spec_user_members(v@, cur0, snv0) == spec_user_members(
                            v@,
                            n2 as int,
                            sn.deep_view(),
                        ));
                    }
                    cur = n2;
                } else if k2 < n && v[k2] == '}' {
                    match sn {
                        Some(name) => {
                            return Some((TwitterUser { screen_name: name }, k2 + 1));
                        },
                        None => {
                            return None;
                        },
                    }
                } else {
                    return None;
                }
            },
        }
    }
}

/// Decode the post object at `i`.
fn tweet_obj_at(v: &Vec<char>, i: usize) -> (r: Option<(Tweet, usize)>)
    requires
        i <= v@.len(),
    ensures
        match r {
            Some(p) => spec_tweet_obj(v@, i as int) == Some((p.0.deep_view(), p.1 as int)) && i
                < p.1 <= v@.len(),
            None => spec_tweet_obj(v@, i as int) is None,
        },
{
    let n = v.len();
    if i >= n || v[i] != '{' {
        return None;
    }
    let j0 = skip_ws(v, i + 1);
    let mut cur = j0;
    let mut ca: Option<String> = None;
    let mut ft: Option<String> = None;
    let mut idv: Option<u64> = None;
    let mut us: Option<TwitterUser> = None;
    loop
        invariant
            i < j0 <= n,
            j0 <= cur <= n,
            n == v@.len(),
            spec_tweet_obj(v@, i as int) == spec_tweet_members(
                v@,
                cur as int,
                ca.deep_view(),
                ft.deep_view(),
                idv,
                us.deep_view(),
            ),
        decreases n - cur,
    {
        match parse_string_at(v, cur) {
            None => {
                return None;
            },
            Some(kp) => {
                let key = kp.0;
                let k = skip_ws(v, kp.1);
                if !(k < n && v[k] == ':') {
                    return None;
                }
                let m = skip_ws(v, k + 1);
                let vend: usize;
                if str_eq(key.as_str(), "created_at") {
                    match parse_string_at(v, m) {
                        None => {
                            return None;
                        },
                        Some(vp) => {
                            ca = Some(vp.0);
                            vend = vp.1;
                        },
                    }
                } else if str_eq(key.as_str(), "full_text") {
                    match parse_string_at(v, m) {
                        None => {
                            return None;
                        },
                        Some(vp) => {
                            ft = Some(vp.0);
                            vend = vp.1;
                        },
                    }
                } else if str_eq(key.as_str(), "id") {
                    match parse_u64_at(v, m) {
                        None => {
                            return None;
                        },
                        Some(vp) => {
                            idv = Some(vp.0);
                            vend = vp.1;
                        },
                    }
                } else if str_eq(key.as_str(), "user") {
                    match user_obj_at(v, m) {
                        None => {
                            return None;
                        },
                        Some(vp) => {
                            us = Some(vp.0);
                            vend = vp.1;
                        },
                    }
                } else {
                    match skip_value(v, m) {
                        None => {
                            return None;
                        },
                        Some(e2) => {
                            vend = e2;
                        },
                    }
                }
                let k2 = skip_ws(v, vend);
                if k2 < n && v[k2] == ',' {
                    let n2 = skip_ws(v, k2 + 1);
                    proof {
                        assert(spec_tweet_obj(v@, i as int) == spec_tweet_members(
                            v@,
                            n2 as int,
                            ca.deep_view(),
                            ft.deep_view(),
                            idv,
                            us.deep_view(),
                        ));
                    }
                    cur = n2;
                } else if k2 < n && v[k2] == '}' {
                    match (ca, ft, idv, us) {
                        (Some(a), Some(b), Some(c), Some(d)) => {
                            return Some(
                                (Tweet { created_at: a, full_text: b, id: c, user: d }, k2 + 1),
                            );
                        },
                        _ => {
                            return None;
                        },
                    }
                } else {
                    return None;
                }
            },
        }
    }
}

/// Decode the direct-message object at `i`.
fn dm_obj_at(v: &Vec<char>, i: usize) -> (r: Option<(DirectMessage, usize)>)
    requires
        i <= v@.len(),
    ensures
        match r {
            Some(p) => spec_dm_obj(v@, i as int) == Some((p.0.deep_view(), p.1 as int)) && i < p.1
                <= v@.len(),
            None => spec_dm_obj(v@, i as int) is None,
        },
{
    let n = v.len();
    if i >= n || v[i] != '{' {
        return None;
    }
    let j0 = skip_ws(v, i + 1);
    let mut cur = j0;
    let mut ca: Option<String> = None;
    let mut tx: Option<String> = None;
    let mut idv: Option<u64> = None;
    let mut sn: Option<String> = None;
    loop
        invariant
            i < j0 <= n,
            j0 <= cur <= n,
            n == v@.len(),
            spec_dm_obj(v@, i as int) == spec_dm_members(
                v@,
                cur as int,
                ca.deep_view(),
                tx.deep_view(),
                idv,
                sn.deep_view(),
            ),
        decreases n - cur,
    {
        match parse_string_at(v, cur) {
            None => {
                return None;
            },
            Some(kp) => {
                let key = kp.0;
                let k = skip_ws(v, kp.1);
                if !(k < n && v[k] == ':') {
                    return None;
                }
                let m = skip_ws(v, k + 1);
                let vend: usize;
                if str_eq(key.as_str(), "created_at") {
                    match parse_string_at(v, m) {
                        None => {
                            return None;
                        },
                        Some(vp) => {
                            ca = Some(vp.0);
                            vend = vp.1;
                        },
                    }
                } else if str_eq(key.as_str(), "text") {
                    match parse_string_at(v, m) {
                        None => {
                            return None;
                        },
                        Some(vp) => {
                            tx = Some(vp.0);
                            vend = vp.1;
                        },
                    }
                } else if str_eq(key.as_str(), "id") {
                    match parse_u64_at(v, m) {
                        None => {
                            return None;
                        },
                        Some(vp) => {
                            idv = Some(vp.0);
                            vend = vp.1;
                        },
                    }
                } else if str_eq(key.as_str(), "sender_screen_name") {
                    match parse_string_at(v, m) {
                        None => {
                            return None;
                        },
                        Some(vp) => {
                            sn = Some(vp.0);
                            vend = vp.1;
                        },
                    }
                } else {
                    match skip_value(v, m) {
                        None => {
                            return None;
                        },
                        Some(e2) => {
                            vend = e2;
                        },
                    }
                }
                let k2 = skip_ws(v, vend);
                if k2 < n && v[k2] == ',' {
                    let n2 = skip_ws(v, k2 + 1);
                    proof {
                        assert(spec_dm_obj(v@, i as int) == spec_dm_members(
                            v@,
                            n2 as int,
                            ca.deep_view(),
                            tx.deep_view(),
                            idv,
                            sn.deep_view(),
                        ));
                    }
                    cur = n2;
                } else if k2 < n && v[k2] == '}' {
                    match (ca, tx, idv, sn) {
                        (Some(a), Some(b), Some(c), Some(d)) => {
                            return Some(
                                (
                                    DirectMessage {
                                        created_at: a,
                                        text: b,
                                        id: c,
                                        sender_screen_name: d,
                                    },
                                    k2 + 1,
                                ),
                            );
                        },
                        _ => {
                            return None;
                        },
                    }
                } else {
                    return None;
                }
            },
        }
    }
}

/// Decode the post objects of a nonempty array, appending to `out`.
fn tweet_items_at(v: &Vec<char>, j: usize, out: &mut Vec<Tweet>) -> (r: Option<usize>)
    requires
        j <= v@.len(),
    ensures
        match spec_tweet_items(v@, j as int) {
            Some(tp) => r is Some && r.unwrap() as int == tp.1 && j < r.unwrap() <= v@.len()
                && final(out).deep_view() == old(out).deep_view() + tp.0,
            None => r is None,
        },
    decreases v@.len() - j,
{
    let n = v.len();
    match tweet_obj_at(v, j) {
        None => None,
        Some(te) => {
            let ghost base = out.deep_view();
            let ghost trep = te.0.deep_view();
            out.push(te.0);
            proof {
                assert(out.deep_view() =~= base + seq![trep]);
            }
            let k = skip_ws(v, te.1);
            if k < n && v[k] == ',' {
                let n2 = skip_ws(v, k + 1);
                let rr = tweet_items_at(v, n2, out);
                proof {
                    if spec_tweet_items(v@, n2 as int) is Some {
                        let rp = spec_tweet_items(v@, n2 as int).unwrap();
                        assert(out.deep_view() =~= base + (seq![trep] + rp.0));
                    }
                }
                rr
            } else if k < n && v[k] == ']' {
                Some(k + 1)
            } else {
                None
            }
        },
    }
}

/// Decode the direct-message objects of a nonempty array.
fn dm_items_at(v: &Vec<char>, j: usize, out: &mut Vec<DirectMessage>) -> (r: Option<usize>)
    requires
        j <= v@.len(),
    ensures
        match spec_dm_items(v@, j as int) {
            Some(tp) => r is Some && r.unwrap() as int == tp.1 && j < r.unwrap() <= v@.len()
                && final(out).deep_view() == old(out).deep_view() + tp.0,
            None => r is None,
        },
    decreases v@.len() - j,
{
    let n = v.len();
    match dm_obj_at(v, j) {
        None => None,
        Some(te) => {
            let ghost base = out.deep_view();
            let ghost trep = te.0.deep_view();
            out.push(te.0);
            proof {
                assert(out.deep_view() =~= base + seq![trep]);
            }
            let k = skip_ws(v, te.1);
            if k < n && v[k] == ',' {
                let n2 = skip_ws(v, k + 1);
                let rr = dm_items_at(v, n2, out);
                proof {
                    if spec_dm_items(v@, n2 as int) is Some {
                        let rp = spec_dm_items(v@, n2 as int).unwrap();
                        assert(out.deep_view() =~= base + (seq![trep] + rp.0));
                    }
                }
                rr
            } else if k < n && v[k] == ']' {
                Some(k + 1)
            } else {
                None
            }
        },
    }
}

impl Tweet {
    /// Decode a JSON body into posts. The body must be one JSON array
    /// whose every element carries `created_at`, `full_text`, `id` and
    /// `user.screen_name`; one malformed element fails the whole call.
    pub fn parse_timeline(json_string: String) -> (r: Result<Vec<Tweet>, Error>)
        ensures
            match r {
                Ok(ts) => spec_json_valid(json_string@) && spec_decode_tweets(json_string@)
                    == Some(ts.deep_view()),
                Err(e) => match e {
                    Error::Parse => !spec_json_valid(json_string@),
                    Error::Schema => spec_json_valid(json_string@) && spec_decode_tweets(
                        json_string@,
                    ) is None,
                    _ => false,
                },
            },
    {
        let v = str_to_chars(json_string.as_str());
        if !json_valid(&v) {
            return Err(Error::Parse);
        }
        let n = v.len();
        let i = skip_ws(&v, 0);
        if !(i < n && v[i] == '[') {
            return Err(Error::Schema);
        }
        let j = skip_ws(&v, i + 1);
        if j < n && v[j] == ']' {
            let e2 = skip_ws(&v, j + 1);
            if e2 == n {
                let empty: Vec<Tweet> = Vec::new();
                proof {
                    assert(empty.deep_view() =~= Seq::<TweetRep>::empty());
                }
                return Ok(empty);
            } else {
                return Err(Error::Schema);
            }
        }
        let mut out: Vec<Tweet> = Vec::new();
        let ghost base = out.deep_view();
        match tweet_items_at(&v, j, &mut out) {
            None => Err(Error::Schema),
            Some(e) => {
                let f = skip_ws(&v, e);
                if f == n {
                    proof {
                        let tp = spec_tweet_items(v@, j as int).unwrap();
                        assert(out.deep_view() =~= base + tp.0);
                        assert(out.deep_view() =~= tp.0);
                    }
                    Ok(out)
                } else {
                    Err(Error::Schema)
                }
            },
        }
    }

    /// Decode raw response bytes into posts: the bytes must be valid
    /// UTF-8, then the text decodes as `parse_timeline` says.
    pub fn decode_body(bytes: Vec<u8>) -> (r: Result<Vec<Tweet>, Error>)
        ensures
            match r {
                Ok(ts) => vstd::utf8::valid_utf8(bytes@) && spec_json_valid(
                    vstd::utf8::decode_utf8(bytes@),
                ) && spec_decode_tweets(vstd::utf8::decode_utf8(bytes@)) == Some(ts.deep_view()),
                Err(e) => match e {
                    Error::Encoding => !vstd::utf8::valid_utf8(bytes@),
                    Error::Parse => vstd::utf8::valid_utf8(bytes@) && !spec_json_valid(
                        vstd::utf8::decode_utf8(bytes@),
                    ),
                    Error::Schema => vstd::utf8::valid_utf8(bytes@) && spec_json_valid(
                        vstd::utf8::decode_utf8(bytes@),
                    ) && spec_decode_tweets(vstd::utf8::decode_utf8(bytes@)) is None,
                    _ => false,
                },
            },
    {
        match string_from_utf8(bytes) {
            None => Err(Error::Encoding),
            Some(text) => Tweet::parse_timeline(text),
        }
    }
}

impl DirectMessage {
    /// Decode a JSON body into direct messages, all or nothing, as
    /// `Tweet::parse_timeline` does for posts.
    pub fn parse_timeline(json_string: String) -> (r: Result<Vec<DirectMessage>, Error>)
        ensures
            match r {
                Ok(ds) => spec_json_valid(json_string@) && spec_decode_dms(json_string@) == Some(
                    ds.deep_view(),
                ),
                Err(e) => match e {
                    Error::Parse => !spec_json_valid(json_string@),
                    Error::Schema => spec_json_valid(json_string@) && spec_decode_dms(
                        json_string@,
                    ) is None,
                    _ => false,
                },
            },
    {
        let v = str_to_chars(json_string.as_str());
        if !json_valid(&v) {
            return Err(Error::Parse);
        }
        let n = v.len();
        let i = skip_ws(&v, 0);
        if !(i < n && v[i] == '[') {
            return Err(Error::Schema);
        }
        let j = skip_ws(&v, i + 1);
        if j < n && v[j] == ']' {
            let e2 = skip_ws(&v, j + 1);
            if e2 == n {
                let empty: Vec<DirectMessage> = Vec::new();
                proof {
                    assert(empty.deep_view() =~= Seq::<DirectMessageRep>::empty());
                }
                return Ok(empty);
            } else {
                return Err(Error::Schema);
            }
        }
        let mut out: Vec<DirectMessage> = Vec::new();
        let ghost base = out.deep_view();
        match dm_items_at(&v, j, &mut out) {
            None => Err(Error::Schema),
            Some(e) => {
                let f = skip_ws(&v, e);
                if f == n {
                    proof {
                        let tp = spec_dm_items(v@, j as int).unwrap();
                        assert(out.deep_view() =~= base + tp.0);
                        assert(out.deep_view() =~= tp.0);
                    }
                    Ok(out)
                } else {
                    Err(Error::Schema)
                }
            },
        }
    }

    /// Decode raw response bytes into direct messages: the bytes must
    /// be valid UTF-8, then the text decodes as `parse_timeline` says.
    pub fn decode_body(bytes: Vec<u8>) -> (r: Result<Vec<DirectMessage>, Error>)
        ensures
            match r {
                Ok(ds) => vstd::utf8::valid_utf8(bytes@) && spec_json_valid(
                    vstd::utf8::decode_utf8(bytes@),
                ) && spec_decode_dms(vstd::utf8::decode_utf8(bytes@)) == Some(ds.deep_view()),
                Err(e) => match e {
                    Error::Encoding => !vstd::utf8::valid_utf8(bytes@),
                    Error::Parse => vstd::utf8::valid_utf8(bytes@) && !spec_json_valid(
                        vstd::utf8::decode_utf8(bytes@),
                    ),
                    Error::Schema => vstd::utf8::valid_utf8(bytes@) && spec_json_valid(
                        vstd::utf8::decode_utf8(bytes@),
                    ) && spec_decode_dms(vstd::utf8::decode_utf8(bytes@)) is None,
                    _ => false,
                },
            },
    {
        match string_from_utf8(bytes) {
            None => Err(Error::Encoding),
            Some(text) => DirectMessage::parse_timeline(text),
        }
    }
}

/// Start of the `n`-th element of an items run at `j`, reached by
/// stepping over the elements before it that do decode.
pub open spec fn spec_nth_item_pos(s: Seq<char>, j: int, n: nat) -> Option<int>
    decreases n,
{
    if n == 0 {
        Some(j)
    } else {
        match spec_tweet_obj(s, j) {
            None => None,
            Some(tp) => {
                let k = spec_skip_ws(s, tp.1);
                if k < s.len() && s[k] == ',' {
                    spec_nth_item_pos(s, spec_skip_ws(s, k + 1), (n - 1) as nat)
                } else {
                    None
                }
            },
        }
    }
}

/// Law: decoding is all or nothing. When any element of the array
/// fails to decode — the `n`-th, counting from the element at `j` —
/// the whole items run yields nothing, never a shorter sequence.
pub proof fn lemma_decode_all_or_nothing(s: Seq<char>, j: int, n: nat)
    requires
        spec_nth_item_pos(s, j, n) is Some,
        spec_tweet_obj(s, spec_nth_item_pos(s, j, n).unwrap()) is None,
    ensures
        spec_tweet_items(s, j) is None,
    decreases n,
{
    if n > 0 {
        let tp = spec_tweet_obj(s, j).unwrap();
        let k = spec_skip_ws(s, tp.1);
        let n2 = spec_skip_ws(s, k + 1);
        lemma_decode_all_or_nothing(s, n2, (n - 1) as nat);
    }
}

/// Start of the `n`-th element of a direct-message items run at `j`.
pub open spec fn spec_nth_dm_pos(s: Seq<char>, j: int, n: nat) -> Option<int>
    decreases n,
{
    if n == 0 {
        Some(j)
    } else {
        match spec_dm_obj(s, j) {
            None => None,
            Some(tp) => {
                let k = spec_skip_ws(s, tp.1);
                if k < s.len() && s[k] == ',' {
                    spec_nth_dm_pos(s, spec_skip_ws(s, k + 1), (n - 1) as nat)
                } else {
                    None
                }
            },
        }
    }
}

/// Law: decoding direct messages is all or nothing: an array with any
/// failing element decodes to nothing, never to a shorter sequence.
pub proof fn lemma_decode_dms_all_or_nothing(s: Seq<char>, j: int, n: nat)
    requires
        spec_nth_dm_pos(s, j, n) is Some,
        spec_dm_obj(s, spec_nth_dm_pos(s, j, n).unwrap()) is None,
    ensures
        spec_dm_items(s, j) is None,
    decreases n,
{
    if n > 0 {
        let tp = spec_dm_obj(s, j).unwrap();
        let k = spec_skip_ws(s, tp.1);
        let n2 = spec_skip_ws(s, k + 1);
        lemma_decode_dms_all_or_nothing(s, n2, (n - 1) as nat);
    }
}

/// Law: decoding is a function of the body text alone; decoding equal
/// bodies yields structurally equal record sequences.
pub proof fn lemma_decode_tweets_deterministic(
    s: Seq<char>,
    r1: Seq<TweetRep>,
    r2: Seq<TweetRep>,
)
    requires
        spec_decode_tweets(s) == Some(r1),
        spec_decode_tweets(s) == Some(r2),
    ensures
        r1 == r2,
{
}

/// Law: decoding direct messages is a function of the body text alone.
pub proof fn lemma_decode_dms_deterministic(
    s: Seq<char>,
    r1: Seq<DirectMessageRep>,
    r2: Seq<DirectMessageRep>,
)
    requires
        spec_decode_dms(s) == Some(r1),
        spec_decode_dms(s) == Some(r2),
    ensures
        r1 == r2,
{
}

} // verus!

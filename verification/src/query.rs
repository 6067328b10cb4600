//! Codec for `key=value&key=value` parameter strings, and the parameter
//! mapping that outgoing requests are built from.

use vstd::prelude::*;
use crate::chars::{chars_substring, str_eq, str_to_chars};
use crate::error::Error;

verus! {

/// First index in `[i, end)` of `s` where `c` occurs.
pub open spec fn spec_find_in(s: Seq<char>, i: int, end: int, c: char) -> Option<int>
    decreases end - i,
{
    if i < 0 || i >= end || end > s.len() {
        None
    } else if s[i] == c {
        Some(i)
    } else {
        spec_find_in(s, i + 1, end, c)
    }
}

/// `spec_find_in` returns the first occurrence, or None when there is none.
proof fn lemma_find_in_props(s: Seq<char>, i: int, end: int, c: char)
    requires
        0 <= i <= end <= s.len(),
    ensures
        match spec_find_in(s, i, end, c) {
            Some(j) => i <= j < end && s[j] == c && (forall|k: int| i <= k < j ==> s[k] != c),
            None => forall|k: int| i <= k < end ==> s[k] != c,
        },
    decreases end - i,
{
    if i < end {
        lemma_find_in_props(s, i + 1, end, c);
    }
}

/// One `key=value` segment: the part before the first `=` and the part
/// after it. A segment without `=` is malformed.
pub open spec fn spec_split_segment(s: Seq<char>, i: int, end: int) -> Option<
    (Seq<char>, Seq<char>),
> {
    match spec_find_in(s, i, end, '=') {
        Some(e) => if i <= e && e < end {
            Some((s.subrange(i, e), s.subrange(e + 1, end)))
        } else {
            None
        },
        None => None,
    }
}

/// The segments of `s[i..]`, split on `&`, each further split on its
/// first `=`. None when some segment has no `=`.
pub open spec fn spec_split_query_from(s: Seq<char>, i: int) -> Option<
    Seq<(Seq<char>, Seq<char>)>,
>
    decreases s.len() - i,
{
    if !(0 <= i <= s.len()) {
        None
    } else {
        match spec_find_in(s, i, s.len() as int, '&') {
            Some(a) => match spec_split_segment(s, i, a) {
                Some(p) => if i <= a && a < s.len() {
                    match spec_split_query_from(s, a + 1) {
                        Some(rest) => Some(seq![p] + rest),
                        None => None,
                    }
                } else {
                    None
                },
                None => None,
            },
            None => match spec_split_segment(s, i, s.len() as int) {
                Some(p) => Some(seq![p]),
                None => None,
            },
        }
    }
}

/// What decoding a whole query string yields: its `key=value` pairs in
/// order, or None when it is malformed.
pub open spec fn spec_split_query(s: Seq<char>) -> Option<Seq<(Seq<char>, Seq<char>)>> {
    spec_split_query_from(s, 0)
}

/// The mapping that a pair sequence denotes; a later pair with the same
/// key overwrites an earlier one.
pub open spec fn spec_pairs_map(ps: Seq<(Seq<char>, Seq<char>)>) -> Map<Seq<char>, Seq<char>>
    decreases ps.len(),
{
    if ps.len() == 0 {
        Map::empty()
    } else {
        spec_pairs_map(ps.drop_last()).insert(ps.last().0, ps.last().1)
    }
}

/// First index at or after `i` whose key is `k`.
pub open spec fn spec_find_key(ps: Seq<(Seq<char>, Seq<char>)>, k: Seq<char>, i: int) -> Option<
    int,
>
    decreases ps.len() - i,
{
    if !(0 <= i < ps.len()) {
        None
    } else if ps[i].0 == k {
        Some(i)
    } else {
        spec_find_key(ps, k, i + 1)
    }
}

/// `spec_find_key` returns the first index with key `k`, or None.
proof fn lemma_find_key_props(ps: Seq<(Seq<char>, Seq<char>)>, k: Seq<char>, i: int)
    requires
        0 <= i <= ps.len(),
    ensures
        match spec_find_key(ps, k, i) {
            Some(j) => i <= j < ps.len() && ps[j].0 == k && (forall|m: int|
                i <= m < j ==> ps[m].0 != k),
            None => forall|m: int| i <= m < ps.len() ==> ps[m].0 != k,
        },
    decreases ps.len() - i,
{
    if i < ps.len() {
        lemma_find_key_props(ps, k, i + 1);
    }
}

/// Inserting into a pair sequence: replace the value of the first pair
/// with that key, or append a new pair.
pub open spec fn spec_pairs_insert(
    ps: Seq<(Seq<char>, Seq<char>)>,
    k: Seq<char>,
    v: Seq<char>,
) -> Seq<(Seq<char>, Seq<char>)> {
    match spec_find_key(ps, k, 0) {
        Some(i) => ps.update(i, (k, v)),
        None => ps.push((k, v)),
    }
}

/// No two pairs share a key.
pub open spec fn spec_keys_unique(ps: Seq<(Seq<char>, Seq<char>)>) -> bool {
    forall|i: int, j: int| 0 <= i < j < ps.len() ==> ps[i].0 != ps[j].0
}

/// If no pair after index `i` repeats the key of pair `i`, the denoted
/// mapping sends that key to that pair's value.
proof fn lemma_pairs_map_at(ps: Seq<(Seq<char>, Seq<char>)>, i: int)
    requires
        0 <= i < ps.len(),
        forall|j: int| i < j < ps.len() ==> ps[j].0 != ps[i].0,
    ensures
        spec_pairs_map(ps).contains_key(ps[i].0),
        spec_pairs_map(ps)[ps[i].0] == ps[i].1,
    decreases ps.len(),
{
    if i == ps.len() - 1 {
    } else {
        lemma_pairs_map_at(ps.drop_last(), i);
    }
}

/// A key held by no pair is not in the denoted mapping.
proof fn lemma_pairs_map_absent(ps: Seq<(Seq<char>, Seq<char>)>, k: Seq<char>)
    requires
        forall|i: int| 0 <= i < ps.len() ==> ps[i].0 != k,
    ensures
        !spec_pairs_map(ps).contains_key(k),
    decreases ps.len(),
{
    if ps.len() > 0 {
        lemma_pairs_map_absent(ps.drop_last(), k);
    }
}

/// Updating the pair at `i`, whose key is not repeated later, changes the
/// denoted mapping exactly at that key.
proof fn lemma_pairs_map_update(ps: Seq<(Seq<char>, Seq<char>)>, i: int, v: Seq<char>)
    requires
        0 <= i < ps.len(),
        forall|j: int| i < j < ps.len() ==> ps[j].0 != ps[i].0,
    ensures
        spec_pairs_map(ps.update(i, (ps[i].0, v))) == spec_pairs_map(ps).insert(ps[i].0, v),
    decreases ps.len(),
{
    let k = ps[i].0;
    let qs = ps.update(i, (k, v));
    if i == ps.len() - 1 {
        assert(qs.drop_last() =~= ps.drop_last());
        assert(spec_pairs_map(qs) =~= spec_pairs_map(ps).insert(k, v));
    } else {
        lemma_pairs_map_update(ps.drop_last(), i, v);
        assert(qs.drop_last() =~= ps.drop_last().update(i, (k, v)));
        assert(qs.last() == ps.last());
        assert(spec_pairs_map(qs) =~= spec_pairs_map(ps).insert(k, v));
    }
}

/// The character-level pairs that a vector of string pairs denotes.
pub open spec fn spec_pairs_view(ps: Seq<(String, String)>) -> Seq<(Seq<char>, Seq<char>)> {
    Seq::new(ps.len(), |i: int| (ps[i].0@, ps[i].1@))
}

/// An unordered mapping from parameter name to parameter value, with
/// unique keys; what outgoing requests carry and decoded responses yield.
pub struct ParamMap {
    pairs: Vec<(String, String)>,
}

impl View for ParamMap {
    type V = Seq<(Seq<char>, Seq<char>)>;

    closed spec fn view(&self) -> Seq<(Seq<char>, Seq<char>)> {
        spec_pairs_view(self.pairs@)
    }
}

impl ParamMap {
    /// Well-formed: no two pairs share a key.
    pub open spec fn wf(&self) -> bool {
        spec_keys_unique(self@)
    }

    /// The mapping this value denotes.
    pub open spec fn as_map(&self) -> Map<Seq<char>, Seq<char>> {
        spec_pairs_map(self@)
    }

    /// The empty mapping.
    pub fn new() -> (r: ParamMap)
        ensures
            r.wf(),
            r@ == Seq::<(Seq<char>, Seq<char>)>::empty(),
            r.as_map() == Map::<Seq<char>, Seq<char>>::empty(),
    {
        let r = ParamMap { pairs: Vec::new() };
        proof {
            assert(r@ =~= Seq::<(Seq<char>, Seq<char>)>::empty());
        }
        r
    }

    /// How many pairs the mapping holds.
    pub fn len(&self) -> (n: usize)
        ensures
            n == self@.len(),
    {
        self.pairs.len()
    }

    /// The key of the pair at `i`.
    pub fn key_at(&self, i: usize) -> (r: &String)
        requires
            i < self@.len(),
        ensures
            r@ == self@[i as int].0,
    {
        &self.pairs[i].0
    }

    /// The value of the pair at `i`.
    pub fn value_at(&self, i: usize) -> (r: &String)
        requires
            i < self@.len(),
        ensures
            r@ == self@[i as int].1,
    {
        &self.pairs[i].1
    }

    /// Bind `k` to `v`, overwriting any earlier binding of `k`.
    pub fn insert(&mut self, k: String, v: String)
        requires
            old(self).wf(),
        ensures
            final(self).wf(),
            final(self)@ == spec_pairs_insert(old(self)@, k@, v@),
            final(self).as_map() == old(self).as_map().insert(k@, v@),
    {
        let ghost ps = self@;
        let n = self.pairs.len();
        let mut i: usize = 0;
        while i < n
            invariant
                i <= n,
                n == ps.len(),
                ps == old(self)@,
                self@ == ps,
                self.wf(),
                n == self.pairs@.len(),
                forall|j: int| 0 <= j < i ==> ps[j].0 != k@,
            decreases n - i,
        {
            if str_eq(self.pairs[i].0.as_str(), k.as_str()) {
                proof {
                    assert(ps[i as int].0 == k@);
                    lemma_find_key_props(ps, k@, 0);
                    let fk = spec_find_key(ps, k@, 0);
                    if fk is None {
                        assert(ps[i as int].0 != k@);
                    } else {
                        let j = fk.unwrap();
                        if j < i as int {
                            assert(ps[j].0 != k@);
                        } else if j > i as int {
                            assert(ps[i as int].0 != k@);
                        }
                    }
                    assert(spec_find_key(ps, k@, 0) == Some(i as int));
                    assert(forall|j: int| i < j < ps.len() ==> ps[j].0 != ps[i as int].0);
                    lemma_pairs_map_update(ps, i as int, v@);
                }
                self.pairs.set(i, (k, v));
                proof {
                    assert(self@ =~= ps.update(i as int, (k@, v@)));
                    assert(self.wf());
                }
                return ;
            }
            i = i + 1;
        }
        proof {
            lemma_find_key_props(ps, k@, 0);
            assert(spec_find_key(ps, k@, 0) is None);
            lemma_pairs_map_absent(ps, k@);
        }
        self.pairs.push((k, v));
        proof {
            assert(self@ =~= ps.push((k@, v@)));
            assert(self@.drop_last() =~= ps);
            assert(self.wf());
        }
    }

    /// Look `k` up in the mapping.
    pub fn get(&self, k: &str) -> (r: Option<&String>)
        requires
            self.wf(),
        ensures
            match r {
                Some(v) => self.as_map().contains_key(k@) && v@ == self.as_map()[k@],
                None => !self.as_map().contains_key(k@),
            },
    {
        let n = self.pairs.len();
        let mut i: usize = 0;
        while i < n
            invariant
                i <= n,
                n == self@.len(),
                n == self.pairs@.len(),
                self.wf(),
                forall|j: int| 0 <= j < i ==> self@[j].0 != k@,
            decreases n - i,
        {
            if str_eq(self.pairs[i].0.as_str(), k) {
                proof {
                    assert(forall|j: int| i < j < self@.len() ==> self@[j].0 != self@[i as int].0);
                    lemma_pairs_map_at(self@, i as int);
                }
                return Some(&self.pairs[i].1);
            }
            i = i + 1;
        }
        proof {
            lemma_pairs_map_absent(self@, k@);
        }
        None
    }
}

/// First index in `v[i..end)` holding `c`, as `spec_find_in` gives it.
fn find_char_in(v: &Vec<char>, i: usize, end: usize, c: char) -> (r: Option<usize>)
    requires
        i <= end <= v@.len(),
    ensures
        match r {
            Some(j) => i <= j < end && spec_find_in(v@, i as int, end as int, c) == Some(
                j as int,
            ),
            None => spec_find_in(v@, i as int, end as int, c) is None,
        },
{
    let mut j: usize = i;
    while j < end
        invariant
            i <= j <= end <= v@.len(),
            spec_find_in(v@, i as int, end as int, c) == spec_find_in(
                v@,
                j as int,
                end as int,
                c,
            ),
        decreases end - j,
    {
        if v[j] == c {
            return Some(j);
        }
        j = j + 1;
    }
    None
}

/// Split `v[i..]` into `key=value` pairs, appending them to `out` in
/// order; false when some segment has no `=`.
fn split_pairs_from(v: &Vec<char>, i: usize, out: &mut Vec<(String, String)>) -> (ok: bool)
    requires
        i <= v@.len(),
    ensures
        match spec_split_query_from(v@, i as int) {
            Some(rest) => ok && spec_pairs_view(final(out)@) == spec_pairs_view(old(out)@)
                + rest,
            None => !ok,
        },
    decreases v@.len() - i,
{
    let n = v.len();
    let a_opt = find_char_in(v, i, n, '&');
    let end = match a_opt {
        Some(a) => a,
        None => n,
    };
    match find_char_in(v, i, end, '=') {
        None => false,
        Some(e) => {
            let k = chars_substring(v, i, e);
            let val = chars_substring(v, e + 1, end);
            let ghost p = (v@.subrange(i as int, e as int), v@.subrange(e + 1, end as int));
            out.push((k, val));
            proof {
                assert(spec_pairs_view(out@) =~= spec_pairs_view(old(out)@) + seq![p]);
            }
            match a_opt {
                None => {
                    proof {
                        assert(spec_split_query_from(v@, i as int) == Some(seq![p]));
                        assert(spec_pairs_view(out@) =~= spec_pairs_view(old(out)@) + seq![p]);
                    }
                    true
                },
                Some(a) => {
                    let ghost mid = out@;
                    let r = split_pairs_from(v, a + 1, out);
                    proof {
                        if spec_split_query_from(v@, a + 1) is Some {
                            let rest = spec_split_query_from(v@, a + 1).unwrap();
                            assert(spec_pairs_view(out@) =~= spec_pairs_view(old(out)@) + (
                            seq![p] + rest));
                        }
                    }
                    r
                },
            }
        },
    }
}

/// Decode a `key=value&key=value` body into a parameter mapping; later
/// duplicate keys silently overwrite earlier ones, and a segment without
/// `=` fails the whole decode. No percent-decoding is performed.
pub fn split_query(query: &str) -> (r: Result<ParamMap, Error>)
    ensures
        match r {
            Ok(m) => m.wf() && spec_split_query(query@) is Some && m.as_map() == spec_pairs_map(
                spec_split_query(query@).unwrap(),
            ),
            Err(e) => e is Parse && spec_split_query(query@) is None,
        },
{
    let v = str_to_chars(query);
    let mut pairs: Vec<(String, String)> = Vec::new();
    if !split_pairs_from(&v, 0, &mut pairs) {
        return Err(Error::Parse);
    }
    let ghost ps = spec_split_query(query@).unwrap();
    proof {
        assert(spec_pairs_view(pairs@) =~= ps);
    }
    let mut m = ParamMap::new();
    let n = pairs.len();
    let mut t: usize = 0;
    while t < n
        invariant
            t <= n,
            n == pairs@.len(),
            ps == spec_pairs_view(pairs@),
            ps.len() == n,
            m.wf(),
            m.as_map() == spec_pairs_map(ps.take(t as int)),
        decreases n - t,
    {
        let k = pairs[t].0.clone();
        let val = pairs[t].1.clone();
        proof {
            assert(k@ == ps[t as int].0 && val@ == ps[t as int].1);
            assert(ps.take(t as int + 1).drop_last() =~= ps.take(t as int));
            assert(ps.take(t as int + 1).last() == ps[t as int]);
        }
        m.insert(k, val);
        t = t + 1;
    }
    proof {
        assert(ps.take(n as int) =~= ps);
    }
    Ok(m)
}

/// What encoding the pairs from index `i` on yields: segments joined
/// with `&`, each `key=value`.
pub open spec fn spec_encode_from(ps: Seq<(Seq<char>, Seq<char>)>, i: int) -> Seq<char>
    decreases ps.len() - i,
{
    if !(0 <= i < ps.len()) {
        Seq::empty()
    } else {
        let seg = ps[i].0 + seq!['='] + ps[i].1;
        if i + 1 < ps.len() {
            seg + seq!['&'] + spec_encode_from(ps, i + 1)
        } else {
            seg
        }
    }
}

/// What encoding a whole pair sequence yields.
pub open spec fn spec_encode(ps: Seq<(Seq<char>, Seq<char>)>) -> Seq<char> {
    spec_encode_from(ps, 0)
}

fn encode_from(m: &ParamMap, i: usize) -> (r: String)
    requires
        i <= m@.len(),
    ensures
        r@ == spec_encode_from(m@, i as int),
    decreases m@.len() - i,
{
    proof {
        reveal_strlit("=");
        reveal_strlit("&");
    }
    if i >= m.len() {
        String::new()
    } else {
        let mut r = String::new();
        r.append(m.key_at(i).as_str());
        r.append("=");
        r.append(m.value_at(i).as_str());
        if i + 1 < m.len() {
            r.append("&");
            let rest = encode_from(m, i + 1);
            r.append(rest.as_str());
        }
        proof {
            assert(r@ =~= spec_encode_from(m@, i as int));
        }
        r
    }
}

/// Encode a parameter mapping as `key=value&key=value`, in the order the
/// pairs are held. No percent-encoding is performed.
pub fn encode_query(m: &ParamMap) -> (r: String)
    ensures
        r@ == spec_encode(m@),
{
    encode_from(m, 0)
}

/// The sequence holds neither `&` nor `=`.
pub open spec fn spec_free_of_separators(q: Seq<char>) -> bool {
    forall|x: int| 0 <= x < q.len() ==> q[x] != '&' && q[x] != '='
}

proof fn lemma_round_trip_from(s: Seq<char>, i: int, ps: Seq<(Seq<char>, Seq<char>)>, j: int)
    requires
        0 <= i <= s.len(),
        0 <= j < ps.len(),
        s.skip(i) == spec_encode_from(ps, j),
        forall|t: int|
            0 <= t < ps.len() ==> spec_free_of_separators(#[trigger] ps[t].0)
                && spec_free_of_separators(ps[t].1),
    ensures
        spec_split_query_from(s, i) == Some(ps.skip(j)),
    decreases ps.len() - j,
{
    let k = ps[j].0;
    let v = ps[j].1;
    let seg = k + seq!['='] + v;
    let q = i + k.len() + 1 + v.len();
    assert(spec_free_of_separators(ps[j].0) && spec_free_of_separators(ps[j].1));
    if j + 1 < ps.len() {
        let tail = spec_encode_from(ps, j + 1);
        assert(s.skip(i) == seg + seq!['&'] + tail);
        assert(s.len() - i == seg.len() + 1 + tail.len());
        assert forall|x: int| i <= x < s.len() implies s[x] == (seg + seq!['&'] + tail)[x - i] by {
            assert(s.skip(i)[x - i] == s[x]);
        }
        // the first '&' after i sits just past the segment
        assert(s[q] == '&');
        assert forall|x: int| i <= x < q implies s[x] != '&' by {
            if x - i < k.len() {
                assert(s[x] == k[x - i]);
            } else if x - i == k.len() {
                assert(s[x] == '=');
            } else {
                assert(s[x] == v[x - i - k.len() - 1]);
            }
        }
        lemma_find_in_props(s, i, s.len() as int, '&');
        match spec_find_in(s, i, s.len() as int, '&') {
            Some(a) => {
                assert(a == q);
                // the first '=' in the segment ends the key
                assert(s[i + k.len()] == '=');
                assert forall|x: int| i <= x < i + k.len() implies s[x] != '=' by {
                    assert(s[x] == k[x - i]);
                }
                lemma_find_in_props(s, i, q, '=');
                match spec_find_in(s, i, q, '=') {
                    Some(e) => {
                        assert(e == i + k.len());
                        assert(s.subrange(i, e) =~= k);
                        assert(s.subrange(e + 1, q) =~= v);
                        assert(s.skip(q + 1) =~= tail);
                        lemma_round_trip_from(s, q + 1, ps, j + 1);
                        assert(seq![(k, v)] + ps.skip(j + 1) =~= ps.skip(j));
                    },
                    None => {
                        assert(false);
                    },
                }
            },
            None => {
                assert(false);
            },
        }
    } else {
        assert(s.skip(i) == seg);
        assert(s.len() - i == seg.len());
        assert forall|x: int| i <= x < s.len() implies s[x] == seg[x - i] by {
            assert(s.skip(i)[x - i] == s[x]);
        }
        assert forall|x: int| i <= x < s.len() implies s[x] != '&' by {
            if x - i < k.len() {
                assert(s[x] == k[x - i]);
            } else if x - i == k.len() {
                assert(s[x] == '=');
            } else {
                assert(s[x] == v[x - i - k.len() - 1]);
            }
        }
        lemma_find_in_props(s, i, s.len() as int, '&');
        assert(spec_find_in(s, i, s.len() as int, '&') is None);
        assert(s[i + k.len()] == '=');
        assert forall|x: int| i <= x < i + k.len() implies s[x] != '=' by {
            assert(s[x] == k[x - i]);
        }
        lemma_find_in_props(s, i, s.len() as int, '=');
        match spec_find_in(s, i, s.len() as int, '=') {
            Some(e) => {
                assert(e == i + k.len());
                assert(s.subrange(i, e) =~= k);
                assert(s.subrange(e + 1, s.len() as int) =~= v);
                assert(seq![(k, v)] =~= ps.skip(j));
            },
            None => {
                assert(false);
            },
        }
    }
}

/// Law: decoding an encoded mapping restores it. Holds for every
/// nonempty pair sequence whose keys and values are free of `&` and `=`;
/// the empty mapping encodes to the empty string, which does not decode.
pub proof fn lemma_query_round_trip(ps: Seq<(Seq<char>, Seq<char>)>)
    requires
        ps.len() > 0,
        forall|t: int|
            0 <= t < ps.len() ==> spec_free_of_separators(#[trigger] ps[t].0)
                && spec_free_of_separators(ps[t].1),
    ensures
        spec_split_query(spec_encode(ps)) == Some(ps),
{
    let s = spec_encode(ps);
    assert(s.skip(0) =~= s);
    lemma_round_trip_from(s, 0, ps, 0);
    assert(ps.skip(0) =~= ps);
}

} // verus!

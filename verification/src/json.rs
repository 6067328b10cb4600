//! Syntax of the JSON wire format: validation of whole bodies and the
//! primitive pieces (strings, numbers) that record extraction reads.

use vstd::prelude::*;
use crate::chars::{char_from_u32, lemma_char_scalar_eq, push_char};

verus! {

/// JSON insignificant whitespace.
pub open spec fn spec_is_ws(c: char) -> bool {
    c == ' ' || c == '\t' || c == '\n' || c == '\r'
}

/// A decimal digit.
pub open spec fn spec_is_digit(c: char) -> bool {
    48 <= c as u32 && c as u32 <= 57
}

/// Value of a hexadecimal digit, or None.
pub open spec fn spec_hex_val(c: char) -> Option<u32> {
    let u = c as u32;
    if 48 <= u && u <= 57 {
        Some((u - 48) as u32)
    } else if 65 <= u && u <= 70 {
        Some((u - 55) as u32)
    } else if 97 <= u && u <= 102 {
        Some((u - 87) as u32)
    } else {
        None
    }
}

/// First index at or after `i` that is not whitespace.
pub open spec fn spec_skip_ws(s: Seq<char>, i: int) -> int
    decreases s.len() - i,
{
    if 0 <= i && i < s.len() && spec_is_ws(s[i]) {
        spec_skip_ws(s, i + 1)
    } else {
        i
    }
}

/// Skipping whitespace stays within `[i, s.len()]`.
proof fn lemma_skip_ws_bounds(s: Seq<char>, i: int)
    requires
        0 <= i <= s.len(),
    ensures
        i <= spec_skip_ws(s, i) <= s.len(),
    decreases s.len() - i,
{
    if i < s.len() && spec_is_ws(s[i]) {
        lemma_skip_ws_bounds(s, i + 1);
    }
}

/// Four hexadecimal digits starting at `i`, as a number.
pub open spec fn spec_hex4(s: Seq<char>, i: int) -> Option<u32> {
    if 0 <= i && i + 4 <= s.len() {
        match (spec_hex_val(s[i]), spec_hex_val(s[i + 1]), spec_hex_val(s[i + 2]), spec_hex_val(
            s[i + 3],
        )) {
            (Some(a), Some(b), Some(c), Some(d)) => Some(
                (a * 4096 + b * 256 + c * 16 + d) as u32,
            ),
            _ => None,
        }
    } else {
        None
    }
}

/// Scan a string literal's body from `i` (just past the opening quote),
/// decoding escapes onto `acc`; yields the content and the index just
/// past the closing quote.
pub open spec fn spec_string_body(s: Seq<char>, i: int, acc: Seq<char>) -> Option<
    (Seq<char>, int),
>
    decreases s.len() - i,
{
    if !(0 <= i && i < s.len()) {
        None
    } else {
        let c = s[i];
        if c == '"' {
            Some((acc, i + 1))
        } else if c == '\\' {
            if i + 1 < s.len() {
                let e = s[i + 1];
                if e == '"' || e == '\\' || e == '/' {
                    spec_string_body(s, i + 2, acc.push(e))
                } else if e == 'b' {
                    spec_string_body(s, i + 2, acc.push('\u{0008}'))
                } else if e == 'f' {
                    spec_string_body(s, i + 2, acc.push('\u{000C}'))
                } else if e == 'n' {
                    spec_string_body(s, i + 2, acc.push('\n'))
                } else if e == 'r' {
                    spec_string_body(s, i + 2, acc.push('\r'))
                } else if e == 't' {
                    spec_string_body(s, i + 2, acc.push('\t'))
                } else if e == 'u' {
                    match spec_hex4(s, i + 2) {
                        Some(u) => if u < 0xD800 || u > 0xDFFF {
                            spec_string_body(s, i + 6, acc.push(u as char))
                        } else if u < 0xDC00 {
                            if i + 7 < s.len() && s[i + 6] == '\\' && s[i + 7] == 'u' {
                                match spec_hex4(s, i + 8) {
                                    Some(lo) => if 0xDC00 <= lo && lo <= 0xDFFF {
                                        let code = (0x10000 + (u - 0xD800) * 0x400 + (lo - 0xDC00))
                                            as u32;
                                        spec_string_body(s, i + 12, acc.push(code as char))
                                    } else {
                                        None
                                    },
                                    None => None,
                                }
                            } else {
                                None
                            }
                        } else {
                            None
                        },
                        None => None,
                    }
                } else {
                    None
                }
            } else {
                None
            }
        } else if (c as u32) < 32 {
            None
        } else {
            spec_string_body(s, i + 1, acc.push(c))
        }
    }
}

/// A whole string literal at `i` (the opening quote): its decoded
/// content and the index just past the closing quote.
pub open spec fn spec_parse_string(s: Seq<char>, i: int) -> Option<(Seq<char>, int)> {
    if 0 <= i && i < s.len() && s[i] == '"' {
        spec_string_body(s, i + 1, Seq::empty())
    } else {
        None
    }
}

/// First index at or after `i` that is not a digit.
pub open spec fn spec_skip_digits(s: Seq<char>, i: int) -> int
    decreases s.len() - i,
{
    if 0 <= i && i < s.len() && spec_is_digit(s[i]) {
        spec_skip_digits(s, i + 1)
    } else {
        i
    }
}

/// Skipping digits stays within `[i, s.len()]`.
proof fn lemma_skip_digits_bounds(s: Seq<char>, i: int)
    requires
        0 <= i <= s.len(),
    ensures
        i <= spec_skip_digits(s, i) <= s.len(),
    decreases s.len() - i,
{
    if i < s.len() && spec_is_digit(s[i]) {
        lemma_skip_digits_bounds(s, i + 1);
    }
}

/// End of a fraction part at `k`, if any; None when a lone `.` stands
/// without digits.
pub open spec fn spec_after_frac(s: Seq<char>, k: int) -> Option<int> {
    if 0 <= k && k < s.len() && s[k] == '.' {
        if k + 1 < s.len() && spec_is_digit(s[k + 1]) {
            Some(spec_skip_digits(s, k + 1))
        } else {
            None
        }
    } else {
        Some(k)
    }
}

/// End of an exponent part at `m`, if any; None when it lacks digits.
pub open spec fn spec_after_exp(s: Seq<char>, m: int) -> Option<int> {
    if 0 <= m && m < s.len() && (s[m] == 'e' || s[m] == 'E') {
        let p = if m + 1 < s.len() && (s[m + 1] == '+' || s[m + 1] == '-') {
            m + 2
        } else {
            m + 1
        };
        if p < s.len() && spec_is_digit(s[p]) {
            Some(spec_skip_digits(s, p))
        } else {
            None
        }
    } else {
        Some(m)
    }
}

/// End of the JSON number token at `i`: optional minus, integer part
/// without leading zeros, optional fraction, optional exponent.
pub open spec fn spec_parse_number(s: Seq<char>, i: int) -> Option<int> {
    if !(0 <= i && i < s.len()) {
        None
    } else {
        let j = if s[i] == '-' {
            i + 1
        } else {
            i
        };
        if !(j < s.len() && spec_is_digit(s[j])) {
            None
        } else {
            let k = if s[j] == '0' {
                j + 1
            } else {
                spec_skip_digits(s, j)
            };
            match spec_after_frac(s, k) {
                Some(m) => spec_after_exp(s, m),
                None => None,
            }
        }
    }
}

/// Numeric value of the digits in `[i, end)`, folded onto `acc`.
pub open spec fn spec_digits_val(s: Seq<char>, i: int, end: int, acc: int) -> int
    decreases end - i,
{
    if 0 <= i && i < end && end <= s.len() {
        spec_digits_val(s, i + 1, end, acc * 10 + (s[i] as u32 - 48))
    } else {
        acc
    }
}

/// Folding digits never shrinks a nonnegative accumulator.
proof fn lemma_digits_val_ge(s: Seq<char>, i: int, end: int, acc: int)
    requires
        0 <= i,
        end <= s.len(),
        acc >= 0,
        forall|x: int| i <= x < end ==> spec_is_digit(s[x]),
    ensures
        spec_digits_val(s, i, end, acc) >= acc,
    decreases end - i,
{
    if i < end {
        assert(spec_is_digit(s[i]));
        lemma_digits_val_ge(s, i + 1, end, acc * 10 + (s[i] as u32 - 48));
    }
}

/// The u64 at `i`: the number token there must be a plain unsigned
/// integer, not followed by a fraction or exponent, fitting in 64 bits.
pub open spec fn spec_parse_u64(s: Seq<char>, i: int) -> Option<(u64, int)> {
    if !(0 <= i && i < s.len() && spec_is_digit(s[i])) {
        None
    } else {
        let e = spec_skip_digits(s, i);
        if s[i] == '0' && e != i + 1 {
            None
        } else if e < s.len() && (s[e] == '.' || s[e] == 'e' || s[e] == 'E') {
            None
        } else {
            let val = spec_digits_val(s, i, e, 0);
            if val <= u64::MAX {
                Some((val as u64, e))
            } else {
                None
            }
        }
    }
}

/// End of the JSON value at `i`, or None when the text there is not a
/// value. `i` must point at the value's first character.
pub open spec fn spec_parse_value(s: Seq<char>, i: int) -> Option<int>
    decreases s.len() - i, 0int,
{
    if !(0 <= i && i < s.len()) {
        None
    } else {
        let c = s[i];
        if c == '"' {
            match spec_parse_string(s, i) {
                Some(p) => Some(p.1),
                None => None,
            }
        } else if c == '[' {
            let j = spec_skip_ws(s, i + 1);
            if i < j && j <= s.len() {
                if j < s.len() && s[j] == ']' {
                    Some(j + 1)
                } else {
                    spec_parse_elements(s, j)
                }
            } else {
                None
            }
        } else if c == '{' {
            let j = spec_skip_ws(s, i + 1);
            if i < j && j <= s.len() {
                if j < s.len() && s[j] == '}' {
                    Some(j + 1)
                } else {
                    spec_parse_members(s, j)
                }
            } else {
                None
            }
        } else if c == 't' {
            if i + 4 <= s.len() && s[i + 1] == 'r' && s[i + 2] == 'u' && s[i + 3] == 'e' {
                Some(i + 4)
            } else {
                None
            }
        } else if c == 'f' {
            if i + 5 <= s.len() && s[i + 1] == 'a' && s[i + 2] == 'l' && s[i + 3] == 's' && s[i + 4]
                == 'e' {
                Some(i + 5)
            } else {
                None
            }
        } else if c == 'n' {
            if i + 4 <= s.len() && s[i + 1] == 'u' && s[i + 2] == 'l' && s[i + 3] == 'l' {
                Some(i + 4)
            } else {
                None
            }
        } else {
            spec_parse_number(s, i)
        }
    }
}

/// End of a nonempty bracket-free element list starting at the first
/// element `j`, up to and including the closing `]`.
pub open spec fn spec_parse_elements(s: Seq<char>, j: int) -> Option<int>
    decreases s.len() - j, 1int,
{
    if !(0 <= j <= s.len()) {
        None
    } else {
        match spec_parse_value(s, j) {
            None => None,
            Some(e) => {
                let k = spec_skip_ws(s, e);
                if k < s.len() && s[k] == ',' {
                    let n = spec_skip_ws(s, k + 1);
                    if j < n && n <= s.len() {
                        spec_parse_elements(s, n)
                    } else {
                        None
                    }
                } else if k < s.len() && s[k] == ']' {
                    Some(k + 1)
                } else {
                    None
                }
            },
        }
    }
}

/// End of a nonempty member list starting at the first key `j`, up to
/// and including the closing `}`.
pub open spec fn spec_parse_members(s: Seq<char>, j: int) -> Option<int>
    decreases s.len() - j, 1int,
{
    if !(0 <= j <= s.len()) {
        None
    } else {
        match spec_parse_string(s, j) {
            None => None,
            Some(p) => {
                let k = spec_skip_ws(s, p.1);
                if k < s.len() && s[k] == ':' {
                    let m = spec_skip_ws(s, k + 1);
                    if j <= m && m <= s.len() {
                        match spec_parse_value(s, m) {
                            None => None,
                            Some(e) => {
                                let k2 = spec_skip_ws(s, e);
                                if k2 < s.len() && s[k2] == ',' {
                                    let n = spec_skip_ws(s, k2 + 1);
                                    if j < n && n <= s.len() {
                                        spec_parse_members(s, n)
                                    } else {
                                        None
                                    }
                                } else if k2 < s.len() && s[k2] == '}' {
                                    Some(k2 + 1)
                                } else {
                                    None
                                }
                            },
                        }
                    } else {
                        None
                    }
                } else {
                    None
                }
            },
        }
    }
}

/// The whole text is exactly one JSON value with only whitespace
/// around it.
pub open spec fn spec_json_valid(s: Seq<char>) -> bool {
    let i = spec_skip_ws(s, 0);
    match spec_parse_value(s, i) {
        Some(e) => spec_skip_ws(s, e) == s.len(),
        None => false,
    }
}

fn is_ws(c: char) -> (r: bool)
    ensures
        r == spec_is_ws(c),
{
    c == ' ' || c == '\t' || c == '\n' || c == '\r'
}

fn is_digit(c: char) -> (r: bool)
    ensures
        r == spec_is_digit(c),
{
    let u = c as u32;
    48 <= u && u <= 57
}

fn hex_val(c: char) -> (r: Option<u32>)
    ensures
        r == spec_hex_val(c),
        r is Some ==> r.unwrap() <= 15,
{
    let u = c as u32;
    if 48 <= u && u <= 57 {
        Some(u - 48)
    } else if 65 <= u && u <= 70 {
        Some(u - 55)
    } else if 97 <= u && u <= 102 {
        Some(u - 87)
    } else {
        None
    }
}

/// First non-whitespace index at or after `i`.
pub fn skip_ws(v: &Vec<char>, i: usize) -> (r: usize)
    requires
        i <= v@.len(),
    ensures
        r == spec_skip_ws(v@, i as int),
        i <= r <= v@.len(),
{
    let n = v.len();
    let mut r = i;
    while r < n && is_ws(v[r])
        invariant
            i <= r <= n,
            n == v@.len(),
            spec_skip_ws(v@, i as int) == spec_skip_ws(v@, r as int),
        decreases n - r,
    {
        r = r + 1;
    }
    r
}

fn skip_digits(v: &Vec<char>, i: usize) -> (r: usize)
    requires
        i <= v@.len(),
    ensures
        r == spec_skip_digits(v@, i as int),
        i <= r <= v@.len(),
{
    let n = v.len();
    let mut r = i;
    while r < n && is_digit(v[r])
        invariant
            i <= r <= n,
            n == v@.len(),
            spec_skip_digits(v@, i as int) == spec_skip_digits(v@, r as int),
        decreases n - r,
    {
        r = r + 1;
    }
    r
}

fn hex4_at(v: &Vec<char>, i: usize) -> (r: Option<u32>)
    requires
        i <= v@.len(),
    ensures
        r == spec_hex4(v@, i as int),
        r is Some ==> i + 4 <= v@.len() && r.unwrap() <= 0xFFFF,
{
    if v.len() - i < 4 {
        return None;
    }
    match (hex_val(v[i]), hex_val(v[i + 1]), hex_val(v[i + 2]), hex_val(v[i + 3])) {
        (Some(a), Some(b), Some(c), Some(d)) => Some(a * 4096 + b * 256 + c * 16 + d),
        _ => None,
    }
}

/// Parse the string literal at `i`, decoding escapes.
pub fn parse_string_at(v: &Vec<char>, i: usize) -> (r: Option<(String, usize)>)
    requires
        i <= v@.len(),
    ensures
        match r {
            Some(p) => spec_parse_string(v@, i as int) == Some((p.0@, p.1 as int)) && i < p.1
                <= v@.len(),
            None => spec_parse_string(v@, i as int) is None,
        },
{
    let n = v.len();
    if i >= n || v[i] != '"' {
        return None;
    }
    let mut acc = String::new();
    let mut cur: usize = i + 1;
    while cur < n
        invariant
            i + 1 <= cur <= n,
            n == v@.len(),
            v@[i as int] == '"',
            spec_parse_string(v@, i as int) == spec_string_body(v@, cur as int, acc@),
        decreases n - cur,
    {
        let c = v[cur];
        if c == '"' {
            return Some((acc, cur + 1));
        } else if c == '\\' {
            if cur + 1 >= n {
                return None;
            }
            let e = v[cur + 1];
            if e == '"' || e == '\\' || e == '/' {
                push_char(&mut acc, e);
                cur = cur + 2;
            } else if e == 'b' {
                push_char(&mut acc, '\u{0008}');
                cur = cur + 2;
            } else if e == 'f' {
                push_char(&mut acc, '\u{000C}');
                cur = cur + 2;
            } else if e == 'n' {
                push_char(&mut acc, '\n');
                cur = cur + 2;
            } else if e == 'r' {
                push_char(&mut acc, '\r');
                cur = cur + 2;
            } else if e == 't' {
                push_char(&mut acc, '\t');
                cur = cur + 2;
            } else if e == 'u' {
                match hex4_at(v, cur + 2) {
                    None => {
                        return None;
                    },
                    Some(u) => {
                        if u < 0xD800 || u > 0xDFFF {
                            match char_from_u32(u) {
                                Some(ch) => {
                                    proof {
                                        lemma_char_scalar_eq(u, ch);
                                    }
                                    push_char(&mut acc, ch);
                                    cur = cur + 6;
                                },
                                None => {
                                    proof {
                                        assert(false);
                                    }
                                    return None;
                                },
                            }
                        } else if u < 0xDC00 {
                            if n - cur > 7 && v[cur + 6] == '\\' && v[cur + 7] == 'u' {
                                match hex4_at(v, cur + 8) {
                                    None => {
                                        return None;
                                    },
                                    Some(lo) => {
                                        if 0xDC00 <= lo && lo <= 0xDFFF {
                                            let code = 0x10000 + (u - 0xD800) * 0x400 + (lo
                                                - 0xDC00);
                                            match char_from_u32(code) {
                                                Some(ch) => {
                                                    proof {
                                                        lemma_char_scalar_eq(code, ch);
                                                    }
                                                    push_char(&mut acc, ch);
                                                    cur = cur + 12;
                                                },
                                                None => {
                                                    proof {
                                                        assert(false);
                                                    }
                                                    return None;
                                                },
                                            }
                                        } else {
                                            return None;
                                        }
                                    },
                                }
                            } else {
                                return None;
                            }
                        } else {
                            return None;
                        }
                    },
                }
            } else {
                return None;
            }
        } else if (c as u32) < 32 {
            return None;
        } else {
            push_char(&mut acc, c);
            cur = cur + 1;
        }
    }
    None
}

/// End of the number token at `i`, per the strict JSON grammar.
fn number_end(v: &Vec<char>, i: usize) -> (r: Option<usize>)
    requires
        i <= v@.len(),
    ensures
        match r {
            Some(e) => spec_parse_number(v@, i as int) == Some(e as int) && i < e <= v@.len(),
            None => spec_parse_number(v@, i as int) is None,
        },
{
    let n = v.len();
    if i >= n {
        return None;
    }
    let j = if v[i] == '-' {
        i + 1
    } else {
        i
    };
    if !(j < n && is_digit(v[j])) {
        return None;
    }
    let k = if v[j] == '0' {
        j + 1
    } else {
        skip_digits(v, j)
    };
    proof {
        if v@[j as int] != '0' {
            assert(spec_skip_digits(v@, j as int) == spec_skip_digits(v@, j + 1));
            lemma_skip_digits_bounds(v@, j + 1);
        }
        assert(k > j);
    }
    // fraction
    let m: usize;
    if k < n && v[k] == '.' {
        if k + 1 < n && is_digit(v[k + 1]) {
            m = skip_digits(v, k + 1);
        } else {
            return None;
        }
    } else {
        m = k;
    }
    assert(spec_after_frac(v@, k as int) == Some(m as int));
    // exponent
    let r: usize;
    if m < n && (v[m] == 'e' || v[m] == 'E') {
        let p = if m + 1 < n && (v[m + 1] == '+' || v[m + 1] == '-') {
            m + 2
        } else {
            m + 1
        };
        if p < n && is_digit(v[p]) {
            r = skip_digits(v, p);
        } else {
            return None;
        }
    } else {
        r = m;
    }
    assert(spec_after_exp(v@, m as int) == Some(r as int));
    Some(r)
}

/// The u64 at `i`, when the number token there is a plain unsigned
/// integer fitting in 64 bits.
pub fn parse_u64_at(v: &Vec<char>, i: usize) -> (r: Option<(u64, usize)>)
    requires
        i <= v@.len(),
    ensures
        match r {
            Some(p) => spec_parse_u64(v@, i as int) == Some((p.0, p.1 as int)) && i < p.1
                <= v@.len(),
            None => spec_parse_u64(v@, i as int) is None,
        },
{
    let n = v.len();
    if i >= n || !is_digit(v[i]) {
        return None;
    }
    let e = skip_digits(v, i);
    proof {
        assert(spec_skip_digits(v@, i as int) == spec_skip_digits(v@, i + 1));
        lemma_skip_digits_bounds(v@, i + 1);
        assert(e > i);
    }
    if v[i] == '0' && e != i + 1 {
        return None;
    }
    if e < n && (v[e] == '.' || v[e] == 'e' || v[e] == 'E') {
        return None;
    }
    proof {
        lemma_skip_digits_in_range(v@, i as int, e as int);
    }
    let mut acc: u64 = 0;
    let mut p: usize = i;
    while p < e
        invariant
            i < e,
            i <= p <= e <= n,
            n == v@.len(),
            spec_is_digit(v@[i as int]),
            e == spec_skip_digits(v@, i as int),
            !(v@[i as int] == '0' && e != i + 1),
            !(e < n && (v@[e as int] == '.' || v@[e as int] == 'e' || v@[e as int] == 'E')),
            forall|x: int| i <= x < e ==> spec_is_digit(v@[x]),
            spec_digits_val(v@, i as int, e as int, 0) == spec_digits_val(
                v@,
                p as int,
                e as int,
                acc as int,
            ),
        decreases e - p,
    {
        proof {
            assert(spec_is_digit(v@[p as int]));
        }
        let d = (v[p] as u32) - 48;
        assert(d <= 9);
        proof {
            assert(spec_digits_val(v@, p as int, e as int, acc as int) == spec_digits_val(
                v@,
                p + 1,
                e as int,
                acc as int * 10 + d as int,
            ));
        }
        if acc > u64::MAX / 10 || (acc == u64::MAX / 10 && (d as u64) > u64::MAX % 10) {
            proof {
                assert(acc as int * 10 + d as int > u64::MAX as int);
                lemma_digits_val_ge(v@, p + 1, e as int, acc as int * 10 + d as int);
                assert(spec_digits_val(v@, i as int, e as int, 0) > u64::MAX as int);
                assert(spec_parse_u64(v@, i as int) is None);
            }
            return None;
        }
        acc = acc * 10 + (d as u64);
        p = p + 1;
    }
    Some((acc, e))
}

/// All characters a digit run skips over are digits.
proof fn lemma_skip_digits_in_range(s: Seq<char>, i: int, e: int)
    requires
        0 <= i <= s.len(),
        e == spec_skip_digits(s, i),
    ensures
        i <= e <= s.len(),
        forall|x: int| i <= x < e ==> spec_is_digit(s[x]),
    decreases s.len() - i,
{
    if i < s.len() && spec_is_digit(s[i]) {
        lemma_skip_digits_in_range(s, i + 1, e);
    }
}

/// Skip over the JSON value at `i`, validating its syntax.
pub fn skip_value(v: &Vec<char>, i: usize) -> (r: Option<usize>)
    requires
        i <= v@.len(),
    ensures
        match r {
            Some(e) => spec_parse_value(v@, i as int) == Some(e as int) && i < e <= v@.len(),
            None => spec_parse_value(v@, i as int) is None,
        },
    decreases v@.len() - i, 0int,
{
    let n = v.len();
    if i >= n {
        return None;
    }
    let c = v[i];
    if c == '"' {
        match parse_string_at(v, i) {
            Some(p) => Some(p.1),
            None => None,
        }
    } else if c == '[' {
        let j = skip_ws(v, i + 1);
        if j < n && v[j] == ']' {
            Some(j + 1)
        } else {
            skip_elements(v, j)
        }
    } else if c == '{' {
        let j = skip_ws(v, i + 1);
        if j < n && v[j] == '}' {
            Some(j + 1)
        } else {
            skip_members(v, j)
        }
    } else if c == 't' {
        if n - i >= 4 && v[i + 1] == 'r' && v[i + 2] == 'u' && v[i + 3] == 'e' {
            Some(i + 4)
        } else {
            None
        }
    } else if c == 'f' {
        if n - i >= 5 && v[i + 1] == 'a' && v[i + 2] == 'l' && v[i + 3] == 's' && v[i + 4] == 'e' {
            Some(i + 5)
        } else {
            None
        }
    } else if c == 'n' {
        if n - i >= 4 && v[i + 1] == 'u' && v[i + 2] == 'l' && v[i + 3] == 'l' {
            Some(i + 4)
        } else {
            None
        }
    } else {
        number_end(v, i)
    }
}

/// Skip the elements of an array from the first element `j` through the
/// closing `]`.
fn skip_elements(v: &Vec<char>, j: usize) -> (r: Option<usize>)
    requires
        j <= v@.len(),
    ensures
        match r {
            Some(e) => spec_parse_elements(v@, j as int) == Some(e as int) && j < e <= v@.len(),
            None => spec_parse_elements(v@, j as int) is None,
        },
    decreases v@.len() - j, 1int,
{
    let n = v.len();
    match skip_value(v, j) {
        None => None,
        Some(e) => {
            let k = skip_ws(v, e);
            if k < n && v[k] == ',' {
                let m = skip_ws(v, k + 1);
                skip_elements(v, m)
            } else if k < n && v[k] == ']' {
                Some(k + 1)
            } else {
                None
            }
        },
    }
}

/// Skip the members of an object from the first key `j` through the
/// closing `}`.
fn skip_members(v: &Vec<char>, j: usize) -> (r: Option<usize>)
    requires
        j <= v@.len(),
    ensures
        match r {
            Some(e) => spec_parse_members(v@, j as int) == Some(e as int) && j < e <= v@.len(),
            None => spec_parse_members(v@, j as int) is None,
        },
    decreases v@.len() - j, 1int,
{
    let n = v.len();
    match parse_string_at(v, j) {
        None => None,
        Some(p) => {
            let k = skip_ws(v, p.1);
            if k < n && v[k] == ':' {
                let m = skip_ws(v, k + 1);
                match skip_value(v, m) {
                    None => None,
                    Some(e) => {
                        let k2 = skip_ws(v, e);
                        if k2 < n && v[k2] == ',' {
                            let m2 = skip_ws(v, k2 + 1);
                            skip_members(v, m2)
                        } else if k2 < n && v[k2] == '}' {
                            Some(k2 + 1)
                        } else {
                            None
                        }
                    },
                }
            } else {
                None
            }
        },
    }
}

/// The whole text is exactly one JSON value with only whitespace
/// around it.
pub fn json_valid(v: &Vec<char>) -> (r: bool)
    ensures
        r == spec_json_valid(v@),
{
    let i = skip_ws(v, 0);
    match skip_value(v, i) {
        Some(e) => skip_ws(v, e) == v.len(),
        None => false,
    }
}

} // verus!

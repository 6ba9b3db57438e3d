//! Reading the provider's redirect callback: the first request line is
//! parsed, the `code` query parameter extracted and percent-decoded, and a
//! fixed success page handed back for the browser.

use vstd::prelude::*;
use vstd::utf8::{valid_utf8, decode_utf8, encode_utf8};
use crate::credentials::{is_space_char, is_space};
use crate::encoding::{pct_decoded_bytes, percent_decode};
use crate::json::{chars_vec, string_of_chars, subrange_vec};

verus! {

/// First index at or after `i` holding `c`, else the length.
pub open spec fn idx_of(s: Seq<char>, i: int, c: char) -> int
    decreases s.len() - i,
{
    if !(0 <= i < s.len()) {
        s.len() as int
    } else if s[i] == c {
        i
    } else {
        idx_of(s, i + 1, c)
    }
}

/// Number of consecutive white-space characters starting at `i`.
pub open spec fn space_len(s: Seq<char>, i: int) -> nat
    decreases s.len() - i,
{
    if 0 <= i < s.len() && is_space_char(s[i]) {
        (1 + space_len(s, i + 1)) as nat
    } else {
        0
    }
}

/// Number of consecutive non-white-space characters starting at `i`.
pub open spec fn word_len(s: Seq<char>, i: int) -> nat
    decreases s.len() - i,
{
    if 0 <= i < s.len() && !is_space_char(s[i]) {
        (1 + word_len(s, i + 1)) as nat
    } else {
        0
    }
}

/// The first line of the request: everything before the first newline.
pub open spec fn first_line(s: Seq<char>) -> Seq<char> {
    s.subrange(0, idx_of(s, 0, '\n'))
}

/// The second white-space-separated token of a line, if the line has two.
pub open spec fn second_token(s: Seq<char>) -> Option<Seq<char>> {
    let a0 = space_len(s, 0) as int;
    let e0 = a0 + word_len(s, a0);
    let a1 = e0 + space_len(s, e0);
    let e1 = a1 + word_len(s, a1);
    if a1 < s.len() {
        Some(s.subrange(a1, e1))
    } else {
        None
    }
}

/// The query string of a request path: everything after the first `?`.
pub open spec fn query_of(path: Seq<char>) -> Option<Seq<char>> {
    let q = idx_of(path, 0, '?');
    if q < path.len() {
        Some(path.subrange(q + 1, path.len() as int))
    } else {
        None
    }
}

/// The raw value of the first `code` parameter among `&`-separated
/// `key=value` pairs; a parameter without `=` never matches.
pub open spec fn code_in_query(q: Seq<char>) -> Option<Seq<char>>
    decreases q.len(),
{
    let amp = idx_of(q, 0, '&');
    let param = q.subrange(0, amp);
    let eq = idx_of(param, 0, '=');
    if eq < param.len() && param.subrange(0, eq) == "code"@ {
        Some(param.subrange(eq + 1, param.len() as int))
    } else if 0 <= amp < q.len() {
        code_in_query(q.subrange(amp + 1, q.len() as int))
    } else {
        None
    }
}

/// The percent-decoded form of a raw value, or nothing where the decoded
/// bytes are not UTF-8 (the flow then reports an empty code).
pub open spec fn decoded_or_empty(raw: Seq<char>) -> Seq<char> {
    if valid_utf8(pct_decoded_bytes(encode_utf8(raw), 0)) {
        decode_utf8(pct_decoded_bytes(encode_utf8(raw), 0))
    } else {
        Seq::empty()
    }
}

/// The authorization code a callback request carries: the `code` parameter
/// of the query string in the request line's path, percent-decoded.
pub open spec fn extracted_code(req: Seq<char>) -> Option<Seq<char>> {
    match second_token(first_line(req)) {
        None => None,
        Some(path) => match query_of(path) {
            None => None,
            Some(q) => match code_in_query(q) {
                None => None,
                Some(raw) => Some(decoded_or_empty(raw)),
            },
        },
    }
}

pub proof fn lemma_idx_of_found(s: Seq<char>, i: int, c: char, k: int)
    requires
        0 <= i <= k <= s.len(),
        forall|q: int| i <= q < k ==> s[q] != c,
        k < s.len() ==> s[k] == c,
    ensures
        idx_of(s, i, c) == if k < s.len() {
            k
        } else {
            s.len() as int
        },
    decreases k - i,
{
    if i < k {
        lemma_idx_of_found(s, i + 1, c, k);
    }
}

/// First index of `c` within `v[i..bound)`, else `bound`.
pub fn find_char(v: &Vec<char>, i: usize, bound: usize, c: char) -> (r: usize)
    requires
        i <= bound <= v@.len(),
    ensures
        i <= r <= bound,
        forall|q: int| i <= q < r ==> v@[q] != c,
        r < bound ==> v@[r as int] == c,
{
    let mut m: usize = i;
    while m < bound && v[m] != c
        invariant
            i <= m <= bound <= v@.len(),
            forall|q: int| i <= q < m ==> v@[q] != c,
        decreases bound - m,
    {
        m = m + 1;
    }
    m
}

/// First index within `v[i..bound)` whose character fails `space`, else `bound`.
fn skip_spaces(v: &Vec<char>, i: usize, bound: usize) -> (r: usize)
    requires
        i <= bound <= v@.len(),
    ensures
        i <= r <= bound,
        forall|q: int| i <= q < r ==> is_space_char(v@[q]),
        r < bound ==> !is_space_char(v@[r as int]),
{
    let mut m: usize = i;
    while m < bound && is_space(v[m])
        invariant
            i <= m <= bound <= v@.len(),
            forall|q: int| i <= q < m ==> is_space_char(v@[q]),
        decreases bound - m,
    {
        m = m + 1;
    }
    m
}

/// First space index within `v[i..bound)`, else `bound`.
fn skip_word(v: &Vec<char>, i: usize, bound: usize) -> (r: usize)
    requires
        i <= bound <= v@.len(),
    ensures
        i <= r <= bound,
        forall|q: int| i <= q < r ==> !is_space_char(v@[q]),
        r < bound ==> is_space_char(v@[r as int]),
{
    let mut m: usize = i;
    while m < bound && !is_space(v[m])
        invariant
            i <= m <= bound <= v@.len(),
            forall|q: int| i <= q < m ==> !is_space_char(v@[q]),
        decreases bound - m,
    {
        m = m + 1;
    }
    m
}

pub proof fn lemma_space_len_run(s: Seq<char>, i: int, k: int)
    requires
        0 <= i <= k <= s.len(),
        forall|q: int| i <= q < k ==> is_space_char(s[q]),
        k < s.len() ==> !is_space_char(s[k]),
    ensures
        i + space_len(s, i) == k,
    decreases k - i,
{
    if i < k {
        lemma_space_len_run(s, i + 1, k);
    }
}

pub proof fn lemma_word_len_run(s: Seq<char>, i: int, k: int)
    requires
        0 <= i <= k <= s.len(),
        forall|q: int| i <= q < k ==> !is_space_char(s[q]),
        k < s.len() ==> is_space_char(s[k]),
    ensures
        i + word_len(s, i) == k,
    decreases k - i,
{
    if i < k {
        lemma_word_len_run(s, i + 1, k);
    }
}

/// Raw `code` value within `v[qs..qe)`, as a range, mirroring
/// `code_in_query` on that window.
fn code_range(v: &Vec<char>, qs: usize, qe: usize) -> (r: Option<(usize, usize)>)
    requires
        qs <= qe <= v@.len(),
    ensures
        match r {
            Some((vs, ve)) => qs <= vs <= ve <= qe && code_in_query(
                v@.subrange(qs as int, qe as int),
            ) == Some(v@.subrange(vs as int, ve as int)),
            None => code_in_query(v@.subrange(qs as int, qe as int)) is None,
        },
    decreases qe - qs,
{
    let ghost q = v@.subrange(qs as int, qe as int);
    let amp = find_char(v, qs, qe, '&');
    let eq = find_char(v, qs, amp, '=');
    proof {
        lemma_idx_of_found(q, 0, '&', amp as int - qs as int);
        assert(q.subrange(0, amp as int - qs as int) =~= v@.subrange(qs as int, amp as int));
        let param = q.subrange(0, amp as int - qs as int);
        lemma_idx_of_found(param, 0, '=', eq as int - qs as int);
    }
    let is_code = eq < amp && amp - qs >= 4 && eq - qs == 4 && v[qs] == 'c' && v[qs + 1] == 'o'
        && v[qs + 2] == 'd' && v[qs + 3] == 'e';
    proof {
        let param = q.subrange(0, amp as int - qs as int);
        reveal_strlit("code");
        if eq < amp {
            if is_code {
                assert(param.subrange(0, eq as int - qs as int) =~= "code"@);
            } else {
                if eq as int - qs as int == 4 {
                    let key = param.subrange(0, 4);
                    assert(key[0] == v@[qs as int] && key[1] == v@[qs as int + 1] && key[2]
                        == v@[qs as int + 2] && key[3] == v@[qs as int + 3]);
                } else {
                    assert(param.subrange(0, eq as int - qs as int).len() != "code"@.len());
                }
            }
        }
    }
    if is_code {
        proof {
            let param = q.subrange(0, amp as int - qs as int);
            assert(param.subrange(eq as int - qs as int + 1, param.len() as int) =~= v@.subrange(
                eq as int + 1,
                amp as int,
            ));
        }
        Some((eq + 1, amp))
    } else if amp < qe {
        let r = code_range(v, amp + 1, qe);
        proof {
            assert(q.subrange(amp as int - qs as int + 1, q.len() as int) =~= v@.subrange(
                amp as int + 1,
                qe as int,
            ));
        }
        r
    } else {
        None
    }
}

/// Extract the authorization code from the raw callback request text.
pub fn extract_code_from_request(req: &str) -> (r: Option<String>)
    ensures
        match r {
            Some(code) => extracted_code(req@) == Some(code@),
            None => extracted_code(req@) is None,
        },
{
    let v = chars_vec(req);
    let nl = find_char(&v, 0, v.len(), '\n');
    let ghost line = first_line(req@);
    proof {
        lemma_idx_of_found(req@, 0, '\n', nl as int);
        assert(line =~= v@.subrange(0, nl as int));
    }
    let a0 = skip_spaces(&v, 0, nl);
    let e0 = skip_word(&v, a0, nl);
    let a1 = skip_spaces(&v, e0, nl);
    let e1 = skip_word(&v, a1, nl);
    proof {
        assert forall|q: int| 0 <= q < nl implies line[q] == v@[q] by {}
        lemma_space_len_run(line, 0, a0 as int);
        lemma_word_len_run(line, a0 as int, e0 as int);
        lemma_space_len_run(line, e0 as int, a1 as int);
        lemma_word_len_run(line, a1 as int, e1 as int);
    }
    if a1 >= nl {
        return None;
    }
    let ghost path = line.subrange(a1 as int, e1 as int);
    proof {
        assert(second_token(line) == Some(path));
        assert(path =~= v@.subrange(a1 as int, e1 as int));
    }
    let qm = find_char(&v, a1, e1, '?');
    proof {
        lemma_idx_of_found(path, 0, '?', qm as int - a1 as int);
    }
    if qm >= e1 {
        return None;
    }
    let ghost query = path.subrange(qm as int - a1 as int + 1, path.len() as int);
    proof {
        assert(query_of(path) == Some(query));
        assert(query =~= v@.subrange(qm as int + 1, e1 as int));
    }
    match code_range(&v, qm + 1, e1) {
        Some((vs, ve)) => {
            let raw_vec = subrange_vec(&v, vs, ve);
            let raw = string_of_chars(&raw_vec);
            match percent_decode(raw.as_str()) {
                Some(code) => Some(code),
                None => Some(String::new()),
            }
        },
        None => None,
    }
}

/// Number of white-space characters at the end.
pub open spec fn trailing_spaces(s: Seq<char>) -> nat
    decreases s.len(),
{
    if s.len() > 0 && is_space_char(s.last()) {
        (1 + trailing_spaces(s.drop_last())) as nat
    } else {
        0
    }
}

/// The string with leading and trailing white space removed.
pub open spec fn trim_spaces(s: Seq<char>) -> Seq<char> {
    if space_len(s, 0) == s.len() {
        Seq::empty()
    } else {
        s.subrange(space_len(s, 0) as int, s.len() - trailing_spaces(s))
    }
}

pub proof fn lemma_trailing_run(s: Seq<char>, k: int)
    requires
        -1 <= k < s.len(),
        forall|q: int| k < q < s.len() ==> is_space_char(s[q]),
        k >= 0 ==> !is_space_char(s[k]),
    ensures
        trailing_spaces(s) == s.len() - 1 - k,
    decreases s.len(),
{
    if k == s.len() - 1 {
    } else {
        assert(is_space_char(s.last()));
        lemma_trailing_run(s.drop_last(), k);
    }
}

/// Remove leading and trailing white space.
pub fn trim_str(s: &str) -> (r: String)
    ensures
        r@ == trim_spaces(s@),
{
    let v = chars_vec(s);
    let a = skip_spaces(&v, 0, v.len());
    proof {
        lemma_space_len_run(s@, 0, a as int);
    }
    if a == v.len() {
        return String::new();
    }
    let mut b: usize = v.len();
    while b > a + 1 && is_space(v[b - 1])
        invariant
            a < b <= v@.len(),
            v@ == s@,
            forall|q: int| b <= q < v@.len() ==> is_space_char(v@[q]),
        decreases b,
    {
        b = b - 1;
    }
    proof {
        if b == a + 1 && is_space_char(v@[b - 1]) {
            assert(!is_space_char(v@[a as int]));
            assert(false);
        }
        lemma_trailing_run(s@, b as int - 1);
    }
    let t = subrange_vec(&v, a, b);
    string_of_chars(&t)
}

/// The static page the listener answers the browser with.
pub fn success_response() -> (r: String)
    ensures
        r@
            == "HTTP/1.1 200 OK\r\nContent-Type: text/html\r\n\r\n<html><body><h1>Authorization successful!</h1><p>You can close this window and return to the terminal.</p></body></html>"@,
{
    String::from_str(
        "HTTP/1.1 200 OK\r\nContent-Type: text/html\r\n\r\n<html><body><h1>Authorization successful!</h1><p>You can close this window and return to the terminal.</p></body></html>",
    )
}

} // verus!

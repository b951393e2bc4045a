//! The request a filter tree is evaluated against, built in memory: its
//! method, its path and query string, its headers, a side-table of values
//! handed in from outside, and its body.
use vstd::prelude::*;

use crate::rejection::Method;
use crate::text::chars_of;
use crate::value::{Value, ValueView};

verus! {

/// A request as filters see it.
#[derive(Debug, Clone)]
pub struct Request {
    /// The method.
    pub method: Method,
    /// The path of the target; it begins with `/`.
    pub path: String,
    /// The query string after `?`, if the target has one.
    pub query: Option<String>,
    /// The headers as name and value, in order; a name may repeat.
    pub headers: Vec<(String, String)>,
    /// Values handed in from outside, each under a key; the last one added
    /// under a key counts.
    pub extensions: Vec<(String, Value)>,
    /// The body.
    pub body: Vec<u8>,
}

/// The mathematical value of a [`Request`].
pub struct RequestView {
    pub method: Method,
    pub path: Seq<char>,
    pub query: Option<Seq<char>>,
    pub headers: Seq<(Seq<char>, Seq<char>)>,
    pub extensions: Seq<(Seq<char>, ValueView)>,
    pub body: Seq<u8>,
}

pub open spec fn opt_view(o: Option<String>) -> Option<Seq<char>> {
    match o {
        Some(s) => Some(s@),
        None => None,
    }
}

pub open spec fn pairs_view(v: Seq<(String, String)>) -> Seq<(Seq<char>, Seq<char>)> {
    v.map_values(|p: (String, String)| (p.0@, p.1@))
}

impl View for Request {
    type V = RequestView;

    open spec fn view(&self) -> RequestView {
        RequestView {
            method: self.method,
            path: self.path@,
            query: opt_view(self.query),
            headers: pairs_view(self.headers@),
            extensions: self.extensions@.map_values(|e: (String, Value)| (e.0@, e.1@)),
            body: self.body@,
        }
    }
}

/// The first index at or after `from`, and before `to`, where `s` holds `c`;
/// `to` if there is none.
pub open spec fn first_in(s: Seq<char>, c: char, from: int, to: int) -> int
    decreases to - from,
{
    if from >= to {
        to
    } else if s[from] == c {
        from
    } else {
        first_in(s, c, from + 1, to)
    }
}

/// The part of a request target before its query string.
pub open spec fn before_query(uri: Seq<char>) -> Seq<char> {
    uri.subrange(0, first_in(uri, '?', 0, uri.len() as int))
}

/// The query string of a request target: what follows its first `?`.
pub open spec fn target_query(uri: Seq<char>) -> Option<Seq<char>> {
    let q = first_in(uri, '?', 0, uri.len() as int);
    if q < uri.len() {
        Some(uri.subrange(q + 1, uri.len() as int))
    } else {
        None
    }
}

/// The path of a request target. A target that begins with `/` is a path;
/// one with a scheme (`http://host/p`) has the path after its authority, or
/// `/` when there is none; any other (an authority such as `host:1234`, or
/// nothing) stands for the root `/`.
pub open spec fn target_path(uri: Seq<char>) -> Seq<char> {
    let t = before_query(uri);
    if t.len() > 0 && t[0] == '/' {
        t
    } else {
        let c = first_in(t, ':', 0, t.len() as int);
        if c + 2 < t.len() && t[c + 1] == '/' && t[c + 2] == '/' {
            let p = first_in(t, '/', c + 3, t.len() as int);
            if p < t.len() {
                t.subrange(p, t.len() as int)
            } else {
                "/"@
            }
        } else {
            "/"@
        }
    }
}

/// The value of the first header named `name`.
pub open spec fn header_value(headers: Seq<(Seq<char>, Seq<char>)>, name: Seq<char>) -> Option<
    Seq<char>,
>
    decreases headers.len(),
{
    if headers.len() == 0 {
        None
    } else if headers[0].0 == name {
        Some(headers[0].1)
    } else {
        header_value(headers.drop_first(), name)
    }
}

/// The value last added under `key`.
pub open spec fn extension_value(exts: Seq<(Seq<char>, ValueView)>, key: Seq<char>) -> Option<
    ValueView,
>
    decreases exts.len(),
{
    if exts.len() == 0 {
        None
    } else if exts.last().0 == key {
        Some(exts.last().1)
    } else {
        extension_value(exts.drop_last(), key)
    }
}

/// The first index at or after `from`, before `to`, that does not hold a
/// space; `to` if there is none.
pub open spec fn skip_spaces(s: Seq<char>, from: int, to: int) -> int
    decreases to - from,
{
    if from >= to {
        to
    } else if s[from] != ' ' {
        from
    } else {
        skip_spaces(s, from + 1, to)
    }
}

/// The end of `s[from..to]` once trailing spaces are taken off.
pub open spec fn trim_end(s: Seq<char>, from: int, to: int) -> int
    decreases to - from,
{
    if to <= from {
        from
    } else if s[to - 1] != ' ' {
        to
    } else {
        trim_end(s, from, to - 1)
    }
}

/// The value of the cookie `name` in a `cookie` header value `s`, looking
/// at the pairs from position `from` on. Pairs are separated by `;`, are
/// trimmed of spaces, and split at their first `=`; the first pair with the
/// name counts.
pub open spec fn cookie_from(s: Seq<char>, from: int, name: Seq<char>) -> Option<Seq<char>>
    decreases s.len() - from,
{
    if from < 0 || from > s.len() {
        None
    } else {
        let end = first_in(s, ';', from, s.len() as int);
        let a = skip_spaces(s, from, end);
        let b = trim_end(s, a, end);
        let eq = first_in(s, '=', a, b);
        if eq < b && s.subrange(a, eq) == name {
            Some(s.subrange(eq + 1, b))
        } else if from <= end && end < s.len() {
            cookie_from(s, end + 1, name)
        } else {
            None
        }
    }
}

/// The value of the cookie `name` in the request's first `cookie` header.
pub open spec fn cookie_value(req: RequestView, name: Seq<char>) -> Option<Seq<char>> {
    match header_value(req.headers, "cookie"@) {
        Some(h) => cookie_from(h, 0, name),
        None => None,
    }
}

pub proof fn lemma_first_in_bounds(s: Seq<char>, c: char, from: int, to: int)
    requires
        from <= to,
    ensures
        from <= first_in(s, c, from, to) <= to,
    decreases to - from,
{
    if from < to && s[from] != c {
        lemma_first_in_bounds(s, c, from + 1, to);
    }
}

proof fn lemma_skip_spaces_bounds(s: Seq<char>, from: int, to: int)
    requires
        from <= to,
    ensures
        from <= skip_spaces(s, from, to) <= to,
    decreases to - from,
{
    if from < to && s[from] == ' ' {
        lemma_skip_spaces_bounds(s, from + 1, to);
    }
}

proof fn lemma_trim_end_bounds(s: Seq<char>, from: int, to: int)
    requires
        from <= to,
    ensures
        from <= trim_end(s, from, to) <= to,
    decreases to - from,
{
    if from < to && s[to - 1] == ' ' {
        lemma_trim_end_bounds(s, from, to - 1);
    }
}

/// The first index at or after `from`, before `to`, where `s` holds `c`.
pub fn find_char(s: &Vec<char>, c: char, from: usize, to: usize) -> (r: usize)
    requires
        from <= to <= s@.len(),
    ensures
        r == first_in(s@, c, from as int, to as int),
        from <= r <= to,
    decreases to - from,
{
    if from >= to {
        to
    } else if s[from] == c {
        from
    } else {
        find_char(s, c, from + 1, to)
    }
}

fn skip_space_chars(s: &Vec<char>, from: usize, to: usize) -> (r: usize)
    requires
        from <= to <= s@.len(),
    ensures
        r == skip_spaces(s@, from as int, to as int),
        from <= r <= to,
    decreases to - from,
{
    if from >= to {
        to
    } else if s[from] != ' ' {
        from
    } else {
        skip_space_chars(s, from + 1, to)
    }
}

fn trim_end_chars(s: &Vec<char>, from: usize, to: usize) -> (r: usize)
    requires
        from <= to <= s@.len(),
    ensures
        r == trim_end(s@, from as int, to as int),
        from <= r <= to,
    decreases to - from,
{
    if to <= from {
        from
    } else if s[to - 1] != ' ' {
        to
    } else {
        trim_end_chars(s, from, to - 1)
    }
}

/// Whether `s[a..b]` and `t` hold the same characters.
pub fn same_chars(s: &Vec<char>, a: usize, b: usize, t: &Vec<char>) -> (r: bool)
    requires
        a <= b <= s@.len(),
    ensures
        r == (s@.subrange(a as int, b as int) == t@),
{
    if b - a != t.len() {
        return false;
    }
    let mut i: usize = 0;
    while i < t.len()
        invariant
            a <= b <= s@.len(),
            b - a == t@.len(),
            i <= t@.len(),
            forall|k: int| 0 <= k < i ==> s@[a + k] == t@[k],
        decreases t@.len() - i,
    {
        if s[a + i] != t[i] {
            assert(s@.subrange(a as int, b as int)[i as int] != t@[i as int]);
            return false;
        }
        i = i + 1;
    }
    assert(s@.subrange(a as int, b as int) =~= t@);
    true
}

/// The value of the cookie `name` in the cookie header value `header`.
pub fn find_cookie(header: &str, name: &str) -> (r: Option<String>)
    ensures
        opt_view(r) == cookie_from(header@, 0, name@),
{
    let s = chars_of(header);
    let t = chars_of(name);
    let n = s.len();
    let mut from: usize = 0;
    while from <= n
        invariant
            n == s@.len(),
            s@ == header@,
            t@ == name@,
            from <= n + 1,
            cookie_from(header@, 0, name@) == cookie_from(header@, from as int, name@),
        decreases n + 1 - from,
    {
        let end = find_char(&s, ';', from, n);
        let a = skip_space_chars(&s, from, end);
        let b = trim_end_chars(&s, a, end);
        let eq = find_char(&s, '=', a, b);
        if eq < b && same_chars(&s, a, eq, &t) {
            let v = header.substring_char(eq + 1, b);
            return Some(String::from_str(v));
        }
        if end >= n {
            return None;
        }
        from = end + 1;
    }
    None
}

/// The value of the first header named `name`.
pub fn find_header<'a>(headers: &'a Vec<(String, String)>, name: &String) -> (r: Option<&'a String>)
    ensures
        match r {
            Some(v) => header_value(pairs_view(headers@), name@) == Some(v@),
            None => header_value(pairs_view(headers@), name@) is None,
        },
{
    assert(pairs_view(headers@).subrange(0, headers@.len() as int) =~= pairs_view(headers@));
    let mut i: usize = 0;
    while i < headers.len()
        invariant
            i <= headers@.len(),
            header_value(pairs_view(headers@), name@) == header_value(
                pairs_view(headers@).subrange(i as int, headers@.len() as int),
                name@,
            ),
        decreases headers@.len() - i,
    {
        let ghost rest = pairs_view(headers@).subrange(i as int, headers@.len() as int);
        assert(rest[0] == (headers@[i as int].0@, headers@[i as int].1@));
        if headers[i].0 == *name {
            return Some(&headers[i].1);
        }
        assert(rest.drop_first() =~= pairs_view(headers@).subrange(i + 1, headers@.len() as int));
        i = i + 1;
    }
    None
}

/// The path of a request target, see [`target_path`].
pub fn path_of_target(uri: &str) -> (r: String)
    ensures
        r@ == target_path(uri@),
{
    let s = chars_of(uri);
    let n = s.len();
    let q = find_char(&s, '?', 0, n);
    if q > 0 && s[0] == '/' {
        return String::from_str(uri.substring_char(0, q));
    }
    proof {
        reveal_strlit("/");
    }
    let ghost t = before_query(uri@);
    assert(t =~= s@.subrange(0, q as int));
    let c = find_char(&s, ':', 0, q);
    assert(first_in(t, ':', 0, t.len() as int) == c) by {
        lemma_first_in_prefix(s@, ':', 0, q as int);
    }
    if q - c > 2 && s[c + 1] == '/' && s[c + 2] == '/' {
        let p = find_char(&s, '/', c + 3, q);
        assert(first_in(t, '/', c + 3, t.len() as int) == p) by {
            lemma_first_in_prefix(s@, '/', c + 3, q as int);
        }
        if p < q {
            assert(t.subrange(p as int, t.len() as int) =~= s@.subrange(p as int, q as int));
            String::from_str(uri.substring_char(p, q))
        } else {
            String::from_str("/")
        }
    } else {
        String::from_str("/")
    }
}

/// `first_in` looks only at the positions before `to`.
proof fn lemma_first_in_prefix(s: Seq<char>, c: char, from: int, to: int)
    requires
        0 <= from <= to <= s.len(),
    ensures
        first_in(s.subrange(0, to), c, from, to) == first_in(s, c, from, to),
    decreases to - from,
{
    if from < to {
        assert(s.subrange(0, to)[from] == s[from]);
        lemma_first_in_prefix(s, c, from + 1, to);
    }
}

/// The query string of a request target, see [`target_query`].
pub fn query_of_target(uri: &str) -> (r: Option<String>)
    ensures
        opt_view(r) == target_query(uri@),
{
    let s = chars_of(uri);
    let n = s.len();
    let q = find_char(&s, '?', 0, n);
    if q < n {
        Some(String::from_str(uri.substring_char(q + 1, n)))
    } else {
        None
    }
}

/// A `GET` request for `/` without headers, to be refined with the methods
/// below.
pub fn request() -> (r: Request)
    ensures
        r@.method == Method::Get,
        r@.path == "/"@,
        r@.query is None,
        r@.headers.len() == 0,
        r@.extensions.len() == 0,
        r@.body.len() == 0,
{
    let r = Request {
        method: Method::Get,
        path: String::from_str("/"),
        query: None,
        headers: Vec::new(),
        extensions: Vec::new(),
        body: Vec::new(),
    };
    assert(r@.extensions =~= Seq::<(Seq<char>, ValueView)>::empty());
    r
}

/// The value last added under `key` to `exts`.
pub fn find_extension<'a>(exts: &'a Vec<(String, Value)>, key: &String) -> (r: Option<&'a Value>)
    ensures
        match r {
            Some(v) => extension_value(
                exts@.map_values(|e: (String, Value)| (e.0@, e.1@)),
                key@,
            ) == Some(v@),
            None => extension_value(
                exts@.map_values(|e: (String, Value)| (e.0@, e.1@)),
                key@,
            ) is None,
        },
{
    let ghost all = exts@.map_values(|e: (String, Value)| (e.0@, e.1@));
    let mut i: usize = exts.len();
    assert(all.subrange(0, i as int) =~= all);
    while i > 0
        invariant
            i <= exts@.len(),
            all == exts@.map_values(|e: (String, Value)| (e.0@, e.1@)),
            extension_value(all, key@) == extension_value(all.subrange(0, i as int), key@),
        decreases i,
    {
        let ghost pre = all.subrange(0, i as int);
        assert(pre.last() == (exts@[i - 1].0@, exts@[i - 1].1@));
        if exts[i - 1].0 == *key {
            return Some(&exts[i - 1].1);
        }
        assert(pre.drop_last() =~= all.subrange(0, i - 1));
        i = i - 1;
    }
    None
}

impl Request {
    /// Sets the method.
    pub fn method(self, method: Method) -> (r: Request)
        ensures
            r@ == (RequestView { method, ..self@ }),
    {
        Request { method, ..self }
    }

    /// Sets the target: a path with an optional query string, an absolute
    /// URI, or an authority.
    pub fn path(self, uri: &str) -> (r: Request)
        ensures
            r@ == (RequestView { path: target_path(uri@), query: target_query(uri@), ..self@ }),
    {
        let path = path_of_target(uri);
        let query = query_of_target(uri);
        Request { path, query, ..self }
    }

    /// Adds a header after those already present.
    pub fn header(self, name: &str, value: &str) -> (r: Request)
        ensures
            r@ == (RequestView { headers: self@.headers.push((name@, value@)), ..self@ }),
    {
        let mut headers = self.headers;
        headers.push((String::from_str(name), String::from_str(value)));
        let r = Request { headers, ..self };
        assert(r@.headers =~= self@.headers.push((name@, value@)));
        r
    }

    /// Adds `value` under `key` to the side-table, where it overrides what
    /// the key held.
    pub fn extension(self, key: &str, value: Value) -> (r: Request)
        ensures
            r@ == (RequestView { extensions: self@.extensions.push((key@, value@)), ..self@ }),
    {
        let mut extensions = self.extensions;
        let ghost v = value@;
        extensions.push((String::from_str(key), value));
        let r = Request { extensions, ..self };
        assert(r@.extensions =~= self@.extensions.push((key@, v)));
        r
    }

    /// Sets the body.
    pub fn body(self, body: Vec<u8>) -> (r: Request)
        ensures
            r@ == (RequestView { body: body@, ..self@ }),
    {
        Request { body, ..self }
    }
}

} // verus!

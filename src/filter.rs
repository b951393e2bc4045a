//! Filters: leaves that inspect a request, and the operators that compose
//! them into a routing tree, together with the tree's evaluation.
use vstd::prelude::*;

use crate::rejection::{combine, message_of, status_of, Method, Reason, Rejection};
use crate::request::{
    cookie_value, extension_value, find_char, find_cookie, find_extension, find_header, first_in,
    header_value,
    same_chars, Request, RequestView,
};
use crate::text::chars_of;
use crate::value::{copy_bytes, duplicate_all, values_view, Value, ValueView};

verus! {

/// What a path parameter is parsed into.
#[derive(Debug, Clone, Copy, PartialEq, Eq, Structural)]
pub enum ParamKind {
    /// The segment itself.
    Text,
    /// A decimal number that fits in `u64`.
    Num,
}

/// A tree of filters, evaluated by [`Filter::run`].
#[derive(Debug)]
pub enum Filter {
    /// Matches every request and extracts nothing.
    Any,
    /// Matches the next path segment literally and consumes it.
    Exact(String),
    /// Consumes the next, non-empty, path segment and extracts it parsed.
    Param(ParamKind),
    /// Matches when the whole path has been consumed.
    End,
    /// Extracts the unconsumed rest of the path and consumes it.
    Tail,
    /// Extracts the unconsumed rest of the path without consuming it.
    Peek,
    /// Extracts the whole path, consumed or not.
    Full,
    /// Matches requests with the given method.
    OnMethod(Method),
    /// Extracts the value of a required header.
    Header(String),
    /// Matches when a header is present with exactly the given value.
    HeaderExact(String, String),
    /// Extracts the value of a required cookie.
    Cookie(String),
    /// Extracts the query string, which must be present.
    RawQuery,
    /// Extracts the value last handed in under the key.
    Extension(String),
    /// Matches when the body has at most this many bytes.
    BodyLimit(u64),
    /// Extracts the body.
    Body,
    /// Rejects every request with the given rejection.
    Reject(Rejection),
    /// Runs the first filter, then the second where the first left the
    /// path; extracts what both extract, in order.
    And(Box<Filter>, Box<Filter>),
    /// Runs the first filter and, if it rejects, the second from the same
    /// place in the path.
    Or(Box<Filter>, Box<Filter>),
    /// Runs the filter and, if it matches, extracts the given values instead.
    MapTo(Box<Filter>, Vec<Value>),
    /// Runs the filter and, if it rejects, matches with the given values.
    OrElse(Box<Filter>, Vec<Value>),
}

/// The result of evaluating a filter: the extracted values and the new
/// path position, or the reason for the rejection.
pub enum Outcome {
    Matched(Seq<ValueView>, int),
    Rejected(Reason),
}

/// Where the path segment that starts at `at` ends.
pub open spec fn segment_end(path: Seq<char>, at: int) -> int {
    first_in(path, '/', at, path.len() as int)
}

/// The position after a segment that ends at `end`, past the `/` that
/// follows it, if any.
pub open spec fn after_segment(path: Seq<char>, end: int) -> int {
    if end < path.len() {
        end + 1
    } else {
        end
    }
}

/// The position where matching starts: just after the leading `/`.
pub open spec fn start_of(path: Seq<char>) -> int {
    if path.len() > 0 && path[0] == '/' {
        1
    } else {
        0
    }
}

pub open spec fn is_digit(c: char) -> bool {
    '0' <= c && c <= '9'
}

pub open spec fn all_digits(s: Seq<char>) -> bool {
    forall|i: int| 0 <= i < s.len() ==> is_digit(#[trigger] s[i])
}

/// The number that a run of decimal digits denotes.
pub open spec fn digits_value(s: Seq<char>) -> nat
    decreases s.len(),
{
    if s.len() == 0 {
        0
    } else {
        digits_value(s.drop_last()) * 10 + ((s.last() as int) - ('0' as int)) as nat
    }
}

/// A segment parsed as a number: only decimal digits, and a value that
/// fits in `u64`.
pub open spec fn parse_num(s: Seq<char>) -> Option<u64> {
    if s.len() > 0 && all_digits(s) && digits_value(s) <= u64::MAX {
        Some(digits_value(s) as u64)
    } else {
        None
    }
}

/// What evaluating `f` against `req`, with the path consumed up to `at`,
/// gives.
pub open spec fn eval(f: Filter, req: RequestView, at: int) -> Outcome
    decreases f,
{
    let path = req.path;
    match f {
        Filter::Any => Outcome::Matched(seq![], at),
        Filter::Exact(seg) => {
            let e = segment_end(path, at);
            if path.subrange(at, e) == seg@ {
                Outcome::Matched(seq![], after_segment(path, e))
            } else {
                Outcome::Rejected(Reason::NotFound)
            }
        },
        Filter::Param(kind) => {
            let e = segment_end(path, at);
            let s = path.subrange(at, e);
            if s.len() == 0 {
                Outcome::Rejected(Reason::NotFound)
            } else {
                match kind {
                    ParamKind::Text => Outcome::Matched(
                        seq![ValueView::Text(s)],
                        after_segment(path, e),
                    ),
                    ParamKind::Num => match parse_num(s) {
                        Some(n) => Outcome::Matched(seq![ValueView::Num(n)], after_segment(path, e)),
                        None => Outcome::Rejected(Reason::NotFound),
                    },
                }
            }
        },
        Filter::End => if at >= path.len() {
            Outcome::Matched(seq![], at)
        } else {
            Outcome::Rejected(Reason::NotFound)
        },
        Filter::Tail => Outcome::Matched(
            seq![ValueView::Text(path.subrange(at, path.len() as int))],
            path.len() as int,
        ),
        Filter::Peek => Outcome::Matched(
            seq![ValueView::Text(path.subrange(at, path.len() as int))],
            at,
        ),
        Filter::Full => Outcome::Matched(seq![ValueView::Text(path)], at),
        Filter::OnMethod(m) => if req.method == m {
            Outcome::Matched(seq![], at)
        } else {
            Outcome::Rejected(Reason::MethodNotAllowed(seq![m]))
        },
        Filter::Header(name) => match header_value(req.headers, name@) {
            Some(v) => Outcome::Matched(seq![ValueView::Text(v)], at),
            None => Outcome::Rejected(Reason::MissingHeader(name@)),
        },
        Filter::HeaderExact(name, value) => match header_value(req.headers, name@) {
            Some(v) => if v == value@ {
                Outcome::Matched(seq![], at)
            } else {
                Outcome::Rejected(Reason::InvalidHeader(name@))
            },
            None => Outcome::Rejected(Reason::MissingHeader(name@)),
        },
        Filter::Cookie(name) => match cookie_value(req, name@) {
            Some(v) => Outcome::Matched(seq![ValueView::Text(v)], at),
            None => Outcome::Rejected(Reason::MissingCookie(name@)),
        },
        Filter::RawQuery => match req.query {
            Some(q) => Outcome::Matched(seq![ValueView::Text(q)], at),
            None => Outcome::Rejected(Reason::InvalidQuery),
        },
        Filter::Extension(key) => match extension_value(req.extensions, key@) {
            Some(v) => Outcome::Matched(seq![v], at),
            None => Outcome::Rejected(Reason::MissingExtension),
        },
        Filter::BodyLimit(limit) => if req.body.len() <= limit {
            Outcome::Matched(seq![], at)
        } else {
            Outcome::Rejected(Reason::PayloadTooLarge)
        },
        Filter::Body => Outcome::Matched(seq![ValueView::Bytes(req.body)], at),
        Filter::Reject(r) => Outcome::Rejected(r@),
        Filter::And(a, b) => match eval(*a, req, at) {
            Outcome::Matched(x, c) => match eval(*b, req, c) {
                Outcome::Matched(y, d) => Outcome::Matched(x + y, d),
                Outcome::Rejected(r) => Outcome::Rejected(r),
            },
            Outcome::Rejected(r) => Outcome::Rejected(r),
        },
        Filter::Or(a, b) => match eval(*a, req, at) {
            Outcome::Matched(x, c) => Outcome::Matched(x, c),
            Outcome::Rejected(ra) => match eval(*b, req, at) {
                Outcome::Matched(y, d) => Outcome::Matched(y, d),
                Outcome::Rejected(rb) => Outcome::Rejected(combine(ra, rb)),
            },
        },
        Filter::MapTo(a, vals) => match eval(*a, req, at) {
            Outcome::Matched(_, c) => Outcome::Matched(values_view(vals@), c),
            Outcome::Rejected(r) => Outcome::Rejected(r),
        },
        Filter::OrElse(a, vals) => match eval(*a, req, at) {
            Outcome::Matched(x, c) => Outcome::Matched(x, c),
            Outcome::Rejected(_) => Outcome::Matched(values_view(vals@), at),
        },
    }
}

/// The outcome that an executable result stands for.
pub open spec fn outcome_of(r: Result<(Vec<Value>, usize), Rejection>) -> Outcome {
    match r {
        Ok((v, c)) => Outcome::Matched(values_view(v@), c as int),
        Err(e) => Outcome::Rejected(e@),
    }
}

proof fn lemma_digits_prefix(s: Seq<char>, k: int)
    requires
        all_digits(s),
        0 <= k <= s.len(),
    ensures
        digits_value(s.subrange(0, k)) <= digits_value(s),
    decreases s.len(),
{
    if k == s.len() {
        assert(s.subrange(0, k) =~= s);
    } else {
        let t = s.drop_last();
        assert(t.subrange(0, k) =~= s.subrange(0, k));
        lemma_digits_prefix(t, k);
    }
}

/// The number that `s[a..b]` denotes, if it is a run of decimal digits
/// that fits in `u64`.
fn parse_digits(s: &Vec<char>, a: usize, b: usize) -> (r: Option<u64>)
    requires
        a <= b <= s@.len(),
    ensures
        r == parse_num(s@.subrange(a as int, b as int)),
{
    let ghost whole = s@.subrange(a as int, b as int);
    if a == b {
        return None;
    }
    let mut acc: u64 = 0;
    let mut i: usize = a;
    while i < b
        invariant
            a <= i <= b <= s@.len(),
            whole == s@.subrange(a as int, b as int),
            all_digits(s@.subrange(a as int, i as int)),
            acc as nat == digits_value(s@.subrange(a as int, i as int)),
        decreases b - i,
    {
        let c = s[i];
        let ghost next = s@.subrange(a as int, i + 1);
        assert(next.drop_last() =~= s@.subrange(a as int, i as int));
        assert(whole.subrange(0, i + 1 - a) =~= next);
        if !('0' <= c && c <= '9') {
            assert(!is_digit(whole[i - a]));
            return None;
        }
        let d = (c as u32 - '0' as u32) as u64;
        assert(d < 10);
        if acc > (u64::MAX - d) / 10 {
            assert(acc * 10 + d > u64::MAX) by (nonlinear_arith)
                requires
                    acc > (u64::MAX - d) / 10,
                    d < 10,
            ;
            proof {
                if all_digits(whole) {
                    lemma_digits_prefix(whole, i + 1 - a);
                }
            }
            return None;
        }
        assert(acc * 10 + d <= u64::MAX) by (nonlinear_arith)
            requires
                acc <= (u64::MAX - d) / 10,
                d < 10,
        ;
        acc = acc * 10 + d;
        i = i + 1;
    }
    Some(acc)
}

fn no_values() -> (r: Vec<Value>)
    ensures
        values_view(r@) == Seq::<ValueView>::empty(),
{
    let r: Vec<Value> = Vec::new();
    assert(values_view(r@) =~= Seq::<ValueView>::empty());
    r
}

/// The values of `x` followed by those of `y`.
fn concat_values(x: Vec<Value>, y: Vec<Value>) -> (r: Vec<Value>)
    ensures
        values_view(r@) == values_view(x@) + values_view(y@),
{
    let ghost x0 = x@;
    let ghost y0 = y@;
    let mut x = x;
    let mut y = y;
    x.append(&mut y);
    assert(values_view(x@) =~= values_view(x0) + values_view(y0));
    x
}

impl Filter {
    /// Evaluates the filter against `req`, whose path is given as `path`,
    /// with the path consumed up to `at`.
    pub fn run(&self, req: &Request, path: &Vec<char>, at: usize) -> (r: Result<
        (Vec<Value>, usize),
        Rejection,
    >)
        requires
            path@ == req.path@,
            at <= path@.len(),
        ensures
            outcome_of(r) == eval(*self, req@, at as int),
            r matches Ok((_, c)) ==> at <= c <= path@.len(),
        decreases self,
    {
        let n = path.len();
        match self {
            Filter::Any => Ok((no_values(), at)),
            Filter::Exact(seg) => {
                let sc = chars_of(seg.as_str());
                let e = find_char(path, '/', at, n);
                if same_chars(path, at, e, &sc) {
                    let next = if e < n { e + 1 } else { e };
                    Ok((no_values(), next))
                } else {
                    Err(Rejection::NotFound)
                }
            },
            Filter::Param(kind) => {
                let e = find_char(path, '/', at, n);
                let next = if e < n { e + 1 } else { e };
                if e == at {
                    return Err(Rejection::NotFound);
                }
                match kind {
                    ParamKind::Text => {
                        let s = String::from_str(req.path.as_str().substring_char(at, e));
                        let v = vec![Value::Text(s)];
                        assert(values_view(v@) =~= seq![ValueView::Text(path@.subrange(at as int, e as int))]);
                        Ok((v, next))
                    },
                    ParamKind::Num => match parse_digits(path, at, e) {
                        Some(k) => {
                            let v = vec![Value::Num(k)];
                            assert(values_view(v@) =~= seq![ValueView::Num(k)]);
                            Ok((v, next))
                        },
                        None => Err(Rejection::NotFound),
                    },
                }
            },
            Filter::End => {
                if at >= n {
                    Ok((no_values(), at))
                } else {
                    Err(Rejection::NotFound)
                }
            },
            Filter::Tail => {
                let s = String::from_str(req.path.as_str().substring_char(at, n));
                let v = vec![Value::Text(s)];
                assert(values_view(v@) =~= seq![ValueView::Text(path@.subrange(at as int, n as int))]);
                Ok((v, n))
            },
            Filter::Peek => {
                let s = String::from_str(req.path.as_str().substring_char(at, n));
                let v = vec![Value::Text(s)];
                assert(values_view(v@) =~= seq![ValueView::Text(path@.subrange(at as int, n as int))]);
                Ok((v, at))
            },
            Filter::Full => {
                let v = vec![Value::Text(req.path.clone())];
                assert(values_view(v@) =~= seq![ValueView::Text(path@)]);
                Ok((v, at))
            },
            Filter::OnMethod(m) => {
                if req.method == *m {
                    Ok((no_values(), at))
                } else {
                    let allowed = vec![*m];
                    assert(allowed@ =~= seq![*m]);
                    Err(Rejection::MethodNotAllowed(allowed))
                }
            },
            Filter::Header(name) => match find_header(&req.headers, name) {
                Some(h) => {
                    let v = vec![Value::Text(h.clone())];
                    assert(values_view(v@) =~= seq![ValueView::Text(h@)]);
                    Ok((v, at))
                },
                None => Err(Rejection::MissingHeader(name.clone())),
            },
            Filter::HeaderExact(name, value) => match find_header(&req.headers, name) {
                Some(h) => {
                    if *h == *value {
                        Ok((no_values(), at))
                    } else {
                        Err(Rejection::InvalidHeader(name.clone()))
                    }
                },
                None => Err(Rejection::MissingHeader(name.clone())),
            },
            Filter::Cookie(name) => {
                let key = String::from_str("cookie");
                let found = match find_header(&req.headers, &key) {
                    Some(h) => find_cookie(h.as_str(), name.as_str()),
                    None => None,
                };
                match found {
                    Some(c) => {
                        let ghost cv = c@;
                        let v = vec![Value::Text(c)];
                        assert(values_view(v@) =~= seq![ValueView::Text(cv)]);
                        Ok((v, at))
                    },
                    None => Err(Rejection::MissingCookie(name.clone())),
                }
            },
            Filter::RawQuery => match &req.query {
                Some(q) => {
                    let v = vec![Value::Text(q.clone())];
                    assert(values_view(v@) =~= seq![ValueView::Text(q@)]);
                    Ok((v, at))
                },
                None => Err(Rejection::InvalidQuery),
            },
            Filter::Extension(key) => match find_extension(&req.extensions, key) {
                Some(x) => {
                    let v = vec![x.duplicate()];
                    assert(values_view(v@) =~= seq![x@]);
                    Ok((v, at))
                },
                None => Err(Rejection::MissingExtension),
            },
            Filter::BodyLimit(limit) => {
                if (req.body.len() as u64) <= *limit {
                    Ok((no_values(), at))
                } else {
                    Err(Rejection::PayloadTooLarge)
                }
            },
            Filter::Body => {
                let v = vec![Value::Bytes(copy_bytes(&req.body))];
                assert(values_view(v@) =~= seq![ValueView::Bytes(req.body@)]);
                Ok((v, at))
            },
            Filter::Reject(r) => Err(r.duplicate()),
            Filter::And(a, b) => match a.run(req, path, at) {
                Ok((x, c)) => match b.run(req, path, c) {
                    Ok((y, d)) => Ok((concat_values(x, y), d)),
                    Err(r) => Err(r),
                },
                Err(r) => Err(r),
            },
            Filter::Or(a, b) => match a.run(req, path, at) {
                Ok(m) => Ok(m),
                Err(ra) => match b.run(req, path, at) {
                    Ok(m) => Ok(m),
                    Err(rb) => Err(ra.combine(rb)),
                },
            },
            Filter::MapTo(a, vals) => match a.run(req, path, at) {
                Ok((_, c)) => Ok((duplicate_all(vals), c)),
                Err(r) => Err(r),
            },
            Filter::OrElse(a, vals) => match a.run(req, path, at) {
                Ok(m) => Ok(m),
                Err(_) => Ok((duplicate_all(vals), at)),
            },
        }
    }
}

/// A filter that matches every request and extracts nothing.
pub fn any() -> (r: Filter)
    ensures
        r == Filter::Any,
{
    Filter::Any
}

/// A filter that matches the path segment `segment` and consumes it.
pub fn path(segment: &str) -> (r: Filter)
    ensures
        r matches Filter::Exact(s) && s@ == segment@,
{
    Filter::Exact(String::from_str(segment))
}

/// A filter that consumes the next path segment and extracts it parsed as
/// `kind`; an empty or unparsable segment rejects as not found.
pub fn param(kind: ParamKind) -> (r: Filter)
    ensures
        r == Filter::Param(kind),
{
    Filter::Param(kind)
}

/// A filter that matches when the whole path has been consumed.
pub fn end() -> (r: Filter)
    ensures
        r == Filter::End,
{
    Filter::End
}

/// A filter that extracts the rest of the path and consumes it.
pub fn tail() -> (r: Filter)
    ensures
        r == Filter::Tail,
{
    Filter::Tail
}

/// A filter that extracts the rest of the path without consuming it.
pub fn peek() -> (r: Filter)
    ensures
        r == Filter::Peek,
{
    Filter::Peek
}

/// A filter that extracts the whole path.
pub fn full() -> (r: Filter)
    ensures
        r == Filter::Full,
{
    Filter::Full
}

/// A filter that matches requests with method `m`.
pub fn method(m: Method) -> (r: Filter)
    ensures
        r == Filter::OnMethod(m),
{
    Filter::OnMethod(m)
}

/// A filter that matches `GET` requests.
pub fn get() -> (r: Filter)
    ensures
        r == Filter::OnMethod(Method::Get),
{
    Filter::OnMethod(Method::Get)
}

/// A filter that matches `POST` requests.
pub fn post() -> (r: Filter)
    ensures
        r == Filter::OnMethod(Method::Post),
{
    Filter::OnMethod(Method::Post)
}

/// A filter that extracts the value of the required header `name`.
pub fn header(name: &str) -> (r: Filter)
    ensures
        r matches Filter::Header(n) && n@ == name@,
{
    Filter::Header(String::from_str(name))
}

/// A filter that requires the header `name` to have exactly `value`.
pub fn header_exact(name: &str, value: &str) -> (r: Filter)
    ensures
        r matches Filter::HeaderExact(n, v) && n@ == name@ && v@ == value@,
{
    Filter::HeaderExact(String::from_str(name), String::from_str(value))
}

/// A filter that extracts the value of the required cookie `name`.
pub fn cookie(name: &str) -> (r: Filter)
    ensures
        r matches Filter::Cookie(n) && n@ == name@,
{
    Filter::Cookie(String::from_str(name))
}

/// A filter that extracts the query string, which must be present.
pub fn raw_query() -> (r: Filter)
    ensures
        r == Filter::RawQuery,
{
    Filter::RawQuery
}

/// A filter that extracts the value last handed in under `key`.
pub fn extension(key: &str) -> (r: Filter)
    ensures
        r matches Filter::Extension(k) && k@ == key@,
{
    Filter::Extension(String::from_str(key))
}

/// A filter that rejects a body longer than `limit` bytes.
pub fn content_length_limit(limit: u64) -> (r: Filter)
    ensures
        r == Filter::BodyLimit(limit),
{
    Filter::BodyLimit(limit)
}

/// A filter that extracts the body.
pub fn body_bytes() -> (r: Filter)
    ensures
        r == Filter::Body,
{
    Filter::Body
}

/// A filter that rejects every request with `rejection`.
pub fn reject(rejection: Rejection) -> (r: Filter)
    ensures
        r == Filter::Reject(rejection),
{
    Filter::Reject(rejection)
}

impl Filter {
    /// This filter followed by `other`.
    pub fn and(self, other: Filter) -> (r: Filter)
        ensures
            r == Filter::And(Box::new(self), Box::new(other)),
    {
        Filter::And(Box::new(self), Box::new(other))
    }

    /// This filter or, where it rejects, `other`.
    pub fn or(self, other: Filter) -> (r: Filter)
        ensures
            r == Filter::Or(Box::new(self), Box::new(other)),
    {
        Filter::Or(Box::new(self), Box::new(other))
    }

    /// This filter, extracting `values` instead where it matches.
    pub fn map_to(self, values: Vec<Value>) -> (r: Filter)
        ensures
            r == Filter::MapTo(Box::new(self), values),
    {
        Filter::MapTo(Box::new(self), values)
    }

    /// This filter, matching with `values` where it rejects.
    pub fn or_else(self, values: Vec<Value>) -> (r: Filter)
        ensures
            r == Filter::OrElse(Box::new(self), values),
    {
        Filter::OrElse(Box::new(self), values)
    }
}

/// What evaluating `f` against a whole request gives.
pub open spec fn evaluate(f: Filter, req: RequestView) -> Outcome {
    eval(f, req, start_of(req.path))
}

/// The body a successful evaluation renders as: its text values, joined.
pub open spec fn body_of(values: Seq<ValueView>) -> Seq<char>
    decreases values.len(),
{
    if values.len() == 0 {
        seq![]
    } else {
        let rest = body_of(values.drop_last());
        match values.last() {
            ValueView::Text(t) => rest + t,
            _ => rest,
        }
    }
}

/// The non-empty `/`-separated segments of `s` from position `from` on.
pub open spec fn segments_from(s: Seq<char>, from: int) -> Seq<Seq<char>>
    decreases s.len() - from,
{
    if from < 0 || from > s.len() {
        seq![]
    } else {
        let e = first_in(s, '/', from, s.len() as int);
        let seg = s.subrange(from, e);
        let rest = if from <= e && e < s.len() {
            segments_from(s, e + 1)
        } else {
            seq![]
        };
        if seg.len() > 0 {
            seq![seg] + rest
        } else {
            rest
        }
    }
}

fn segments_at(text: &str, s: &Vec<char>, from: usize) -> (r: Vec<String>)
    requires
        s@ == text@,
        from <= s@.len(),
    ensures
        r@.map_values(|x: String| x@) == segments_from(s@, from as int),
    decreases s@.len() - from,
{
    let n = s.len();
    let e = find_char(s, '/', from, n);
    let mut rest = if e < n {
        segments_at(text, s, e + 1)
    } else {
        Vec::new()
    };
    let ghost rest0 = rest@;
    if e > from {
        let seg = String::from_str(text.substring_char(from, e));
        rest.insert(0, seg);
        assert(rest@.map_values(|x: String| x@) =~= seq![seg@] + rest0.map_values(|x: String| x@));
    } else {
        assert(rest@.map_values(|x: String| x@) =~= rest0.map_values(|x: String| x@));
    }
    rest
}

/// The non-empty `/`-separated segments of a path, such as the text that
/// [`Filter::Peek`] extracts.
pub fn segments(text: &str) -> (r: Vec<String>)
    ensures
        r@.map_values(|x: String| x@) == segments_from(text@, 0),
{
    let s = chars_of(text);
    segments_at(text, &s, 0)
}

/// A rendered response.
#[derive(Debug, Clone)]
pub struct Response {
    pub status: u16,
    pub body: String,
}

fn render_values(values: &Vec<Value>) -> (r: String)
    ensures
        r@ == body_of(values_view(values@)),
{
    let mut r = String::new();
    let mut i: usize = 0;
    while i < values.len()
        invariant
            i <= values@.len(),
            r@ == body_of(values_view(values@.subrange(0, i as int))),
        decreases values@.len() - i,
    {
        proof {
            let next = values_view(values@.subrange(0, i + 1));
            assert(next.drop_last() =~= values_view(values@.subrange(0, i as int)));
            assert(next.last() == values@[i as int]@);
        }
        match &values[i] {
            Value::Text(t) => r.append(t.as_str()),
            _ => {},
        }
        i = i + 1;
    }
    assert(values@.subrange(0, values@.len() as int) =~= values@);
    r
}

impl Request {
    fn start(&self) -> (r: (Vec<char>, usize))
        ensures
            r.0@ == self.path@,
            r.1 as int == start_of(self.path@),
            r.1 <= r.0@.len(),
    {
        let chars = chars_of(self.path.as_str());
        let at: usize = if chars.len() > 0 && chars[0] == '/' { 1 } else { 0 };
        (chars, at)
    }

    /// Evaluates `f` against this request: the extracted values, or the
    /// rejection.
    pub fn filter(&self, f: &Filter) -> (r: Result<Vec<Value>, Rejection>)
        ensures
            match r {
                Ok(v) => evaluate(*f, self@) matches Outcome::Matched(x, _) && x == values_view(v@),
                Err(e) => evaluate(*f, self@) == Outcome::Rejected(e@),
            },
    {
        let (chars, at) = self.start();
        match f.run(self, &chars, at) {
            Ok((v, _)) => Ok(v),
            Err(e) => Err(e),
        }
    }

    /// Whether `f` matches this request.
    pub fn matches(&self, f: &Filter) -> (r: bool)
        ensures
            r == evaluate(*f, self@) is Matched,
    {
        let (chars, at) = self.start();
        f.run(self, &chars, at).is_ok()
    }

    /// Evaluates `f` against this request and renders the outcome: status
    /// 200 with the extracted text, or the rejection's status and message.
    pub fn reply(&self, f: &Filter) -> (r: Response)
        ensures
            match evaluate(*f, self@) {
                Outcome::Matched(x, _) => r.status == 200 && r.body@ == body_of(x),
                Outcome::Rejected(e) => r.status == status_of(e) && r.body@ == message_of(e),
            },
    {
        let (chars, at) = self.start();
        match f.run(self, &chars, at) {
            Ok((v, _)) => Response { status: 200, body: render_values(&v) },
            Err(e) => Response { status: e.status(), body: e.message() },
        }
    }
}

} // verus!

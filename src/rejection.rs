//! Why a filter did not match, how two such reasons combine when both
//! branches of an alternative reject, and how a reason is rendered.
use vstd::prelude::*;

verus! {

/// A request method.
#[derive(Debug, Clone, Copy, PartialEq, Eq, Structural)]
pub enum Method {
    Get,
    Post,
    Put,
    Delete,
    Head,
    Options,
    Patch,
}

/// Why a filter did not match a request.
#[derive(Debug, Clone, PartialEq, Eq)]
pub enum Rejection {
    /// No route matched the path.
    NotFound,
    /// The path matched, but only for the listed methods.
    MethodNotAllowed(Vec<Method>),
    /// A required header is absent.
    MissingHeader(String),
    /// A header is present with an unacceptable value.
    InvalidHeader(String),
    /// A required cookie is absent.
    MissingCookie(String),
    /// The query string is absent or unacceptable.
    InvalidQuery,
    /// A required extension value is absent.
    MissingExtension,
    /// The body is larger than allowed.
    PayloadTooLarge,
    /// A rejection of the caller's own, with the status it renders as.
    Custom(u16, String),
}

/// The mathematical value of a [`Rejection`].
pub enum Reason {
    NotFound,
    MethodNotAllowed(Seq<Method>),
    MissingHeader(Seq<char>),
    InvalidHeader(Seq<char>),
    MissingCookie(Seq<char>),
    InvalidQuery,
    MissingExtension,
    PayloadTooLarge,
    Custom(u16, Seq<char>),
}

impl View for Rejection {
    type V = Reason;

    open spec fn view(&self) -> Reason {
        match self {
            Rejection::NotFound => Reason::NotFound,
            Rejection::MethodNotAllowed(m) => Reason::MethodNotAllowed(m@),
            Rejection::MissingHeader(n) => Reason::MissingHeader(n@),
            Rejection::InvalidHeader(n) => Reason::InvalidHeader(n@),
            Rejection::MissingCookie(n) => Reason::MissingCookie(n@),
            Rejection::InvalidQuery => Reason::InvalidQuery,
            Rejection::MissingExtension => Reason::MissingExtension,
            Rejection::PayloadTooLarge => Reason::PayloadTooLarge,
            Rejection::Custom(s, c) => Reason::Custom(*s, c@),
        }
    }
}

/// How informative a reason is: a missing route ranks lowest, a wrong
/// method next, and any error in the request itself highest.
pub open spec fn rank(r: Reason) -> nat {
    match r {
        Reason::NotFound => 0,
        Reason::MethodNotAllowed(_) => 1,
        _ => 2,
    }
}

/// `x` followed by the methods of `y` that are not already listed.
pub open spec fn merge_methods(x: Seq<Method>, y: Seq<Method>) -> Seq<Method>
    decreases y.len(),
{
    if y.len() == 0 {
        x
    } else {
        let r = merge_methods(x, y.drop_last());
        if r.contains(y.last()) {
            r
        } else {
            r.push(y.last())
        }
    }
}

/// The reason reported when both branches of an alternative reject with
/// `a` and `b`: the higher-ranked one; of two method rejections, one that
/// allows the methods of both; otherwise the first.
pub open spec fn combine(a: Reason, b: Reason) -> Reason {
    if rank(b) > rank(a) {
        b
    } else if rank(a) > rank(b) {
        a
    } else {
        match (a, b) {
            (Reason::MethodNotAllowed(x), Reason::MethodNotAllowed(y)) => Reason::MethodNotAllowed(
                merge_methods(x, y),
            ),
            _ => a,
        }
    }
}

/// The status a reason renders as when nothing recovers from it.
pub open spec fn status_of(r: Reason) -> u16 {
    match r {
        Reason::NotFound => 404,
        Reason::MethodNotAllowed(_) => 405,
        Reason::Custom(s, _) => s,
        _ => 400,
    }
}

/// The body a reason renders as when nothing recovers from it.
pub open spec fn message_of(r: Reason) -> Seq<char> {
    match r {
        Reason::NotFound => seq![],
        Reason::MethodNotAllowed(_) => "HTTP method not allowed"@,
        Reason::MissingHeader(n) => "Missing request header \""@ + n + "\""@,
        Reason::InvalidHeader(n) => "Invalid request header \""@ + n + "\""@,
        Reason::MissingCookie(n) => "Missing request cookie \""@ + n + "\""@,
        Reason::InvalidQuery => "Invalid query string"@,
        Reason::MissingExtension => "Missing request extension"@,
        Reason::PayloadTooLarge => "Payload too large"@,
        Reason::Custom(_, c) => c,
    }
}

fn rank_of(r: &Rejection) -> (k: u8)
    ensures
        k as nat == rank(r@),
{
    match r {
        Rejection::NotFound => 0,
        Rejection::MethodNotAllowed(_) => 1,
        _ => 2,
    }
}

fn merge_method_lists(x: Vec<Method>, y: &Vec<Method>) -> (r: Vec<Method>)
    ensures
        r@ == merge_methods(x@, y@),
{
    let mut r = x;
    let ghost x0 = r@;
    let mut i: usize = 0;
    while i < y.len()
        invariant
            i <= y@.len(),
            r@ == merge_methods(x0, y@.subrange(0, i as int)),
        decreases y@.len() - i,
    {
        let m = y[i];
        let mut seen = false;
        let mut j: usize = 0;
        while j < r.len()
            invariant
                j <= r@.len(),
                seen == r@.subrange(0, j as int).contains(m),
            decreases r@.len() - j,
        {
            if r[j] == m {
                seen = true;
            }
            proof {
                let s0 = r@.subrange(0, j as int);
                let s1 = r@.subrange(0, j + 1);
                assert(s1 =~= s0.push(r@[j as int]));
                if s0.contains(m) {
                    let k = choose|k: int| 0 <= k < s0.len() && s0[k] == m;
                    assert(s1[k] == m);
                }
                if r@[j as int] == m {
                    assert(s1[j as int] == m);
                }
                if s1.contains(m) {
                    let k = choose|k: int| 0 <= k < s1.len() && s1[k] == m;
                    if k < j {
                        assert(s0[k] == m);
                    }
                }
            }
            j = j + 1;
        }
        assert(r@.subrange(0, r@.len() as int) =~= r@);
        proof {
            let next = y@.subrange(0, i + 1);
            assert(next.drop_last() =~= y@.subrange(0, i as int));
        }
        if !seen {
            r.push(m);
        }
        i = i + 1;
    }
    assert(y@.subrange(0, y@.len() as int) =~= y@);
    r
}

fn copy_methods(v: &Vec<Method>) -> (r: Vec<Method>)
    ensures
        r@ == v@,
{
    let mut r: Vec<Method> = Vec::new();
    let mut i: usize = 0;
    while i < v.len()
        invariant
            i <= v@.len(),
            r@ == v@.subrange(0, i as int),
        decreases v@.len() - i,
    {
        r.push(v[i]);
        i = i + 1;
        assert(r@ =~= v@.subrange(0, i as int));
    }
    assert(r@ =~= v@);
    r
}

impl Rejection {
    /// A copy of this rejection.
    pub fn duplicate(&self) -> (r: Rejection)
        ensures
            r@ == self@,
    {
        match self {
            Rejection::NotFound => Rejection::NotFound,
            Rejection::MethodNotAllowed(m) => Rejection::MethodNotAllowed(copy_methods(m)),
            Rejection::MissingHeader(n) => Rejection::MissingHeader(n.clone()),
            Rejection::InvalidHeader(n) => Rejection::InvalidHeader(n.clone()),
            Rejection::MissingCookie(n) => Rejection::MissingCookie(n.clone()),
            Rejection::InvalidQuery => Rejection::InvalidQuery,
            Rejection::MissingExtension => Rejection::MissingExtension,
            Rejection::PayloadTooLarge => Rejection::PayloadTooLarge,
            Rejection::Custom(s, c) => Rejection::Custom(*s, c.clone()),
        }
    }

    /// The rejection reported when an alternative's first branch rejected
    /// with `self` and its second with `other`.
    pub fn combine(self, other: Rejection) -> (r: Rejection)
        ensures
            r@ == combine(self@, other@),
    {
        let a = rank_of(&self);
        let b = rank_of(&other);
        if b > a {
            other
        } else if a > b {
            self
        } else {
            match (self, other) {
                (Rejection::MethodNotAllowed(x), Rejection::MethodNotAllowed(y)) => {
                    Rejection::MethodNotAllowed(merge_method_lists(x, &y))
                },
                (s, _) => s,
            }
        }
    }

    /// The status this rejection renders as.
    pub fn status(&self) -> (r: u16)
        ensures
            r == status_of(self@),
    {
        match self {
            Rejection::NotFound => 404,
            Rejection::MethodNotAllowed(_) => 405,
            Rejection::Custom(s, _) => *s,
            _ => 400,
        }
    }

    /// The body this rejection renders as.
    pub fn message(&self) -> (r: String)
        ensures
            r@ == message_of(self@),
    {
        match self {
            Rejection::NotFound => String::new(),
            Rejection::MethodNotAllowed(_) => String::from_str("HTTP method not allowed"),
            Rejection::MissingHeader(n) => quoted("Missing request header \"", n),
            Rejection::InvalidHeader(n) => quoted("Invalid request header \"", n),
            Rejection::MissingCookie(n) => quoted("Missing request cookie \"", n),
            Rejection::InvalidQuery => String::from_str("Invalid query string"),
            Rejection::MissingExtension => String::from_str("Missing request extension"),
            Rejection::PayloadTooLarge => String::from_str("Payload too large"),
            Rejection::Custom(_, c) => c.clone(),
        }
    }
}

fn quoted(prefix: &str, name: &String) -> (r: String)
    ensures
        r@ == prefix@ + name@ + "\""@,
{
    let mut r = String::from_str(prefix);
    r.append(name.as_str());
    r.append("\"");
    r
}

} // verus!

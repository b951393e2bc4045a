//! Laws of filter evaluation, proved over [`eval`].
use vstd::prelude::*;

use crate::filter::{
    eval, evaluate, segment_end, start_of, Filter, Outcome, ParamKind,
};
use crate::value::ValueView;
use crate::rejection::{combine, rank, Reason};
use crate::request::{first_in, lemma_first_in_bounds, target_path, target_query, RequestView};

verus! {

/// Sequencing is associative: `(a and b) and c` and `a and (b and c)` give
/// the same outcome, so the extracted values form one flat list whatever
/// the grouping.
pub proof fn lemma_and_associative(a: Filter, b: Filter, c: Filter, req: RequestView, at: int)
    ensures
        eval(
            Filter::And(Box::new(Filter::And(Box::new(a), Box::new(b))), Box::new(c)),
            req,
            at,
        ) == eval(Filter::And(Box::new(a), Box::new(Filter::And(Box::new(b), Box::new(c)))), req, at),
{
    reveal_with_fuel(eval, 2);
    if let Outcome::Matched(x, p) = eval(a, req, at) {
        if let Outcome::Matched(y, q) = eval(b, req, p) {
            if let Outcome::Matched(z, e) = eval(c, req, q) {
                assert(x + y + z =~= x + (y + z));
            }
        }
    }
}

/// When `a`, `b` and `c` match one after the other, their sequence
/// extracts the values of `a`, then those of `b`, then those of `c`.
pub proof fn lemma_and_flattens(a: Filter, b: Filter, c: Filter, req: RequestView, at: int)
    requires
        eval(a, req, at) is Matched,
        eval(b, req, eval(a, req, at)->Matched_1) is Matched,
        eval(c, req, eval(b, req, eval(a, req, at)->Matched_1)->Matched_1) is Matched,
    ensures
        ({
            let ra = eval(a, req, at);
            let rb = eval(b, req, ra->Matched_1);
            let rc = eval(c, req, rb->Matched_1);
            eval(Filter::And(Box::new(a), Box::new(Filter::And(Box::new(b), Box::new(c)))), req, at)
                == Outcome::Matched(ra->Matched_0 + rb->Matched_0 + rc->Matched_0, rc->Matched_1)
        }),
{
    reveal_with_fuel(eval, 2);
    let x = eval(a, req, at)->Matched_0;
    let y = eval(b, req, eval(a, req, at)->Matched_1)->Matched_0;
    let z = eval(c, req, eval(b, req, eval(a, req, at)->Matched_1)->Matched_1)->Matched_0;
    assert(x + (y + z) =~= x + y + z);
}

/// The filter that matches everything and extracts nothing is a unit of
/// sequencing, on either side.
pub proof fn lemma_and_unit(a: Filter, req: RequestView, at: int)
    ensures
        eval(Filter::And(Box::new(a), Box::new(Filter::Any)), req, at) == eval(a, req, at),
        eval(Filter::And(Box::new(Filter::Any), Box::new(a)), req, at) == eval(a, req, at),
{
    reveal_with_fuel(eval, 2);
    if let Outcome::Matched(x, p) = eval(a, req, at) {
        assert(x + Seq::<ValueView>::empty() =~= x);
    }
    if let Outcome::Matched(x, p) = eval(a, req, at) {
        assert(Seq::<ValueView>::empty() + x =~= x);
    }
}

/// An alternative whose first branch rejects, however much of the path that
/// branch consumed before rejecting, runs its second branch from the
/// position it started at: it matches exactly as the second branch does from
/// there, and otherwise reports the combination of both reasons.
pub proof fn lemma_or_backtracks(a: Filter, b: Filter, req: RequestView, at: int)
    requires
        eval(a, req, at) is Rejected,
    ensures
        eval(b, req, at) is Matched ==> eval(Filter::Or(Box::new(a), Box::new(b)), req, at) == eval(
            b,
            req,
            at,
        ),
        eval(b, req, at) is Rejected ==> eval(Filter::Or(Box::new(a), Box::new(b)), req, at)
            == Outcome::Rejected(
            combine(eval(a, req, at)->Rejected_0, eval(b, req, at)->Rejected_0),
        ),
{
}

/// Combining two reasons keeps the higher rank.
pub proof fn lemma_combine_rank(a: Reason, b: Reason)
    ensures
        rank(combine(a, b)) == if rank(a) >= rank(b) {
            rank(a)
        } else {
            rank(b)
        },
{
}

/// When both branches of an alternative reject, the reported reason ranks
/// as high as the higher of the two: a wrong method beats a missing route,
/// and an error in the request beats both. Since each alternative keeps
/// the maximum, a tree of alternatives reports the highest rank of all its
/// branches.
pub proof fn lemma_or_precedence(a: Filter, b: Filter, req: RequestView, at: int)
    requires
        eval(a, req, at) is Rejected,
        eval(b, req, at) is Rejected,
    ensures
        eval(Filter::Or(Box::new(a), Box::new(b)), req, at) is Rejected,
        rank(eval(Filter::Or(Box::new(a), Box::new(b)), req, at)->Rejected_0) == if rank(
            eval(a, req, at)->Rejected_0,
        ) >= rank(eval(b, req, at)->Rejected_0) {
            rank(eval(a, req, at)->Rejected_0)
        } else {
            rank(eval(b, req, at)->Rejected_0)
        },
{
}

/// The routes `first`, then each of `rest` in order, as alternatives:
/// `first.or(rest[0]).or(rest[1])...`.
pub open spec fn or_chain(first: Filter, rest: Seq<Filter>) -> Filter
    decreases rest.len(),
{
    if rest.len() == 0 {
        first
    } else {
        Filter::Or(Box::new(or_chain(first, rest.drop_last())), Box::new(rest.last()))
    }
}

/// The highest rank among the rejections of `first` and of each of `rest`.
pub open spec fn highest_rank(first: Filter, rest: Seq<Filter>, req: RequestView, at: int) -> nat
    decreases rest.len(),
{
    if rest.len() == 0 {
        rank(eval(first, req, at)->Rejected_0)
    } else {
        let a = highest_rank(first, rest.drop_last(), req, at);
        let b = rank(eval(rest.last(), req, at)->Rejected_0);
        if a >= b {
            a
        } else {
            b
        }
    }
}

/// When every route of a chain of alternatives rejects, the chain rejects
/// with the highest rank among all of them: precedence holds however many
/// routes there are.
pub proof fn lemma_or_chain_precedence(first: Filter, rest: Seq<Filter>, req: RequestView, at: int)
    requires
        eval(first, req, at) is Rejected,
        forall|i: int| 0 <= i < rest.len() ==> eval(#[trigger] rest[i], req, at) is Rejected,
    ensures
        eval(or_chain(first, rest), req, at) is Rejected,
        rank(eval(or_chain(first, rest), req, at)->Rejected_0) == highest_rank(first, rest, req, at),
    decreases rest.len(),
{
    if rest.len() > 0 {
        let pre = rest.drop_last();
        assert forall|i: int| 0 <= i < pre.len() implies eval(#[trigger] pre[i], req, at) is Rejected by {
            assert(pre[i] == rest[i]);
        }
        assert(eval(rest[rest.len() - 1], req, at) is Rejected);
        lemma_or_chain_precedence(first, pre, req, at);
        lemma_or_precedence(or_chain(first, pre), rest.last(), req, at);
    }
}

/// Evaluation never moves the path position backwards nor past the end.
pub proof fn lemma_cursor_forward(f: Filter, req: RequestView, at: int)
    requires
        0 <= at <= req.path.len(),
    ensures
        eval(f, req, at) matches Outcome::Matched(_, c) ==> at <= c <= req.path.len(),
    decreases f,
{
    lemma_first_in_bounds(req.path, '/', at, req.path.len() as int);
    match f {
        Filter::And(a, b) => {
            lemma_cursor_forward(*a, req, at);
            if let Outcome::Matched(_, c) = eval(*a, req, at) {
                lemma_cursor_forward(*b, req, c);
            }
        },
        Filter::Or(a, b) => {
            lemma_cursor_forward(*a, req, at);
            lemma_cursor_forward(*b, req, at);
        },
        Filter::MapTo(a, _) => {
            lemma_cursor_forward(*a, req, at);
        },
        Filter::OrElse(a, _) => {
            lemma_cursor_forward(*a, req, at);
        },
        _ => {},
    }
}

/// An empty path segment never satisfies a parameter, whatever its kind.
pub proof fn lemma_param_needs_segment(kind: ParamKind, req: RequestView, at: int)
    requires
        0 <= at <= req.path.len(),
        segment_end(req.path, at) == at,
    ensures
        eval(Filter::Param(kind), req, at) == Outcome::Rejected(Reason::NotFound),
{
    assert(req.path.subrange(at, at).len() == 0);
}

/// On the root path `/`: `end` matches, a parameter rejects, `tail`
/// extracts the empty text and `full` extracts `/`.
pub proof fn lemma_root_path(kind: ParamKind, req: RequestView)
    requires
        req.path == "/"@,
    ensures
        evaluate(Filter::End, req) is Matched,
        evaluate(Filter::Param(kind), req) == Outcome::Rejected(Reason::NotFound),
        evaluate(Filter::Tail, req) == Outcome::Matched(seq![ValueView::Text(Seq::empty())], 1),
        evaluate(Filter::Full, req) == Outcome::Matched(seq![ValueView::Text("/"@)], 1),
{
    reveal_strlit("/");
    assert(start_of(req.path) == 1);
    assert(req.path.subrange(1, 1) =~= Seq::<char>::empty());
}

proof fn lemma_first_in_absent(s: Seq<char>, c: char, from: int, to: int)
    requires
        0 <= from <= to <= s.len(),
        forall|i: int| from <= i < to ==> s[i] != c,
    ensures
        first_in(s, c, from, to) == to,
    decreases to - from,
{
    if from < to {
        lemma_first_in_absent(s, c, from + 1, to);
    }
}

proof fn lemma_first_in_found(s: Seq<char>, c: char, from: int, to: int, k: int)
    requires
        0 <= from <= k < to <= s.len(),
        s[k] == c,
        forall|i: int| from <= i < k ==> s[i] != c,
    ensures
        first_in(s, c, from, to) == k,
    decreases k - from,
{
    if from < k {
        lemma_first_in_found(s, c, from + 1, to, k);
    }
}

/// A query string does not change the path of a target: for a path `p`
/// that begins with `/` and holds no `?`, the target `p?q` has path `p` and
/// query `q`. So `end` matches such a target exactly where it matches `p`.
pub proof fn lemma_query_truncates_path(p: Seq<char>, q: Seq<char>)
    requires
        p.len() > 0,
        p[0] == '/',
        forall|i: int| 0 <= i < p.len() ==> p[i] != '?',
    ensures
        target_path(p + seq!['?'] + q) == p,
        target_query(p + seq!['?'] + q) == Some(q),
{
    let u = p + seq!['?'] + q;
    lemma_first_in_found(u, '?', 0, u.len() as int, p.len() as int);
    assert(u.subrange(0, p.len() as int) =~= p);
    assert(u.subrange(p.len() as int + 1, u.len() as int) =~= q);
}

} // verus!

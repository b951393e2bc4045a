use nextshell::filter;
use nextshell::filter::{full, param, segments, tail, ParamKind};
use nextshell::value::Value;
use nextshell::rejection::Rejection;
use nextshell::request::request;

fn text(s: &str) -> Value {
    Value::Text(s.to_string())
}

#[test]
fn path() {
    let foo = || filter::path("foo");
    let bar = || filter::path(&String::from("bar"));
    let foo_bar = || foo().and(bar());

    let foo_req = || request().path("/foo");
    assert!(foo_req().matches(&foo()));
    assert!(!foo_req().matches(&bar()));
    assert!(!foo_req().matches(&foo_bar()));

    let foo_bar_req = || request().path("/foo/bar");
    assert!(foo_bar_req().matches(&foo()));
    assert!(!foo_bar_req().matches(&bar()));
    assert!(foo_bar_req().matches(&foo_bar()));
}

#[test]
fn param_segments() {
    let num = || param(ParamKind::Num);
    let s = || param(ParamKind::Text);

    assert_eq!(request().path("/321").filter(&num()).unwrap(), vec![Value::Num(321)]);
    assert_eq!(request().path("/nextshell").filter(&s()).unwrap(), vec![text("nextshell")]);
    assert!(!request().path("/nextshell").matches(&num()));
    assert_eq!(
        request().path("/42/vroom").filter(&num().and(s())).unwrap(),
        vec![Value::Num(42), text("vroom")]
    );
    assert!(!request().matches(&s()), "param should never match an empty segment");
    assert!(!request().path("//x").matches(&s()));
    assert!(!request().path("/18446744073709551616").matches(&num()));
    assert_eq!(
        request().path("/18446744073709551615").filter(&num()).unwrap(),
        vec![Value::Num(u64::MAX)]
    );
    assert_eq!(request().path("/12a").filter(&num()), Err(Rejection::NotFound));
}

#[test]
fn end() {
    let foo_end = || filter::path("foo").and(filter::end());

    assert!(request().path("/").matches(&filter::end()), "filter::end() matches /");
    assert!(request().path("http://localhost:1234").matches(&filter::end()), "filter::end() matches /");
    assert!(
        request().path("http://localhost:1234?q=2").matches(&filter::end()),
        "filter::end() matches empty path"
    );
    assert!(request().path("localhost:1234").matches(&filter::end()), "filter::end() matches authority-form");
    assert!(!request().path("/foo").matches(&filter::end()), "filter::end() doesn't match /foo");
    assert!(request().path("/foo").matches(&foo_end()), "path().and(end()) matches /foo");
    assert!(request().path("/foo/").matches(&foo_end()), "path().and(end()) matches /foo/");
}

#[test]
fn tail_rest_of_path() {
    assert_eq!(request().path("/42/vroom").filter(&tail()).unwrap(), vec![text("42/vroom")]);
    assert_eq!(request().path("/").filter(&tail()).unwrap(), vec![text("")]);
    assert_eq!(request().path("/foo/bar?baz=quux").filter(&tail()).unwrap(), vec![text("foo/bar")]);
    assert_eq!(
        request().path("/foo/bar").filter(&filter::path("foo").and(tail())).unwrap(),
        vec![text("bar")]
    );
    assert!(!request().path("/foo/bar").matches(&tail().and(filter::path("foo"))));
    assert!(request().path("/foo/bar").matches(&tail().and(filter::end())));
}

#[test]
fn full_path() {
    let foo = || filter::path("foo");
    let bar = || filter::path("bar");
    let num = || param(ParamKind::Num);

    assert_eq!(request().path("/42/vroom").filter(&full()).unwrap(), vec![text("/42/vroom")]);
    assert_eq!(request().path("/").filter(&full()).unwrap(), vec![text("/")]);
    assert_eq!(request().path("/foo/bar?baz=quux").filter(&full()).unwrap(), vec![text("/foo/bar")]);
    assert_eq!(request().path("/foo/bar").filter(&foo().and(full())).unwrap(), vec![text("/foo/bar")]);
    assert_eq!(request().path("/foo/bar").filter(&full().and(foo())).unwrap(), vec![text("/foo/bar")]);
    let ex = request().path("/foo/123").filter(&foo().and(num()).and(full())).unwrap();
    assert_eq!(ex[1], text("/foo/123"));
    assert!(request().path("/foo/bar").matches(&full().and(foo()).and(bar())));
    assert_eq!(request().path("localhost:1234").filter(&full()).unwrap(), vec![text("/")]);
}

#[test]
fn peek() {
    let foo = || filter::path("foo");
    let bar = || filter::path("bar");
    let num = || param(ParamKind::Num);

    assert_eq!(request().path("/42/vroom").filter(&filter::peek()).unwrap(), vec![text("42/vroom")]);
    assert_eq!(request().path("/").filter(&filter::peek()).unwrap(), vec![text("")]);
    assert_eq!(request().path("/foo/bar?baz=quux").filter(&filter::peek()).unwrap(), vec![text("foo/bar")]);
    assert_eq!(request().path("/foo/bar").filter(&foo().and(filter::peek())).unwrap(), vec![text("bar")]);
    assert_eq!(request().path("/foo/bar").filter(&filter::peek().and(foo())).unwrap(), vec![text("foo/bar")]);
    let ex = request().path("/foo/123").filter(&foo().and(num()).and(filter::peek())).unwrap();
    assert_eq!(ex[1], text(""));
    assert!(request().path("/foo/bar").matches(&filter::peek().and(foo()).and(bar())));
}

#[test]
fn path_or() {
    let foo = || filter::path("foo");
    let bar = || filter::path("bar");
    let baz = || filter::path("baz");
    let p = foo().and(bar().or(baz()));

    assert!(request().path("/foo/bar").matches(&p));
    assert!(request().path("/foo/baz").matches(&p));

    let p = foo()
        .and(bar().and(baz()).map_to(vec![]))
        .or(foo().and(baz().and(bar())).map_to(vec![]))
        .or(foo().and(bar().and(bar())));

    assert!(!request().path("/foo/baz/baz").matches(&p));
    assert!(request().path("/foo/bar/bar").matches(&p));
}

#[test]
fn path_or_else() {
    let p = filter::path("foo").and(filter::path("bar").or_else(vec![]));
    assert!(request().path("/foo/nope").matches(&p));
}

#[test]
fn segments_scenario() {
    let foo_bar = || filter::path("foo").and(filter::path("bar"));
    assert!(request().path("/foo/bar").matches(&foo_bar()));
    assert_eq!(request().path("/foo/baz").filter(&foo_bar()), Err(Rejection::NotFound));
    assert_eq!(
        request().path("/foo/123").filter(&filter::path("foo").and(param(ParamKind::Num))).unwrap(),
        vec![Value::Num(123)]
    );
}

#[test]
fn or_backtracks_partial_match() {
    let first = filter::path("foo").and(filter::path("bar"));
    let second = filter::path("foo").and(filter::path("baz"));
    let f = first.or(second);
    assert!(request().path("/foo/baz").matches(&f));
    let f = filter::path("foo").and(filter::path("bar")).or(full());
    assert_eq!(request().path("/foo/baz").filter(&f).unwrap(), vec![text("/foo/baz")]);
    let f = filter::path("foo").and(filter::path("bar")).or(filter::peek());
    assert_eq!(request().path("/foo/baz").filter(&f).unwrap(), vec![text("foo/baz")]);
}

#[test]
fn peek_segments() {
    let ex = request().path("/42/vroom").filter(&filter::peek()).unwrap();
    let rest = match &ex[0] {
        Value::Text(t) => t.clone(),
        _ => panic!("peek extracts text"),
    };
    assert_eq!(segments(&rest), &["42", "vroom"]);

    let ex = request().path("/").filter(&filter::peek()).unwrap();
    let rest = match &ex[0] {
        Value::Text(t) => t.clone(),
        _ => panic!("peek extracts text"),
    };
    let segs = segments(&rest);
    assert_eq!(segs, Vec::<String>::new());
    assert_eq!(segments("a//b/"), vec!["a".to_string(), "b".to_string()]);
}

use nextshell::filter;
use nextshell::value::Value;
use nextshell::rejection::Rejection;
use nextshell::request::request;

fn text(s: &str) -> Value {
    Value::Text(s.to_string())
}

#[test]
fn cookie() {
    let foo = || filter::cookie("foo");

    let req = request().header("cookie", "foo=bar");
    assert_eq!(req.filter(&foo()).unwrap(), vec![text("bar")]);

    let req = request().header("cookie", "abc=def; foo=baz");
    assert_eq!(req.filter(&foo()).unwrap(), vec![text("baz")]);

    let req = request().header("cookie", "abc=def");
    assert!(!req.matches(&foo()));

    let req = request().header("cookie", "foobar=quux");
    assert!(!req.matches(&foo()));
}

#[test]
fn missing() {
    let res = request().header("cookie", "not=here").reply(&filter::cookie("foo"));
    assert_eq!(res.status, 400);
    assert_eq!(res.body, "Missing request cookie \"foo\"");
}

#[test]
fn cookie_scenario() {
    let req = request().header("cookie", "abc=def");
    assert_eq!(req.filter(&filter::cookie("foo")), Err(Rejection::MissingCookie("foo".to_string())));
    let res = req.reply(&filter::cookie("foo"));
    assert_eq!(res.status, 400);
    assert_eq!(res.body, "Missing request cookie \"foo\"");
    assert!(!request().matches(&filter::cookie("foo")));
}

#[test]
fn cookie_edge_cases() {
    let req = request().header("cookie", "  a = 1 ;b=2=3;  c=  ");
    assert_eq!(req.filter(&filter::cookie("b")).unwrap(), vec![text("2=3")]);
    assert_eq!(req.filter(&filter::cookie("c")).unwrap(), vec![text("")]);
    assert!(!req.matches(&filter::cookie("a")));
    assert_eq!(req.filter(&filter::cookie("a ")).unwrap(), vec![text(" 1")]);
}

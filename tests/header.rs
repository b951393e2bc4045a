use nextshell::filter;
use nextshell::value::Value;
use nextshell::rejection::Rejection;
use nextshell::request::request;

#[test]
fn header_exact() {
    let host = || filter::header_exact("host", "localhost");
    assert!(request().header("host", "localhost").matches(&host()));
    assert!(!request().matches(&host()), "header missing");
    assert!(!request().header("host", "hyper.rs").matches(&host()), "header value different");
}

#[test]
fn exact_rejections() {
    let host = || filter::header_exact("host", "localhost");

    let res = request().header("host", "nope").reply(&host());
    assert_eq!(res.status, 400);
    assert_eq!(res.body, "Invalid request header \"host\"");

    let res = request().header("not-even-a-host", "localhost").reply(&host());
    assert_eq!(res.status, 400);
    assert_eq!(res.body, "Missing request header \"host\"");
}

#[test]
fn first_header_counts() {
    let req = request().header("x", "1").header("x", "2");
    assert_eq!(req.filter(&filter::header("x")).unwrap(), vec![Value::Text("1".to_string())]);
    assert_eq!(
        request().filter(&filter::header("x")),
        Err(Rejection::MissingHeader("x".to_string()))
    );
}

#[test]
fn raw_query() {
    let req = request().path("/?foo=bar&baz=quux");
    assert_eq!(req.filter(&filter::raw_query()).unwrap(), vec![Value::Text("foo=bar&baz=quux".to_owned())]);
}

#[test]
fn missing_raw_query() {
    let res = request().path("/").reply(&filter::raw_query());
    assert_eq!(res.status, 400);
    assert_eq!(res.body, "Invalid query string");
}

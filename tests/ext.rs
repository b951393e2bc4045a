use nextshell::filter::{any, body_bytes, content_length_limit, extension, reject};
use nextshell::rejection::Rejection;
use nextshell::request::request;
use nextshell::value::Value;

#[test]
fn set_and_get() {
    let ext = extension("u32");
    let extracted = request().extension("u32", Value::Num(55)).filter(&ext).unwrap();
    assert_eq!(extracted, vec![Value::Num(55)]);
}

#[test]
fn extension_missing_renders_request_error() {
    let res = request().reply(&extension("u32"));
    assert_eq!(res.status, 400);
    assert_eq!(res.body, "Missing request extension");
}

#[test]
fn later_extension_overrides() {
    let req = request()
        .extension("k", Value::Num(1))
        .extension("other", Value::Flag(true))
        .extension("k", Value::Num(2));
    assert_eq!(req.filter(&extension("k")).unwrap(), vec![Value::Num(2)]);
}

#[test]
fn body_limit_and_bytes() {
    let f = || content_length_limit(3).and(body_bytes());
    assert_eq!(
        request().body(vec![1, 2, 3]).filter(&f()).unwrap(),
        vec![Value::Bytes(vec![1, 2, 3])]
    );
    assert_eq!(request().body(vec![1, 2, 3, 4]).filter(&f()), Err(Rejection::PayloadTooLarge));
    assert_eq!(request().body(vec![0; 10]).reply(&f()).status, 400);
}

#[test]
fn custom_rejection_keeps_its_status() {
    let f = any().and(reject(Rejection::Custom(503, "busy".to_string())));
    let res = request().reply(&f);
    assert_eq!(res.status, 503);
    assert_eq!(res.body, "busy");
    let f = reject(Rejection::NotFound).or(reject(Rejection::Custom(409, "c".to_string())));
    assert_eq!(request().reply(&f).status, 409);
}

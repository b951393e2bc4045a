use nextshell::filter::{get, header_exact, path, post};
use nextshell::rejection::{Method, Rejection};
use nextshell::request::request;

#[test]
fn method() {
    assert!(request().matches(&get()));
    assert!(!request().method(Method::Post).matches(&get()));
    let resp = request().method(Method::Post).reply(&get());
    assert_eq!(resp.status, 405);
}

#[test]
fn method_not_allowed_trumps_not_found() {
    let get = get().and(path("hello"));
    let post = post().and(path("bye"));
    let routes = get.or(post);

    let resp = request().method(Method::Get).path("/bye").reply(&routes);
    assert_eq!(resp.status, 405);
}

#[test]
fn bad_request_trumps_method_not_allowed() {
    let get = get().and(path("hello")).and(header_exact("foo", "bar"));
    let post = post().and(path("bye"));
    let routes = get.or(post);

    let resp = request().method(Method::Get).path("/hello").reply(&routes);
    assert_eq!(resp.status, 400);
}

#[test]
fn allowed_methods_are_merged() {
    let routes = get().or(post()).or(get());
    let r = request().method(Method::Put).filter(&routes);
    assert_eq!(r, Err(Rejection::MethodNotAllowed(vec![Method::Get, Method::Post])));
}

#[test]
fn not_found_is_overridden_on_either_side() {
    let a = path("x");
    let b = get();
    let r = request().method(Method::Post).path("/y").filter(&a.or(b));
    assert_eq!(r, Err(Rejection::MethodNotAllowed(vec![Method::Get])));
    let r = request().method(Method::Post).path("/y").filter(&get().or(path("x")));
    assert_eq!(r, Err(Rejection::MethodNotAllowed(vec![Method::Get])));
}

#[test]
fn rejection_combine_keeps_first_of_equal_rank() {
    let a = Rejection::MissingHeader("a".to_string());
    let b = Rejection::InvalidQuery;
    assert_eq!(a.clone().combine(b.clone()), a);
    assert_eq!(Rejection::NotFound.combine(b.clone()), b);
    assert_eq!(Rejection::Custom(418, "tea".to_string()).status(), 418);
    assert_eq!(Rejection::PayloadTooLarge.status(), 400);
    assert_eq!(Rejection::InvalidQuery.message(), "Invalid query string");
}

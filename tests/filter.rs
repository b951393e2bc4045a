use nextshell::filter::{any, param, ParamKind};
use nextshell::value::Value;
use nextshell::request::request;

fn text(s: &str) -> Value {
    Value::Text(s.to_string())
}

#[test]
fn flattens_tuples() {
    let str1 = || any().map_to(vec![text("nextshell")]);
    let true1 = || any().map_to(vec![Value::Flag(true)]);
    let unit1 = || any();

    assert_eq!(request().filter(&str1()).unwrap(), vec![text("nextshell")]);
    assert_eq!(request().filter(&unit1()).unwrap(), vec![]);
    assert_eq!(
        request().filter(&str1().and(true1())).unwrap(),
        vec![text("nextshell"), Value::Flag(true)]
    );
    assert_eq!(
        request().filter(&true1().and(str1())).unwrap(),
        vec![Value::Flag(true), text("nextshell")]
    );
    assert_eq!(request().filter(&str1().and(unit1())).unwrap(), vec![text("nextshell")]);
    assert_eq!(request().filter(&unit1().and(str1())).unwrap(), vec![text("nextshell")]);
    assert_eq!(
        request().filter(&str1().and(str1()).and(true1())).unwrap(),
        vec![text("nextshell"), text("nextshell"), Value::Flag(true)]
    );
    assert_eq!(
        request().filter(&str1().and(unit1()).and(true1())).unwrap(),
        vec![text("nextshell"), Value::Flag(true)]
    );
    assert_eq!(
        request().filter(&unit1().and(str1()).and(true1())).unwrap(),
        vec![text("nextshell"), Value::Flag(true)]
    );
    assert_eq!(
        request().filter(&str1().and(true1()).and(unit1())).unwrap(),
        vec![text("nextshell"), Value::Flag(true)]
    );

    let str_true_unit = || str1().and(true1()).and(unit1());
    let unit_str_true = || unit1().and(str1()).and(true1());
    assert_eq!(
        request().filter(&str_true_unit().and(unit_str_true())).unwrap(),
        vec![text("nextshell"), Value::Flag(true), text("nextshell"), Value::Flag(true)]
    );
    assert_eq!(
        request()
            .filter(&unit_str_true().and(unit1()).and(str1()).and(str_true_unit()))
            .unwrap(),
        vec![
            text("nextshell"),
            Value::Flag(true),
            text("nextshell"),
            text("nextshell"),
            Value::Flag(true)
        ]
    );
}

#[test]
fn map() {
    let resp = request().reply(&any());
    assert_eq!(resp.status, 200);
}

#[test]
fn filter_or() {
    let f = param(ParamKind::Num).or(any().map_to(vec![Value::Num(41)]));
    assert_eq!(request().filter(&f).unwrap(), vec![Value::Num(41)]);
}

#[test]
fn filter_or_else() {
    let f = || param(ParamKind::Num).or_else(vec![Value::Num(44)]);
    assert_eq!(request().path("/33").filter(&f()).unwrap(), vec![Value::Num(33)]);
    assert_eq!(request().filter(&f()).unwrap(), vec![Value::Num(44)]);
}

#[test]
fn unify() {
    let f = param(ParamKind::Num).or(param(ParamKind::Num));
    assert_eq!(request().path("/1").filter(&f).unwrap(), vec![Value::Num(1)]);
}

#[test]
fn and_is_associative_on_values() {
    let a = || any().map_to(vec![Value::Num(1)]);
    let b = || any().map_to(vec![Value::Num(2), Value::Num(3)]);
    let c = || any().map_to(vec![Value::Num(4)]);
    let left = request().filter(&a().and(b()).and(c())).unwrap();
    let right = request().filter(&a().and(b().and(c()))).unwrap();
    assert_eq!(left, right);
    assert_eq!(left, vec![Value::Num(1), Value::Num(2), Value::Num(3), Value::Num(4)]);
}

#[test]
fn reply_renders_text_values() {
    let f = param(ParamKind::Text);
    let resp = request().path("/hi").reply(&f);
    assert_eq!(resp.status, 200);
    assert_eq!(resp.body, "hi");
    let resp = request().reply(&f);
    assert_eq!(resp.status, 404);
    assert_eq!(resp.body, "");
}

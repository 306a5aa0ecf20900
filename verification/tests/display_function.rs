use tuber::function::display::ecmascript::ECMAScriptStyle;
use tuber::function::display::lazy_k::LazyKStyle;
use tuber::{Expr, Func};

#[test]
fn test_to_string_1() {
    let f = Func::new(
        "f".into(),
        vec!["x".into(), "y".into()],
        Expr::a("x".into(), "y".into()),
    );
    assert_eq!(f.to_string(), "``fxy = `xy");
}

#[test]
fn test_to_string_2() {
    let f = Func::new(
        "F".into(),
        vec!["X".into(), "Y".into()],
        Expr::a("X".into(), "Y".into()),
    );
    assert_eq!(f.to_string(), "``F X Y = `X Y");
}

#[test]
fn test_to_string_3() {
    let f = Func::new(
        "F".into(),
        vec!["x".into(), "Y".into()],
        Expr::a("x".into(), "Y".into()),
    );
    assert_eq!(f.to_string(), "``FxY = `xY");
}

#[test]
fn lazy_k_test_to_string_1() {
    let f = Func::new(
        "f".into(),
        vec!["x".into(), "y".into()],
        Expr::a("x".into(), "y".into()),
    );
    assert_eq!(LazyKStyle(&f).to_string(), "``fxy = `xy");
}

#[test]
fn lazy_k_test_to_string_2() {
    let f = Func::new(
        "F".into(),
        vec!["X".into(), "Y".into()],
        Expr::a("X".into(), "Y".into()),
    );
    assert_eq!(LazyKStyle(&f).to_string(), "``F X Y = `X Y");
}

#[test]
fn lazy_k_test_to_string_3() {
    let f = Func::new(
        "F".into(),
        vec!["x".into(), "Y".into()],
        Expr::a("x".into(), "Y".into()),
    );
    assert_eq!(LazyKStyle(&f).to_string(), "``FxY = `xY");
}

#[test]
fn test_to_string_0() {
    let f = Func::new("TRUE".into(), vec![], "k".into());
    assert_eq!(ECMAScriptStyle(&f).to_string(), "TRUE = k");
}

#[test]
fn ecmascript_test_to_string_1() {
    let f = Func::new(
        "f".into(),
        vec!["x".into(), "y".into()],
        Expr::a("x".into(), "y".into()),
    );
    assert_eq!(ECMAScriptStyle(&f).to_string(), "f(x, y) = x(y)");
}

#[test]
fn ecmascript_test_to_string_2() {
    let f = Func::new(
        "F".into(),
        vec!["X".into(), "Y".into()],
        Expr::a("X".into(), "Y".into()),
    );
    assert_eq!(ECMAScriptStyle(&f).to_string(), "F(X, Y) = X(Y)");
}

#[test]
fn ecmascript_test_to_string_3() {
    let f = Func::new(
        "F".into(),
        vec!["x".into(), "Y".into()],
        Expr::a("x".into(), "Y".into()),
    );
    assert_eq!(ECMAScriptStyle(&f).to_string(), "F(x, Y) = x(Y)");
}

use tuber::{Context, Expr, Func};

#[test]
fn test_arity() {
    let f0 = Func::new("F0".into(), vec![], ":a".into());
    let f1 = Func::new("F1".into(), vec!["x".into()], ":a".into());
    let f2 = Func::new("F2".into(), vec!["x".into(), "y".into()], ":a".into());
    let f3 = Func::new(
        "F3".into(),
        vec!["x".into(), "y".into(), "z".into()],
        ":a".into(),
    );

    let context = Context::from(vec![f0, f1, f2, f3]);

    assert_eq!(Expr::s("a").arity(&context), None);

    assert_eq!(Expr::a(Expr::v("x"), Expr::v("y")).arity(&context), None);

    assert_eq!(Expr::l("x".into(), Expr::v("x")).arity(&context), Some(1));

    assert_eq!(Expr::v("x").arity(&context), None);

    assert_eq!(Expr::v("F0").arity(&context), Some(0));
    assert_eq!(Expr::v("F1").arity(&context), Some(1));
    assert_eq!(Expr::v("F2").arity(&context), Some(2));
    assert_eq!(Expr::v("F3").arity(&context), Some(3));
}

#[test]
fn test_apply() {
    let context = Context::from(vec![Func::new(
        "k".into(),
        vec!["x".into(), "y".into()],
        "x".into(),
    )]);

    assert_eq!(
        Expr::l("x".into(), "x".into()).apply(&context, vec![":a".into()]),
        Some(":a".into())
    );
    assert_eq!(
        Expr::v("k").apply(&context, vec![":a".into(), ":b".into()]),
        Some(":a".into())
    );
    assert_eq!(Expr::s("k").apply(&context, vec![]), None);
    assert_eq!(Expr::v("undefined").apply(&context, vec![]), None);
}

use tuber::{Context, Expr, Func, Ident};

#[test]
fn test_context_def() {
    let mut context = Context::new();

    assert_eq!(context.count(), 0);

    context.def(Func::new(
        Ident::new("i"),
        vec![Ident::new("x")],
        Expr::v("x"),
    ));
    context.def(Func::new(
        Ident::new("k"),
        vec![Ident::new("x"), Ident::new("y")],
        Expr::v("x"),
    ));
    context.def(Func::new(
        Ident::new("s"),
        vec![Ident::new("x"), Ident::new("y"), Ident::new("z")],
        Expr::a(
            Expr::a(Expr::v("x"), Expr::v("z")),
            Expr::a(Expr::v("y"), Expr::v("z")),
        ),
    ));

    assert_eq!(context.count(), 3);
    assert_eq!(context.arity(&Ident::new("i")), Some(1));
    assert_eq!(context.arity(&Ident::new("k")), Some(2));
    assert_eq!(context.arity(&Ident::new("s")), Some(3));
    assert_eq!(context.arity(&Ident::new("UNDEFINED")), None);

    context.del(&Ident::new("i"));
    assert_eq!(context.count(), 2);
    assert_eq!(context.arity(&Ident::new("i")), None);
}

#[test]
fn test_context_from() {
    let i: Func = Func::new("i".into(), vec![Ident::new("x")], Expr::v("x"));
    let k: Func = Func::new(
        "k".into(),
        vec![Ident::new("x"), Ident::new("y")],
        Expr::v("x"),
    );
    let s: Func = Func::new(
        "s".into(),
        vec![Ident::new("x"), Ident::new("y"), Ident::new("z")],
        Expr::a(
            Expr::a(Expr::v("x"), Expr::v("z")),
            Expr::a(Expr::v("y"), Expr::v("z")),
        ),
    );

    let context: Context = Context::from(vec![i, k, s]);

    assert_eq!(context.count(), 3);
    assert_eq!(context.arity(&Ident::new("i")), Some(1));
    assert_eq!(context.arity(&Ident::new("k")), Some(2));
    assert_eq!(context.arity(&Ident::new("s")), Some(3));
    assert_eq!(context.arity(&Ident::new("UNDEFINED")), None);
}

#[test]
fn test_define_then_get_and_delete() {
    let mut context = Context::new();
    let f = Func::new("DOUBLE".into(), vec!["x".into()], Expr::v("x"));

    context.def(f.duplicate());
    assert_eq!(context.get(&Ident::new("DOUBLE")), Some(&f));

    // Redefinition replaces the whole record.
    let g = Func::new("DOUBLE".into(), vec!["y".into()], Expr::v("y"));
    context.def(g.duplicate());
    assert_eq!(context.get(&Ident::new("DOUBLE")), Some(&g));
    assert_eq!(context.count(), 1);

    context.del(&Ident::new("DOUBLE"));
    assert_eq!(context.get(&Ident::new("DOUBLE")), None);
    assert_eq!(context.arity(&Ident::new("DOUBLE")), None);
}

#[test]
fn test_default_context_has_base_combinators() {
    let context = Context::default();

    assert_eq!(context.arity(&Ident::new("i")), Some(1));
    assert_eq!(context.arity(&Ident::new("k")), Some(2));
    assert_eq!(context.arity(&Ident::new("s")), Some(3));
    assert_eq!(context.arity(&Ident::new("TRUE")), Some(0));
    assert_eq!(context.arity(&Ident::new("10")), Some(0));
}

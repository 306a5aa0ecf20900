use tuber::{Context, EvalSteps, Expr, Func};

#[test]
fn test_unlambda() {
    // x == x
    assert_eq!(Expr::Variable("x".into()).unlambda(), "x".into());

    // :x = :x
    assert_eq!(Expr::Symbol("x".into()).unlambda(), ":x".into());

    // `xy == `xy
    assert_eq!(
        Expr::a("x".into(), "y".into()).unlambda(),
        Expr::a("x".into(), "y".into())
    );

    // ^x.x == i
    assert_eq!(Expr::l("x".into(), "x".into()).unlambda(), "i".into());

    // ^x.:x == `k:x — a bare symbol under abstraction is wrapped with `k`,
    // the same way as a constant variable.
    assert_eq!(
        Expr::l("x".into(), ":x".into()).unlambda(),
        Expr::a("k".into(), ":x".into())
    );

    // ^x.y == `ky
    assert_eq!(
        Expr::l("x".into(), "y".into()).unlambda(),
        Expr::a("k".into(), "y".into())
    );

    // ^x.:y == `k:y
    assert_eq!(
        Expr::l("x".into(), ":y".into()).unlambda(),
        Expr::a("k".into(), ":y".into())
    );

    // ^x.`yx == y
    assert_eq!(
        Expr::l("x".into(), Expr::a("y".into(), "x".into())).unlambda(),
        "y".into()
    );

    // ^x.`y:x == ``s`ky`k:x
    assert_eq!(
        Expr::l("x".into(), Expr::a("y".into(), ":x".into())).unlambda(),
        Expr::a(
            Expr::a("s".into(), Expr::a("k".into(), "y".into())),
            Expr::a("k".into(), ":x".into())
        )
    );

    // ^x.`xy == ``si`ky
    assert_eq!(
        Expr::l("x".into(), Expr::a("x".into(), "y".into())).unlambda(),
        Expr::a(
            Expr::a("s".into(), "i".into()),
            Expr::a("k".into(), "y".into())
        )
    );

    // ^x.`:xy == ``s`k:x`ky
    assert_eq!(
        Expr::l("x".into(), Expr::a(":x".into(), "y".into())).unlambda(),
        Expr::a(
            Expr::a("s".into(), Expr::a("k".into(), ":x".into())),
            Expr::a("k".into(), "y".into())
        )
    );

    // ^x.`yz == ``s`ky`kz — an application is distributed with `s` even
    // when the parameter is free in neither side.
    assert_eq!(
        Expr::l("x".into(), Expr::a("y".into(), "z".into())).unlambda(),
        Expr::a(
            Expr::a("s".into(), Expr::a("k".into(), "y".into())),
            Expr::a("k".into(), "z".into())
        )
    );

    // ^x.^y.`xy == i
    assert_eq!(
        Expr::l(
            "x".into(),
            Expr::l("y".into(), Expr::a("x".into(), "y".into()))
        )
        .unlambda(),
        "i".into()
    );
}

fn base_combinators() -> Context {
    let i = Func::new("i".into(), vec!["x".into()], "x".into());
    let k = Func::new("k".into(), vec!["x".into(), "y".into()], "x".into());
    let s = Func::new(
        "s".into(),
        vec!["x".into(), "y".into(), "z".into()],
        Expr::a(
            Expr::a("x".into(), "z".into()),
            Expr::a("y".into(), "z".into()),
        ),
    );
    Context::from(vec![i, k, s])
}

fn normal_form(expr: Expr, context: &Context, limit: usize) -> Expr {
    let mut steps = EvalSteps::new(expr.duplicate(), context);
    let mut last = expr;
    let mut taken = 0;
    while let Some(e) = steps.next() {
        last = e;
        taken += 1;
        assert!(taken <= limit, "no normal form within the bound");
    }
    last
}

fn contains_lambda(expr: &Expr) -> bool {
    match expr {
        Expr::Variable(_) => false,
        Expr::Symbol(_) => false,
        Expr::Apply { lhs, rhs } => contains_lambda(lhs) || contains_lambda(rhs),
        Expr::Lambda { .. } => true,
    }
}

#[test]
fn test_unlambda_soundness_battery() {
    let context = base_combinators();

    // A battery of closed terms applied to symbols: the transform leaves no
    // abstraction, and evaluation reaches the same normal form.
    let battery = vec![
        // (^x.x) :a
        Expr::a(Expr::l("x".into(), "x".into()), ":a".into()),
        // ((^x.^y.x) :a) :b
        Expr::a(
            Expr::a(
                Expr::l("x".into(), Expr::l("y".into(), "x".into())),
                ":a".into(),
            ),
            ":b".into(),
        ),
        // (^x.`yx with y bound to i) :a — the η-shortcut case
        Expr::a(
            Expr::l("x".into(), Expr::a("i".into(), "x".into())),
            ":a".into(),
        ),
        // ((^x.^y.`yx) :a) :b — nested abstractions with both used
        Expr::a(
            Expr::a(
                Expr::l(
                    "x".into(),
                    Expr::l("y".into(), Expr::a("y".into(), "x".into())),
                ),
                "i".into(),
            ),
            ":b".into(),
        ),
    ];

    for term in battery {
        let transformed = term.duplicate().unlambda();
        assert!(!contains_lambda(&transformed));
        let direct = normal_form(term, &context, 1000);
        let through = normal_form(transformed, &context, 1000);
        assert_eq!(direct, through);
    }

    // The η-shortcut abstracts ^x.`yx to y itself, not to ``s`ky i.
    assert_eq!(
        Expr::l("x".into(), Expr::a("y".into(), "x".into())).unlambda(),
        Expr::v("y")
    );
}

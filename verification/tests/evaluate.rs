use tuber::evaluate::Stack;
use tuber::{Context, EvalSteps, Expr, Func};

fn setup() -> Context {
    let i = Func::new("i".into(), vec!["x".into()], "x".into());
    let k = Func::new("k".into(), vec!["x".into(), "y".into()], "x".into());
    let s = Func::new(
        "s".into(),
        vec!["x".into(), "y".into(), "z".into()],
        Expr::a(
            Expr::a("x".into(), "z".into()),
            Expr::a("y".into(), "z".into()),
        ),
    );

    let t = Func::new("TRUE".into(), vec![], Expr::a("k".into(), "i".into()));
    let f = Func::new("FALSE".into(), vec![], "k".into());

    Context::from(vec![i, k, s, t, f])
}

#[test]
fn test_eval_steps_lambda_i() {
    let context = Context::new();

    let i = Expr::l("x".into(), "x".into());
    let expr = Expr::a(i, ":a".into());

    let mut steps = EvalSteps::new(expr, &context);

    assert_eq!(steps.next(), Some(":a".into()));
    assert_eq!(steps.next(), None);
}

#[test]
fn test_eval_steps_lambda_k_1() {
    let context = Context::new();

    let k = Expr::l("x".into(), Expr::l("y".into(), "x".into()));
    let expr = Expr::a(k, ":a".into());

    let mut steps = EvalSteps::new(expr, &context);

    assert_eq!(steps.next(), Some(Expr::l("y".into(), ":a".into())));
    assert_eq!(steps.next(), None);
}

#[test]
fn test_eval_steps_lambda_k_2() {
    let context = Context::new();

    let k = Expr::l("x".into(), Expr::l("y".into(), "x".into()));
    let expr = Expr::a(Expr::a(k, ":a".into()), ":b".into());

    let mut steps = EvalSteps::new(expr, &context);

    assert_eq!(
        steps.next(),
        Some(Expr::a(Expr::l("y".into(), ":a".into()), ":b".into()))
    );
    assert_eq!(steps.next(), Some(":a".into()));
    assert_eq!(steps.next(), None);
}

#[test]
fn test_eval_steps_func_true_1() {
    let context = setup();

    let expr: Expr = "TRUE".into();

    let mut steps = EvalSteps::new(expr, &context);

    // A defined zero-arity name is a redex even when it stands bare: it
    // reduces once to its body.
    assert_eq!(steps.next(), Some(Expr::a("k".into(), "i".into())));
    assert_eq!(steps.next(), None);
}

#[test]
fn test_eval_steps_func_true_2() {
    let context = setup();

    let expr = Expr::a(":a".into(), "TRUE".into());

    let mut steps = EvalSteps::new(expr, &context);

    // The symbol at the head never fires, but the zero-arity argument does.
    assert_eq!(
        steps.next(),
        Some(Expr::a(":a".into(), Expr::a("k".into(), "i".into())))
    );
    assert_eq!(steps.next(), None);
}

#[test]
fn test_eval_steps_func_true_3() {
    let context = setup();

    let expr = Expr::a(Expr::a("TRUE".into(), ":a".into()), ":b".into());

    let mut steps = EvalSteps::new(expr, &context);

    assert_eq!(
        steps.next(),
        Some(Expr::a(
            Expr::a(Expr::a("k".into(), "i".into()), ":a".into()),
            ":b".into()
        ))
    );
    assert_eq!(steps.next(), Some(Expr::a("i".into(), ":b".into())));
    assert_eq!(steps.next(), Some(":b".into()));
    assert_eq!(steps.next(), None);
}

#[test]
fn test_eval_steps_func_i() {
    let context = setup();

    let expr = Expr::a("i".into(), ":a".into());

    let mut steps = EvalSteps::new(expr, &context);

    assert_eq!(steps.next(), Some(":a".into()));
    assert_eq!(steps.next(), None);
}

#[test]
fn test_eval_steps_func_k_1() {
    let context = setup();

    let expr = Expr::a("k".into(), ":a".into());

    let mut steps = EvalSteps::new(expr, &context);

    assert_eq!(steps.next(), None);
}

#[test]
fn test_eval_steps_func_k_2() {
    let context = setup();

    let expr = Expr::a(Expr::a("k".into(), ":a".into()), ":b".into());

    let mut steps = EvalSteps::new(expr, &context);

    assert_eq!(steps.next(), Some(":a".into()));
    assert_eq!(steps.next(), None);
}

#[test]
fn test_eval_steps_func_s_1() {
    let context = setup();

    let expr = Expr::a("s".into(), ":a".into());

    let mut steps = EvalSteps::new(expr, &context);

    assert_eq!(steps.next(), None);
}

#[test]
fn test_eval_steps_func_s_2() {
    let context = setup();

    let expr = Expr::a(Expr::a("s".into(), ":a".into()), ":b".into());

    let mut steps = EvalSteps::new(expr, &context);

    assert_eq!(steps.next(), None);
}

#[test]
fn test_eval_steps_func_s_3() {
    let context = setup();

    let expr = Expr::a(
        Expr::a(Expr::a("s".into(), ":a".into()), ":b".into()),
        ":c".into(),
    );

    let mut steps = EvalSteps::new(expr, &context);

    assert_eq!(
        steps.next(),
        Some(Expr::a(
            Expr::a(":a".into(), ":c".into()),
            Expr::a(":b".into(), ":c".into())
        ))
    );
    assert_eq!(steps.next(), None);
}

#[test]
fn test_eval_steps_skk() {
    let context = setup();

    let expr = Expr::a(
        Expr::a(Expr::a("s".into(), "k".into()), "k".into()),
        ":a".into(),
    );

    let mut steps = EvalSteps::new(expr, &context);
    let mut last = None;
    while let Some(e) = steps.next() {
        last = Some(e);
    }

    assert_eq!(last, Some(Expr::s("a")));
}

#[test]
fn test_eval_steps_right_tree_1() {
    let context = setup();

    let expr = Expr::a(
        ":a".into(),
        Expr::a(Expr::a("k".into(), ":b".into()), ":c".into()),
    );

    let mut steps = EvalSteps::new(expr, &context);

    assert_eq!(steps.next(), Some(Expr::a(":a".into(), ":b".into())));
    assert_eq!(steps.next(), None);
}

#[test]
fn test_eval_steps_right_tree_2() {
    let context = setup();

    // ```:a`i:b`i:c
    let expr = Expr::a(
        Expr::a(":a".into(), Expr::a("i".into(), ":b".into())),
        Expr::a("i".into(), ":c".into()),
    );

    let mut steps = EvalSteps::new(expr, &context);

    assert_eq!(
        steps.next(),
        Some(Expr::a(
            Expr::a(":a".into(), ":b".into(),),
            Expr::a("i".into(), ":c".into())
        ))
    );
    assert_eq!(
        steps.next(),
        Some(Expr::a(Expr::a(":a".into(), ":b".into(),), ":c".into()))
    );
    assert_eq!(steps.next(), None);
}

#[test]
fn test_eval_steps() {
    let context = setup();

    // ```s^x.`x:a^x.`x:b:c
    let expr = Expr::a(
        Expr::a(
            Expr::a(
                "s".into(),
                Expr::l("x".into(), Expr::a("x".into(), ":a".into())),
            ),
            Expr::l("x".into(), Expr::a("x".into(), ":b".into())),
        ),
        ":c".into(),
    );

    let mut steps = EvalSteps::new(expr, &context);

    assert_eq!(
        steps.next(),
        // ``^x.`x:a:c`^x.`x:b:c
        Some(Expr::a(
            Expr::a(
                Expr::l("x".into(), Expr::a("x".into(), ":a".into())),
                ":c".into()
            ),
            Expr::a(
                Expr::l("x".into(), Expr::a("x".into(), ":b".into())),
                ":c".into()
            )
        ))
    );
    assert_eq!(
        steps.next(),
        // ``:c:a`^x.`x:b:c
        Some(Expr::a(
            Expr::a(":c".into(), ":a".into()),
            Expr::a(
                Expr::l("x".into(), Expr::a("x".into(), ":b".into())),
                ":c".into()
            )
        ))
    );
    assert_eq!(
        steps.next(),
        // ``:c:a`:c:b
        Some(Expr::a(
            Expr::a(":c".into(), ":a".into()),
            Expr::a(":c".into(), ":b".into()),
        ))
    );
    assert_eq!(steps.next(), None);
}

#[test]
fn test_stack_pop() {
    let context = Context::new();
    let mut stack = Stack(vec![
        EvalSteps::new(Expr::v("x"), &context),
        EvalSteps::new(Expr::v("y"), &context),
    ]);

    assert_eq!(stack.len(), 2);

    stack.push(EvalSteps::new(Expr::v("z"), &context));

    assert_eq!(stack.len(), 3);

    assert_eq!(
        stack.pop(2),
        Some(vec![
            EvalSteps::new(Expr::v("z"), &context),
            EvalSteps::new(Expr::v("y"), &context)
        ])
    );

    assert_eq!(stack.len(), 1);

    assert_eq!(
        stack.pop(1),
        Some(vec![EvalSteps::new(Expr::v("x"), &context)])
    );

    assert_eq!(stack.len(), 0);

    assert_eq!(stack.pop(1), None);
}

#[test]
fn test_stack_all() {
    let context = Context::new();
    let stack = Stack(vec![
        EvalSteps::new(Expr::v("x"), &context),
        EvalSteps::new(Expr::v("y"), &context),
        EvalSteps::new(Expr::v("z"), &context),
    ]);
    assert_eq!(
        stack.all(),
        vec![
            EvalSteps::new(Expr::v("z"), &context),
            EvalSteps::new(Expr::v("y"), &context),
            EvalSteps::new(Expr::v("x"), &context),
        ]
    );

    let stack0 = Stack(vec![]);
    assert_eq!(stack0.all(), vec![]);
}

#[test]
fn test_stack_nth() {
    let context = Context::new();
    let stack = Stack(vec![
        EvalSteps::new(Expr::v("x"), &context),
        EvalSteps::new(Expr::v("y"), &context),
        EvalSteps::new(Expr::v("z"), &context),
    ]);

    assert_eq!(stack.nth(0), Some(&EvalSteps::new(Expr::v("z"), &context)));
    assert_eq!(stack.nth(1), Some(&EvalSteps::new(Expr::v("y"), &context)));
    assert_eq!(stack.nth(2), Some(&EvalSteps::new(Expr::v("x"), &context)));
    assert_eq!(stack.nth(3), None);
}

#[test]
fn test_eval_last_1() {
    let context = setup();

    let expr = ":a".into();
    let mut steps = EvalSteps::new(expr, &context);

    assert_eq!(steps.eval_last(42), (None, false));
}

#[test]
fn test_eval_last_2() {
    let context = setup();

    let expr = Expr::a(
        "i".into(),
        Expr::a(
            "i".into(),
            Expr::a("i".into(), Expr::a("i".into(), ":a".into())),
        ),
    );
    let mut steps = EvalSteps::new(expr, &context);

    assert_eq!(steps.eval_last(42), (Some(":a".into()), false));
}

#[test]
fn test_eval_last_3() {
    let context = setup();

    let expr = Expr::a(
        "i".into(),
        Expr::a(
            "i".into(),
            Expr::a("i".into(), Expr::a("i".into(), ":a".into())),
        ),
    );
    let mut steps = EvalSteps::new(expr, &context);

    assert_eq!(
        steps.eval_last(3),
        (Some(Expr::a("i".into(), ":a".into())), true)
    );
}

#[test]
fn test_next_stays_none_at_normal_form() {
    let context = setup();

    let expr = Expr::a("i".into(), ":a".into());
    let mut steps = EvalSteps::new(expr, &context);

    assert_eq!(steps.next(), Some(":a".into()));
    assert_eq!(steps.next(), None);
    assert_eq!(steps.next(), None);
    assert_eq!(steps.next(), None);
}

#[test]
fn test_arity_gating_on_k() {
    let context = setup();

    // One pending argument under a two-argument function: no reduction.
    let mut under = EvalSteps::new(Expr::a("k".into(), ":a".into()), &context);
    assert_eq!(under.next(), None);

    // Two pending arguments: exactly one reduction, then none.
    let mut exact = EvalSteps::new(
        Expr::a(Expr::a("k".into(), ":a".into()), ":b".into()),
        &context,
    );
    assert_eq!(exact.next(), Some(":a".into()));
    assert_eq!(exact.next(), None);
}

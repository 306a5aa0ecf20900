use tuber::{Context, EvalSteps, Expr, Func};

fn setup() -> Context {
    let i = Func::new("i".into(), vec!["x".into()], "x".into());
    let k = Func::new("k".into(), vec!["x".into(), "y".into()], "x".into());
    let s = Func::new(
        "s".into(),
        vec!["x".into(), "y".into(), "z".into()],
        Expr::a(
            Expr::a("x".into(), "z".into()),
            Expr::a("y".into(), "z".into()),
        ),
    );

    Context::from(vec![i, k, s])
}

#[test]
fn eval_test_eval_steps_func_i() {
    let env = setup();

    let expr = Expr::a("i".into(), ":a".into());

    let mut steps = EvalSteps::new(expr, &env);

    assert_eq!(steps.next(), Some(":a".into()));
    assert_eq!(steps.next(), None);
}

#[test]
fn eval_test_eval_steps_func_k_1() {
    let env = setup();

    let expr = Expr::a("k".into(), ":a".into());

    let mut steps = EvalSteps::new(expr, &env);

    assert_eq!(steps.next(), None);
}

#[test]
fn eval_test_eval_steps_func_k_2() {
    let env = setup();

    let expr = Expr::a(Expr::a("k".into(), ":a".into()), ":b".into());

    let mut steps = EvalSteps::new(expr, &env);

    assert_eq!(steps.next(), Some(":a".into()));
    assert_eq!(steps.next(), None);
}

#[test]
fn eval_test_eval_steps_func_s_1() {
    let env = setup();

    let expr = Expr::a("s".into(), ":a".into());

    let mut steps = EvalSteps::new(expr, &env);

    assert_eq!(steps.next(), None);
}

#[test]
fn eval_test_eval_steps_func_s_2() {
    let env = setup();

    let expr = Expr::a(Expr::a("s".into(), ":a".into()), ":b".into());

    let mut steps = EvalSteps::new(expr, &env);

    assert_eq!(steps.next(), None);
}

#[test]
fn eval_test_eval_steps_func_s_3() {
    let env = setup();

    let expr = Expr::a(
        Expr::a(Expr::a("s".into(), ":a".into()), ":b".into()),
        ":c".into(),
    );

    let mut steps = EvalSteps::new(expr, &env);

    assert_eq!(
        steps.next(),
        Some(Expr::a(
            Expr::a(":a".into(), ":c".into()),
            Expr::a(":b".into(), ":c".into())
        ))
    );
    assert_eq!(steps.next(), None);
}

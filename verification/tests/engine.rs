use tuber::engine::RunResult;
use tuber::{Command, Context, Engine, Expr, Func, Ident};

fn base() -> Context {
    Context::from(vec![
        Func::new("i".into(), vec!["x".into()], "x".into()),
        Func::new("k".into(), vec!["x".into(), "y".into()], "x".into()),
        Func::new(
            "s".into(),
            vec!["x".into(), "y".into(), "z".into()],
            Expr::a(
                Expr::a("x".into(), "z".into()),
                Expr::a("y".into(), "z".into()),
            ),
        ),
    ])
}

#[test]
fn test_engine_update_and_info() {
    let mut engine = Engine::new(base());
    let f = Func::new("ID".into(), vec!["x".into()], "x".into());

    assert_eq!(engine.run(Command::Update(f.duplicate())), RunResult::Nothing);
    assert_eq!(
        engine.run(Command::Info("ID".into())),
        RunResult::Found(f)
    );
    assert_eq!(
        engine.run(Command::Info("MISSING".into())),
        RunResult::Undefined(Ident::new("MISSING"))
    );
}

#[test]
fn test_engine_del() {
    let mut engine = Engine::new(base());

    assert_eq!(engine.run(Command::Del("i".into())), RunResult::Nothing);
    assert_eq!(
        engine.run(Command::Info("i".into())),
        RunResult::Undefined(Ident::new("i"))
    );
}

#[test]
fn test_engine_eval_steps() {
    let mut engine = Engine::new(base());

    // ``skk applied to :a reduces to :a in three steps.
    let expr = Expr::a(
        Expr::a(Expr::a("s".into(), "k".into()), "k".into()),
        ":a".into(),
    );
    match engine.run(Command::Eval(expr)) {
        RunResult::Steps(steps) => {
            assert_eq!(steps.last(), Some(&Expr::s("a")));
        }
        other => panic!("expected steps, got {:?}", other),
    }
}

#[test]
fn test_engine_eval_last() {
    let mut engine = Engine::new(base());

    let expr = Expr::a("i".into(), Expr::a("i".into(), ":a".into()));
    assert_eq!(
        engine.run(Command::EvalLast(expr.duplicate())),
        RunResult::Last(expr, Some(":a".into()), false)
    );
}

#[test]
fn test_engine_global() {
    let mut engine = Engine::new(base());

    match engine.run(Command::Global) {
        RunResult::Listing(funcs) => {
            assert_eq!(funcs.len(), 3);
        }
        other => panic!("expected a listing, got {:?}", other),
    }
}

#[test]
fn test_engine_unlambda() {
    let mut engine = Engine::new(base());

    let expr = Expr::l("x".into(), "x".into());
    assert_eq!(
        engine.run(Command::Unlambda(expr.duplicate())),
        RunResult::Abstracted(expr, "i".into())
    );
}

#[test]
fn test_engine_respects_step_limit() {
    let mut engine = Engine::new(base());
    engine.step_limit = 2;

    // ```skk:a takes three steps to a normal form; only two may be shown.
    let expr = Expr::a(
        Expr::a(Expr::a("s".into(), "k".into()), "k".into()),
        ":a".into(),
    );
    match engine.run(Command::Eval(expr)) {
        RunResult::Steps(steps) => assert_eq!(steps.len(), 2),
        other => panic!("expected steps, got {:?}", other),
    }
}

use tuber::command::display::ecmascript::ECMAScriptStyle;
use tuber::command::display::lazy_k::LazyKStyle;
use tuber::{Command, Expr, Func};

#[test]
fn test_del() {
    assert_eq!(Command::Del("i".into()).to_string(), "i = i");
}

#[test]
fn test_update() {
    assert_eq!(
        Command::Update(Func::new("i".into(), vec!["x".into()], "x".into())).to_string(),
        "`ix = x"
    );

    assert_eq!(
        Command::Update(Func::new(
            "k".into(),
            vec!["x".into(), "y".into()],
            "x".into()
        ))
        .to_string(),
        "``kxy = x"
    );

    assert_eq!(
        Command::Update(Func::new(
            "s".into(),
            vec!["x".into(), "y".into(), "z".into()],
            Expr::a(
                Expr::a("x".into(), "z".into()),
                Expr::a("y".into(), "z".into())
            )
        ))
        .to_string(),
        "```sxyz = ``xz`yz"
    );
}

#[test]
fn test_eval() {
    assert_eq!(Command::Eval("a".into()).to_string(), "a");

    assert_eq!(
        Command::Eval(Expr::a("a".into(), "b".into())).to_string(),
        "`ab"
    );

    assert_eq!(
        Command::Eval(Expr::l("x".into(), "y".into())).to_string(),
        "^x.y"
    );
}

#[test]
fn test_eval_last() {
    assert_eq!(Command::EvalLast("a".into()).to_string(), "! a");

    assert_eq!(
        Command::EvalLast(Expr::a("a".into(), "b".into())).to_string(),
        "! `ab"
    );

    assert_eq!(
        Command::EvalLast(Expr::l("x".into(), "y".into())).to_string(),
        "! ^x.y"
    );
}

#[test]
fn test_eval_head() {
    assert_eq!(Command::EvalHead(42, "a".into()).to_string(), "!42 a");

    assert_eq!(
        Command::EvalHead(42, Expr::a("a".into(), "b".into())).to_string(),
        "!42 `ab"
    );

    assert_eq!(
        Command::EvalHead(42, Expr::l("x".into(), "y".into())).to_string(),
        "!42 ^x.y"
    );
}

#[test]
fn test_eval_tail() {
    assert_eq!(Command::EvalTail(42, "a".into()).to_string(), "!-42 a");

    assert_eq!(
        Command::EvalTail(42, Expr::a("a".into(), "b".into())).to_string(),
        "!-42 `ab"
    );

    assert_eq!(
        Command::EvalTail(42, Expr::l("x".into(), "y".into())).to_string(),
        "!-42 ^x.y"
    );
}

#[test]
fn test_info() {
    assert_eq!(Command::Info("i".into()).to_string(), "? i");
}

#[test]
fn test_global() {
    assert_eq!(Command::Global.to_string(), "?");
}

#[test]
fn test_unlambda_display() {
    assert_eq!(
        Command::Unlambda(Expr::l("x".into(), "x".into())).to_string(),
        "?? ^x.x"
    );
}

#[test]
fn lazy_k_test_del() {
    assert_eq!(LazyKStyle(&Command::Del("i".into())).to_string(), "i = i");
}

#[test]
fn lazy_k_test_update() {
    assert_eq!(
        LazyKStyle(&Command::Update(Func::new(
            "i".into(),
            vec!["x".into()],
            "x".into()
        )))
        .to_string(),
        "`ix = x"
    );

    assert_eq!(
        LazyKStyle(&Command::Update(Func::new(
            "k".into(),
            vec!["x".into(), "y".into()],
            "x".into()
        )))
        .to_string(),
        "``kxy = x"
    );

    assert_eq!(
        LazyKStyle(&Command::Update(Func::new(
            "s".into(),
            vec!["x".into(), "y".into(), "z".into()],
            Expr::a(
                Expr::a("x".into(), "z".into()),
                Expr::a("y".into(), "z".into())
            )
        )))
        .to_string(),
        "```sxyz = ``xz`yz"
    );
}

#[test]
fn lazy_k_test_eval() {
    assert_eq!(LazyKStyle(&Command::Eval("a".into())).to_string(), "a");

    assert_eq!(
        LazyKStyle(&Command::Eval(Expr::a("a".into(), "b".into()))).to_string(),
        "`ab"
    );

    assert_eq!(
        LazyKStyle(&Command::Eval(Expr::l("x".into(), "y".into()))).to_string(),
        "^x.y"
    );
}

#[test]
fn lazy_k_test_eval_last() {
    assert_eq!(
        LazyKStyle(&Command::EvalLast("a".into())).to_string(),
        "! a"
    );

    assert_eq!(
        LazyKStyle(&Command::EvalLast(Expr::a("a".into(), "b".into()))).to_string(),
        "! `ab"
    );

    assert_eq!(
        LazyKStyle(&Command::EvalLast(Expr::l("x".into(), "y".into()))).to_string(),
        "! ^x.y"
    );
}

#[test]
fn lazy_k_test_eval_head() {
    assert_eq!(
        LazyKStyle(&Command::EvalHead(42, "a".into())).to_string(),
        "!42 a"
    );

    assert_eq!(
        LazyKStyle(&Command::EvalHead(42, Expr::a("a".into(), "b".into()))).to_string(),
        "!42 `ab"
    );

    assert_eq!(
        LazyKStyle(&Command::EvalHead(42, Expr::l("x".into(), "y".into()))).to_string(),
        "!42 ^x.y"
    );
}

#[test]
fn lazy_k_test_eval_tail() {
    assert_eq!(
        LazyKStyle(&Command::EvalTail(42, "a".into())).to_string(),
        "!-42 a"
    );

    assert_eq!(
        LazyKStyle(&Command::EvalTail(42, Expr::a("a".into(), "b".into()))).to_string(),
        "!-42 `ab"
    );

    assert_eq!(
        LazyKStyle(&Command::EvalTail(42, Expr::l("x".into(), "y".into()))).to_string(),
        "!-42 ^x.y"
    );
}

#[test]
fn lazy_k_test_info() {
    assert_eq!(LazyKStyle(&Command::Info("i".into())).to_string(), "? i");
}

#[test]
fn lazy_k_test_global() {
    assert_eq!(LazyKStyle(&Command::Global).to_string(), "?");
}

#[test]
fn ecmascript_test_del() {
    assert_eq!(
        ECMAScriptStyle(&Command::Del("i".into())).to_string(),
        "i = i"
    );
}

#[test]
fn ecmascript_test_update() {
    assert_eq!(
        ECMAScriptStyle(&Command::Update(Func::new(
            "i".into(),
            vec!["x".into()],
            "x".into()
        )))
        .to_string(),
        "i(x) = x"
    );

    assert_eq!(
        ECMAScriptStyle(&Command::Update(Func::new(
            "k".into(),
            vec!["x".into(), "y".into()],
            "x".into()
        )))
        .to_string(),
        "k(x, y) = x"
    );

    assert_eq!(
        ECMAScriptStyle(&Command::Update(Func::new(
            "s".into(),
            vec!["x".into(), "y".into(), "z".into()],
            Expr::a(
                Expr::a("x".into(), "z".into()),
                Expr::a("y".into(), "z".into())
            )
        )))
        .to_string(),
        "s(x, y, z) = x(z, y(z))"
    );
}

#[test]
fn ecmascript_test_eval() {
    assert_eq!(ECMAScriptStyle(&Command::Eval("a".into())).to_string(), "a");

    assert_eq!(
        ECMAScriptStyle(&Command::Eval(Expr::a("a".into(), "b".into()))).to_string(),
        "a(b)"
    );

    assert_eq!(
        ECMAScriptStyle(&Command::Eval(Expr::l("x".into(), "y".into()))).to_string(),
        "x => y"
    );
}

#[test]
fn ecmascript_test_eval_last() {
    assert_eq!(
        ECMAScriptStyle(&Command::EvalLast("a".into())).to_string(),
        "! a"
    );

    assert_eq!(
        ECMAScriptStyle(&Command::EvalLast(Expr::a("a".into(), "b".into()))).to_string(),
        "! a(b)"
    );

    assert_eq!(
        ECMAScriptStyle(&Command::EvalLast(Expr::l("x".into(), "y".into()))).to_string(),
        "! x => y"
    );
}

#[test]
fn ecmascript_test_eval_head() {
    assert_eq!(
        ECMAScriptStyle(&Command::EvalHead(42, "a".into())).to_string(),
        "!42 a"
    );

    assert_eq!(
        ECMAScriptStyle(&Command::EvalHead(42, Expr::a("a".into(), "b".into()))).to_string(),
        "!42 a(b)"
    );

    assert_eq!(
        ECMAScriptStyle(&Command::EvalHead(42, Expr::l("x".into(), "y".into()))).to_string(),
        "!42 x => y"
    );
}

#[test]
fn ecmascript_test_eval_tail() {
    assert_eq!(
        ECMAScriptStyle(&Command::EvalTail(42, "a".into())).to_string(),
        "!-42 a"
    );

    assert_eq!(
        ECMAScriptStyle(&Command::EvalTail(42, Expr::a("a".into(), "b".into()))).to_string(),
        "!-42 a(b)"
    );

    assert_eq!(
        ECMAScriptStyle(&Command::EvalTail(42, Expr::l("x".into(), "y".into()))).to_string(),
        "!-42 x => y"
    );
}

#[test]
fn ecmascript_test_info() {
    assert_eq!(
        ECMAScriptStyle(&Command::Info("i".into())).to_string(),
        "? i"
    );
}

#[test]
fn ecmascript_test_global() {
    assert_eq!(ECMAScriptStyle(&Command::Global).to_string(), "?");
}

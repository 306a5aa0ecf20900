use tuber::expression::display::ecmascript::ECMAScriptStyle;
use tuber::expression::display::lazy_k::LazyKStyle;
use tuber::expression::display::{tokens, Name, Token};
use tuber::Expr;

#[test]
fn test_to_string() {
    assert_eq!(Expr::a("x".into(), "y".into()).to_string(), "`xy");

    assert_eq!(Expr::l("x".into(), "y".into()).to_string(), "^x.y");

    assert_eq!(
        Expr::l("x".into(), Expr::a("y".into(), "z".into())).to_string(),
        "^x.`yz"
    );
    assert_eq!(
        Expr::l("X".into(), Expr::a("y".into(), "z".into())).to_string(),
        "^X.`yz"
    );

    assert_eq!(Expr::a("x".into(), "Y".into()).to_string(), "`xY");
    assert_eq!(Expr::a("X".into(), "y".into()).to_string(), "`Xy");
    assert_eq!(Expr::a("X".into(), "Y".into()).to_string(), "`X Y");
    assert_eq!(Expr::a("X".into(), ":Y".into()).to_string(), "`X:Y");
    assert_eq!(Expr::a(":X".into(), "Y".into()).to_string(), "`:X Y");
    assert_eq!(Expr::a(":X".into(), ":Y".into()).to_string(), "`:X:Y");
}

#[test]
fn test_tokens() {
    assert_eq!(
        tokens(&"x".into()),
        vec![Token::LowerIdent(Name::Variable("x"))]
    );
    assert_eq!(
        tokens(&"FOO".into()),
        vec![Token::UpperIdent(Name::Variable("FOO"))]
    );
    assert_eq!(
        tokens(&":a".into()),
        vec![Token::LowerIdent(Name::Symbol("a"))]
    );
    assert_eq!(
        tokens(&":BAR".into()),
        vec![Token::UpperIdent(Name::Symbol("BAR"))]
    );
    assert_eq!(
        tokens(&Expr::a("x".into(), "y".into())),
        vec![
            Token::LowerIdent(Name::Variable("y")),
            Token::LowerIdent(Name::Variable("x")),
            Token::Apply
        ]
    );
    assert_eq!(
        tokens(&Expr::l("x".into(), "y".into())),
        vec![
            Token::LowerIdent(Name::Variable("y")),
            Token::Dot,
            Token::LowerIdent(Name::Variable("x")),
            Token::Lambda
        ]
    );
}

#[test]
fn lazy_k_test_display() {
    assert_eq!(LazyKStyle(&"x".into()).to_string(), "x");

    assert_eq!(
        LazyKStyle(&Expr::a("x".into(), "y".into())).to_string(),
        "`xy"
    );

    assert_eq!(
        LazyKStyle(&Expr::a(Expr::a("x".into(), "y".into()), "z".into())).to_string(),
        "``xyz"
    );

    assert_eq!(
        LazyKStyle(&Expr::a("x".into(), Expr::a("y".into(), "z".into()))).to_string(),
        "`x`yz"
    );

    assert_eq!(
        LazyKStyle(&Expr::l("x".into(), "x".into())).to_string(),
        "^x.x"
    );

    assert_eq!(
        LazyKStyle(&Expr::l("x".into(), Expr::l("y".into(), "x".into()))).to_string(),
        "^x.^y.x"
    );
}

#[test]
fn ecmascript_test_display() {
    assert_eq!(ECMAScriptStyle(&"x".into()).to_string(), "x");

    assert_eq!(
        ECMAScriptStyle(&Expr::a("x".into(), "y".into())).to_string(),
        "x(y)"
    );

    assert_eq!(
        ECMAScriptStyle(&Expr::a(Expr::a("x".into(), "y".into()), "z".into())).to_string(),
        "x(y, z)"
    );

    assert_eq!(
        ECMAScriptStyle(&Expr::a("x".into(), Expr::a("y".into(), "z".into()))).to_string(),
        "x(y(z))"
    );

    assert_eq!(
        ECMAScriptStyle(&Expr::l("x".into(), "x".into())).to_string(),
        "x => x"
    );

    assert_eq!(
        ECMAScriptStyle(&Expr::l("x".into(), Expr::l("y".into(), "x".into()))).to_string(),
        "(x, y) => x"
    );
}

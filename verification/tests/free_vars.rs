use tuber::expression::free_vars::free_vars;
use tuber::{Expr, Ident};

#[test]
fn test_free_vars() {
    assert_eq!(Expr::v("a").free_vars().count(), 1);
    assert!(Expr::v("a").free_vars().contains(&Ident::new("a")));

    assert_eq!(Expr::s("a").free_vars().count(), 0);

    assert_eq!(Expr::a(Expr::v("a"), Expr::v("b")).free_vars().count(), 2);
    assert!(Expr::a(Expr::v("a"), Expr::v("b"))
        .free_vars()
        .contains(&Ident::new("a")));
    assert!(Expr::a(Expr::v("a"), Expr::v("b"))
        .free_vars()
        .contains(&Ident::new("b")));

    assert_eq!(
        Expr::l(Ident::new("a"), Expr::v("a")).free_vars().count(),
        0
    );
    assert!(!Expr::l(Ident::new("a"), Expr::v("a"))
        .free_vars()
        .contains(&Ident::new("a")));

    assert_eq!(
        Expr::l(Ident::new("a"), Expr::v("b")).free_vars().count(),
        1
    );
    assert!(Expr::l(Ident::new("a"), Expr::v("b"))
        .free_vars()
        .contains(&Ident::new("b")));
}

#[test]
fn free_vars_test_free_vars() {
    let vars = free_vars(&Expr::Variable("x".into()));
    assert_eq!(vars.count(), 1);
    assert!(vars.contains(&"x".into()));

    assert_eq!(free_vars(&Expr::Symbol("x".into())).count(), 0);

    let both = free_vars(&Expr::a("x".into(), "y".into()));
    assert_eq!(both.count(), 2);
    assert!(both.contains(&"x".into()));
    assert!(both.contains(&"y".into()));

    assert_eq!(free_vars(&Expr::l("x".into(), "x".into())).count(), 0);

    let shadowed = free_vars(&Expr::l("x".into(), "y".into()));
    assert_eq!(shadowed.count(), 1);
    assert!(shadowed.contains(&"y".into()));

    assert_eq!(
        free_vars(&Expr::l(
            "x".into(),
            Expr::l("y".into(), Expr::a("x".into(), "y".into()))
        ))
        .count(),
        0
    );
}

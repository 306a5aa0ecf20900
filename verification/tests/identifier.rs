use tuber::Ident;

#[test]
fn test_new_name() {
    let mut set: Vec<Ident> = Vec::new();

    set.push("x".into());
    set.push("X".into());
    set.push("X0".into());
    set.push("X1".into());
    set.push("X2".into());
    set.push("X3".into());
    set.push("X4".into());
    set.push("X5".into());
    set.push("X7".into());

    assert_eq!(Ident::new("x").new_name(&set), Ident::new("X6"));
    assert_eq!(Ident::new("X").new_name(&set), Ident::new("X6"));
    assert_eq!(Ident::new("y").new_name(&set), Ident::new("Y"));
}

#[test]
fn test_new_name_deterministic() {
    let set: Vec<Ident> = vec!["x".into(), "X".into(), "X0".into()];

    let first = Ident::new("x").new_name(&set);
    let second = Ident::new("x").new_name(&set);

    assert_eq!(first, second);
    assert_eq!(first, Ident::new("X1"));
    for taken in &set {
        assert_ne!(&first, taken);
    }
}

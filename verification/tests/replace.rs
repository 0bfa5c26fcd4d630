use omni::{replace, Replace};

#[test]
fn test_merge_replace() {
    let mut a = Replace::new(3);
    let b = Replace::new(1);

    a.merge(b);

    assert_eq!(a.to_inner(), 1);
}

#[test]
fn replace_overwrites_value() {
    let mut s = String::from("old");
    replace(&mut s, String::from("new"));
    assert_eq!(s, "new");
}

#[test]
fn merge_keeps_last_value() {
    let mut a = Replace::new(String::from("first"));
    a.merge(Replace::new(String::from("second")));
    a.merge(Replace::new(String::from("third")));
    assert_eq!(a.to_inner(), "third");
}

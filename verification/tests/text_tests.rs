use tabby::text::{push_decimal, same_text, split_words};

#[test]
fn split_words_splits_on_unicode_white_space() {
    assert_eq!(split_words("  new  项目A\tx\u{3000}y "), vec!["new", "项目A", "x", "y"]);
    assert!(split_words("   ").is_empty());
    assert!(split_words("").is_empty());
}

#[test]
fn decimal_writes_numbers() {
    let mut s = String::from("项目");
    push_decimal(&mut s, 0);
    assert_eq!(s, "项目0");
    let mut t = String::new();
    push_decimal(&mut t, 1234567890);
    assert_eq!(t, "1234567890");
}

#[test]
fn comparisons() {
    assert!(same_text("help", "help"));
    assert!(!same_text("help", "hel"));
}

use morphic_tui::text::{
    chars_of, compare_chars, contains_chars, i64_to_string, push_text, string_of, text_eq, u64_to_string,
};

#[test]
fn decimal_rendering() {
    assert_eq!(u64_to_string(0), "0");
    assert_eq!(u64_to_string(7), "7");
    assert_eq!(u64_to_string(1234567890), "1234567890");
    assert_eq!(u64_to_string(u64::MAX), u64::MAX.to_string());
    assert_eq!(i64_to_string(-42), "-42");
    assert_eq!(i64_to_string(0), "0");
    assert_eq!(i64_to_string(i64::MIN), i64::MIN.to_string());
    assert_eq!(i64_to_string(i64::MAX), i64::MAX.to_string());
}

#[test]
fn substring_search() {
    let hay = chars_of("alpha project");
    assert!(contains_chars(&hay, &chars_of("proj")));
    assert!(contains_chars(&hay, &chars_of("")));
    assert!(contains_chars(&hay, &chars_of("alpha project")));
    assert!(!contains_chars(&hay, &chars_of("beta")));
    assert!(!contains_chars(&chars_of("ab"), &chars_of("abc")));
}

#[test]
fn text_equality_and_order() {
    assert!(text_eq("状态", "状态"));
    assert!(!text_eq("状态", "状"));
    assert_eq!(compare_chars(&chars_of("B"), &chars_of("a")), -1);
    assert_eq!(compare_chars(&chars_of("ab"), &chars_of("a")), 1);
    assert_eq!(compare_chars(&chars_of("same"), &chars_of("same")), 0);
    assert_eq!(compare_chars(&chars_of(""), &chars_of("x")), -1);
}

#[test]
fn string_editing() {
    let mut e = String::new();
    push_text(&mut e, "项目");
    assert_eq!(e, "项目");
    assert_eq!(string_of(&vec!['x', 'y']), "xy");
}

use murmure::edit::{grapheme_len, retype, Edit};

fn applied(old: &str, e: &Edit) -> String {
    // Erases one user-perceived character per deletion, the way the tests below
    // are written: each of them is one `char` unless noted.
    let kept: Vec<char> = old.chars().collect();
    let mut s: String = kept[..kept.len() - e.delete].iter().collect();
    s.push_str(&e.text);
    s
}

#[test]
fn nothing_is_typed_for_the_same_text() {
    assert!(retype("bonjour", "bonjour", false).is_none());
}

#[test]
fn only_the_changed_end_is_retyped() {
    let e = retype("bonjour le", "bonjour la vie", false).unwrap();
    assert_eq!(e.delete, 1);
    assert_eq!(e.text, "a vie");
    assert_eq!(e.target, "bonjour la vie");
    assert!(!e.settle);
    assert_eq!(applied("bonjour le", &e), "bonjour la vie");
}

#[test]
fn an_empty_text_erases_everything() {
    let e = retype("été", "", true).unwrap();
    assert_eq!(e.delete, 3);
    assert_eq!(e.text, "");
    assert!(e.settle);
}

#[test]
fn combined_characters_are_erased_as_one() {
    // "e" with a combining accent is one character to the user.
    let e = retype("ae\u{301}", "ab", false).unwrap();
    assert_eq!(e.delete, 1);
    assert_eq!(e.text, "b");
    // A flag is made of two characters.
    let e = retype("x\u{1f1eb}\u{1f1f7}", "x", false).unwrap();
    assert_eq!(e.delete, 1);
    assert_eq!(e.text, "");
}

#[test]
fn a_character_that_is_extended_is_retyped() {
    let e = retype("e", "e\u{301}", false).unwrap();
    assert_eq!(e.delete, 1);
    assert_eq!(e.text, "e\u{301}");
}

#[test]
fn grapheme_clusters_are_counted() {
    assert_eq!(grapheme_len(""), 0);
    assert_eq!(grapheme_len("e\u{301}a\r\n"), 3);
}

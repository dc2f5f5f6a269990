use animus_subject_sqlite::text::{
    chars_of, contains_text, has_prefix, same_text, text_before, trim_text, white_space,
};

#[test]
fn white_space_is_that_of_the_standard_library() {
    for c in '\u{0}'..=char::MAX {
        assert_eq!(white_space(c), c.is_whitespace(), "{:?}", c);
    }
}

#[test]
fn trimming_is_that_of_the_standard_library() {
    for text in ["", " ", "a", " a ", "\t a b\u{85}\n", "\u{2003}x\u{2028}", "a\u{200b}"] {
        assert_eq!(trim_text(text), text.trim());
    }
}

#[test]
fn order_is_that_of_the_bytes() {
    let list = ["", "a", "ab", "b", "\u{e9}", "\u{ffff}", "\u{10000}", "Z", "a\u{0}"];
    for a in list {
        for b in list {
            assert_eq!(text_before(a, b), a.as_bytes() < b.as_bytes());
            assert_eq!(same_text(a, b), a == b);
            assert_eq!(has_prefix(a, b), a.starts_with(b));
        }
    }
}

#[test]
fn lists_are_searched() {
    let list = vec!["a".to_string(), "b".to_string()];
    assert!(contains_text(&list, "b"));
    assert!(!contains_text(&list, "B"));
    assert!(!contains_text(&vec![], ""));
    assert_eq!(chars_of("aé"), vec!['a', 'é']);
}

use karakeep_sync::http::usable_page;
use karakeep_sync::text::{
    concat3, contains_char, is_whitespace, split_str, split_trimmed, trim_str,
};

#[test]
fn test_readwise_categories() {
    let categories = "articles,books,tweets";
    let parsed = split_trimmed(categories, ',');
    assert_eq!(parsed, vec!["articles", "books", "tweets"]);
}

#[test]
fn trim_removes_unicode_whitespace_at_both_ends() {
    assert_eq!(trim_str("  a b\t\n"), "a b");
    assert_eq!(trim_str("\u{3000}x\u{00A0}"), "x");
    assert_eq!(trim_str("   "), "");
    assert_eq!(trim_str(""), "");
    assert_eq!(trim_str("x"), "x");
}

#[test]
fn trim_agrees_with_std() {
    for s in ["", " ", " a ", "\u{2028}b\u{85}", "a\u{200B}", "\u{1680}\u{205F}c d\u{202F}"] {
        assert_eq!(trim_str(s), s.trim());
    }
}

#[test]
fn whitespace_agrees_with_std() {
    for u in 0u32..0x3100 {
        if let Some(c) = char::from_u32(u) {
            assert_eq!(is_whitespace(c), c.is_whitespace(), "{:x}", u);
        }
    }
}

#[test]
fn split_keeps_empty_pieces() {
    assert_eq!(split_str("a,,b,", ','), vec!["a", "", "b", ""]);
    assert_eq!(split_str("", ','), vec![""]);
    assert_eq!(split_str("abc", ','), vec!["abc"]);
}

#[test]
fn split_trimmed_trims_each_piece() {
    assert_eq!(split_trimmed(" Articles , books ,tweets ", ','), vec!["Articles", "books", "tweets"]);
}

#[test]
fn contains_and_concat() {
    assert!(contains_char("a?b", '?'));
    assert!(!contains_char("ab", '?'));
    assert_eq!(concat3("a", "-", "b"), "a-b");
}

#[test]
fn usable_page_needs_success_and_body() {
    assert_eq!(usable_page(Some((200u16, Some(7)))), Some(7));
    assert_eq!(usable_page(Some((299u16, Some(7)))), Some(7));
    assert_eq!(usable_page(Some((404u16, Some(7)))), None);
    assert_eq!(usable_page::<i32>(Some((200u16, None))), None);
    assert_eq!(usable_page::<i32>(None), None);
}

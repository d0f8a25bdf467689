use gh_pr_tui::text::{chars_of, is_control, is_whitespace, join, str_eq, trim};

#[test]
fn whitespace_matches_std() {
    for u in 0u32..0x3100 {
        if let Some(c) = char::from_u32(u) {
            assert_eq!(is_whitespace(c), c.is_whitespace(), "{u:x}");
            assert_eq!(is_control(c), c.is_control(), "{u:x}");
        }
    }
}

#[test]
fn trim_matches_std() {
    for s in ["", "  ", " a b ", "\u{2003}x\u{205f}", "abc"] {
        let t: String = trim(&chars_of(s)).into_iter().collect();
        assert_eq!(t, s.trim());
    }
}

#[test]
fn joining() {
    let v: Vec<String> = vec!["a".into(), "b".into()];
    assert_eq!(join(&v, "; "), "a; b");
    assert_eq!(join(&vec![], "; "), "");
}

#[test]
fn equality() {
    assert!(str_eq("abc", "abc"));
    assert!(!str_eq("abc", "abd"));
    assert!(!str_eq("ab", "abc"));
}

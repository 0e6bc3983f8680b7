use rust_prec::text::{contains, ends_with, replace_all, same_text, starts_with, trim};

#[test]
fn trim_removes_unicode_white_space() {
    assert_eq!(trim("  a b \t\n"), "a b");
    assert_eq!(trim("\u{3000}x\u{2003}"), "x");
    assert_eq!(trim("   "), "");
    for s in ["", " a", "b\u{85}", "\u{a0}c d\u{205f}", "\u{200b}z"] {
        assert_eq!(trim(s), s.trim());
    }
}

#[test]
fn containment() {
    assert!(contains("hello world", "lo w"));
    assert!(contains("abc", ""));
    assert!(!contains("abc", "abcd"));
    assert!(starts_with("2023-11-05_x.dem", "2023-11-05_x"));
    assert!(!starts_with("2023", "2023-"));
    assert!(ends_with("shot.tga", ".tga"));
    assert!(!ends_with("shot.tga.png", ".tga"));
    assert!(same_text("tf", "tf"));
    assert!(!same_text("tf", "tf2"));
}

#[test]
fn replace_all_as_str_replace() {
    let cases = [("abc", "", "X"), ("", "", "X"), ("aaa", "aa", "b"), ("a-b-c", "-", "+-"), ("xyz", "q", "r"), ("", "a", "b"), ("abab", "ab", "")];
    for (s, p, q) in cases {
        let c = |t: &str| t.chars().collect::<Vec<char>>();
        let out: String = replace_all(&c(s), &c(p), &c(q)).into_iter().collect();
        assert_eq!(out, s.replace(p, q), "{:?}", (s, p, q));
    }
}

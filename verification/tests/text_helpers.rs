use coding_env::text::{
    chars_of, concat_str, dir_name_of, first_word_of, is_whitespace, push_decimal, replace_all_char,
    str_eq, to_lowercase, trim_str,
};

#[test]
fn whitespace_matches_std() {
    for u in 0u32..0x3100 {
        if let Some(c) = char::from_u32(u) {
            assert_eq!(is_whitespace(c), c.is_whitespace(), "char {:x}", u);
        }
    }
}

#[test]
fn trim_matches_std() {
    for s in ["", "   ", " a ", "\u{2003}x y\u{205f}", "a", "\n\tb c\r\n"] {
        assert_eq!(trim_str(s), s.trim());
    }
}

#[test]
fn first_word_matches_split_whitespace() {
    for s in ["", "   ", " a b", "word", "\u{3000}ü z"] {
        assert_eq!(first_word_of(s), s.split_whitespace().next().map(|w| w.to_string()));
    }
}

#[test]
fn directory_name_of_paths() {
    for (s, want) in [("", ""), ("/", ""), ("///", ""), ("a/b", "b"), ("a/b/", "b"), ("a/b//", "b"), ("abc", "abc"), ("/x/y/zz", "zz")] {
        assert_eq!(dir_name_of(s), want, "path {:?}", s);
    }
}

#[test]
fn small_helpers() {
    assert_eq!(chars_of("héllo"), vec!['h', 'é', 'l', 'l', 'o']);
    assert_eq!(concat_str("ab", "cd"), "abcd");
    assert_eq!(replace_all_char("a b  c", ' ', '-'), "a-b--c");
    assert!(str_eq("x", "x"));
    assert!(!str_eq("x", "y"));
    assert_eq!(to_lowercase("ÀB ΣΑΣ"), "àb σας");
    let mut s = String::from("n=");
    push_decimal(&mut s, 0);
    push_decimal(&mut s, 1907);
    assert_eq!(s, "n=01907");
    let mut t = String::new();
    push_decimal(&mut t, u64::MAX);
    assert_eq!(t, u64::MAX.to_string());
}

use machina::text::{chars_of, dec_chars, pad_left, pad_right, trim, trim_start, lex_le_exec, str_eq};
use machina::paths::name_of;

fn s(v: Vec<char>) -> String {
    v.into_iter().collect()
}

#[test]
fn trim_matches_std() {
    for input in ["  hello  ", "\t\nx y\u{3000}", "", "   ", "abc", "\u{a0}a\u{2028}"] {
        let v = chars_of(input);
        assert_eq!(s(trim(&v)), input.trim());
        assert_eq!(s(trim_start(&v)), input.trim_start());
    }
}

#[test]
fn decimal_numerals() {
    assert_eq!(s(dec_chars(0)), "0");
    assert_eq!(s(dec_chars(7)), "7");
    assert_eq!(s(dec_chars(1234567890)), "1234567890");
    assert_eq!(s(dec_chars(u64::MAX)), u64::MAX.to_string());
}

#[test]
fn padding_counts_characters() {
    assert_eq!(pad_right("ab", 5), format!("{:<5}", "ab"));
    assert_eq!(pad_left("ab", 5), format!("{:>5}", "ab"));
    assert_eq!(pad_left("é…", 4), format!("{:>4}", "é…"));
    assert_eq!(pad_right("toolong", 3), "toolong");
}

#[test]
fn lexicographic_order_matches_string_order() {
    let words = ["", "a", "ab", "b", "B", "é", "a b", "zz"];
    for a in words {
        for b in words {
            let va = chars_of(a);
            let vb = chars_of(b);
            assert_eq!(lex_le_exec(&va, &vb), a <= b, "{a:?} <= {b:?}");
        }
    }
}

#[test]
fn string_equality() {
    assert!(str_eq("abc", "abc"));
    assert!(!str_eq("abc", "abd"));
    assert!(!str_eq("ab", "abc"));
}

#[test]
fn names_of_paths() {
    assert_eq!(name_of("/home/u/notes.txt"), "notes.txt");
    assert_eq!(name_of("relative/dir"), "dir");
    assert_eq!(name_of("/"), "?");
    assert_eq!(name_of("a/.."), "?");
}

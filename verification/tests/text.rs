use deno_args::error::CliError;
use deno_args::lists::{add_all_missing, add_missing, distinct_texts};
use deno_args::path::{join, parent};
use deno_args::text::{
    contains_part, contains_text, join_texts, parse_i64, same_text, split_text,
    starts_with_text, trim_end_char, trim_end_text, trim_text,
};

fn texts(items: &[&str]) -> Vec<String> {
    items.iter().map(|item| item.to_string()).collect()
}

#[test]
fn joining_paths() {
    for (base, rel) in [
        ("/a", "b"),
        ("/a/", "b"),
        ("/a", "/b"),
        ("", "b"),
        ("/", "b/c"),
        ("a", ""),
        ("/a", "../b"),
    ] {
        let expected = std::path::Path::new(base).join(rel);
        assert_eq!(join(base, rel), expected.to_str().unwrap());
    }
}

#[test]
fn parents_of_paths() {
    for path in [
        "/a/b", "/a/b/", "/a//b", "/a/./b", "/a/b/.", "/a", "/", "", "a", "a/b", "./a", "..", "/..",
        "a/.", "//a", ".",
    ] {
        let expected = std::path::Path::new(path).parent();
        assert_eq!(parent(path).as_deref(), expected.map(|dir| dir.to_str().unwrap()), "{}", path);
    }
}

#[test]
fn lists_without_repetition() {
    let mut list = texts(&["a", "b"]);
    add_missing(&mut list, "b");
    add_missing(&mut list, "c");
    assert_eq!(list, texts(&["a", "b", "c"]));
    add_all_missing(&mut list, &texts(&["c", "d", "d"]));
    assert_eq!(list, texts(&["a", "b", "c", "d"]));
    assert_eq!(distinct_texts(&texts(&["b", "a", "b"])), texts(&["b", "a"]));
}

#[test]
fn texts_and_parts() {
    assert!(same_text("a\u{e9}", "a\u{e9}"));
    assert!(!same_text("a", "ab"));
    assert!(starts_with_text("abc", "ab"));
    assert!(!starts_with_text("ab", "abc"));
    assert!(contains_part("abcd", "bc"));
    assert!(contains_part("abcd", ""));
    assert!(!contains_part("abcd", "ca"));
    assert!(contains_text(&texts(&["a"]), "a"));
    assert!(!contains_text(&texts(&["a"]), "b"));
    assert_eq!(split_text("a,,b", ','), texts(&["a", "", "b"]));
    assert_eq!(split_text("", ','), texts(&[""]));
    assert_eq!(join_texts(&texts(&["a", "b"]), ", "), "a, b");
    assert_eq!(join_texts(&Vec::new(), ", "), "");
}

#[test]
fn trimming() {
    assert_eq!(trim_end_char("a//", '/'), "a");
    assert_eq!(trim_end_char("//", '/'), "");
    for text in [" a b\t\n", "\u{a0}a\u{3000}", "", " \n", "a"] {
        assert_eq!(trim_text(text), text.trim());
        assert_eq!(trim_end_text(text), text.trim_end());
    }
}

#[test]
fn integers() {
    for text in [
        "0", "-0", "+7", "-", "+", "", "1_0", " 1", "9223372036854775807", "9223372036854775808",
        "-9223372036854775808", "-9223372036854775809", "00012", "1a",
    ] {
        assert_eq!(parse_i64(text), text.parse::<i64>().ok(), "{}", text);
    }
}

#[test]
fn errors() {
    assert_eq!(CliError::new("a").to_text(), "a");
    assert_eq!(CliError::with_cause("a", "b").to_text(), "a: b");
}

use refind_switcher::command::Platform;
use refind_switcher::number::{decimal, parse, signed_decimal};
use refind_switcher::paths;
use refind_switcher::text::{
    concat3, contains, ends_with, join, lines, split, split_whitespace, starts_with, strip_prefix,
    strip_suffix, trim,
};
use refind_switcher::unix_path;

#[test]
fn texts_are_split_and_joined() {
    assert_eq!(split("a:b::c", ':'), vec!["a", "b", "", "c"]);
    assert_eq!(split("", ':'), vec![""]);
    assert_eq!(join(&split("a:b::c", ':'), ":"), "a:b::c");
    assert_eq!(join(&Vec::new(), ":"), "");
    assert_eq!(split_whitespace(" a\tb\u{3000}c \n"), vec!["a", "b", "c"]);
    assert_eq!(lines("a\r\nb\n\nc"), vec!["a", "b", "", "c"]);
    assert_eq!(lines("a\n"), vec!["a"]);
    assert_eq!(lines("a\r"), vec!["a\r"]);
    assert!(lines("").is_empty());
}

#[test]
fn texts_are_compared_and_cut() {
    assert_eq!(trim(" \u{a0}é x\n"), "é x");
    assert_eq!(trim(" \t"), "");
    assert!(starts_with("setting-x", "setting-"));
    assert!(!starts_with("set", "setting-"));
    assert!(ends_with("x:true", ":true"));
    assert!(contains("aab", "ab"));
    assert!(contains("x", ""));
    assert!(!contains("a", "ab"));
    assert_eq!(strip_prefix("abc", "ab"), Some("c".to_string()));
    assert_eq!(strip_prefix("abc", "b"), None);
    assert_eq!(strip_suffix("abc", "bc"), Some("a".to_string()));
    assert_eq!(strip_suffix("abc", "b"), None);
    assert_eq!(concat3("a", "é", "c"), "aéc");
}

#[test]
fn numbers_are_written_and_read() {
    assert_eq!(decimal(0), "0");
    assert_eq!(decimal(u128::MAX), "340282366920938463463374607431768211455");
    assert_eq!(signed_decimal(-42), "-42");
    assert_eq!(signed_decimal(i64::MIN), "-9223372036854775808");
    assert_eq!(parse("1000", 10, u32::MAX), Some(1000));
    assert_eq!(parse("+7", 10, u32::MAX), Some(7));
    assert_eq!(parse("4294967296", 10, u32::MAX), None);
    assert_eq!(parse("", 10, u32::MAX), None);
    assert_eq!(parse("+", 10, u32::MAX), None);
    assert_eq!(parse("-1", 10, u32::MAX), None);
    assert_eq!(parse("377", 8, 255), Some(255));
    assert_eq!(parse("400", 8, 255), None);
    assert_eq!(parse("8", 8, 255), None);
    assert_eq!(parse("0", 0, 255), None);
    assert_eq!(parse("12", 16, 255), Some(18));
    assert_eq!(parse("99", u32::MAX, u32::MAX), None);
}

#[test]
fn paths_are_made_of_components() {
    assert_eq!(
        unix_path::split_path("/a//b/./c/"),
        vec!["/", "a", "b", "c"]
    );
    assert_eq!(unix_path::split_path("./a"), vec![".", "a"]);
    assert!(unix_path::split_path("").is_empty());
    assert!(unix_path::starts_with("/a/b", "/a"));
    assert!(!unix_path::starts_with("/ab", "/a"));
    assert!(!unix_path::starts_with("a", "/a"));
    assert_eq!(unix_path::file_name("/a/b/"), Some("b".to_string()));
    assert_eq!(unix_path::file_name("/a/.."), None);
    assert_eq!(unix_path::file_name("/"), None);
    assert_eq!(unix_path::join("/a", "b"), "/a/b");
    assert_eq!(unix_path::join("/", "b"), "/b");
    assert_eq!(unix_path::join("", "b"), "b");
    assert_eq!(
        unix_path::build_path(&unix_path::split_path("/a/b")),
        "/a/b"
    );
}

#[test]
fn names_are_joined_as_the_platform_does() {
    assert_eq!(paths::join(Platform::Linux, "/a", "b"), "/a/b");
    assert_eq!(paths::join(Platform::MacOs, "/a/", "b"), "/a/b");
    assert_eq!(paths::join(Platform::Windows, "C:\\a", "b"), "C:\\a\\b");
    assert_eq!(paths::join(Platform::Windows, "C:\\", "b"), "C:\\b");
    assert_eq!(paths::join(Platform::Windows, "C:/", "b"), "C:/b");
    assert_eq!(paths::join(Platform::Windows, "C:", "b"), "C:b");
    assert_eq!(paths::join(Platform::Windows, "", "b"), "b");
    assert_eq!(paths::join(Platform::Windows, "a", "b"), "a\\b");
}

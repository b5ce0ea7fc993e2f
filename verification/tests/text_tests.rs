use ai_terminal::sysinfo::gather_info;
use ai_terminal::text::{
    bool_to_string, contains_sub, find_sub, i32_to_string, split_lines, starts_with_sub,
    to_lowercase_str, trim_str, u32_to_string,
};

#[test]
fn trim_removes_surrounding_whitespace_only() {
    assert_eq!(trim_str("  a b  "), "a b");
    assert_eq!(trim_str("\t\nx\r\n"), "x");
    assert_eq!(trim_str("none"), "none");
    assert_eq!(trim_str("   "), "");
    assert_eq!(trim_str(""), "");
}

#[test]
fn lowercasing_is_ascii_only() {
    assert_eq!(to_lowercase_str("AbC-09"), "abc-09");
    assert_eq!(to_lowercase_str(""), "");
}

#[test]
fn substring_search_finds_the_first_occurrence() {
    assert_eq!(find_sub("abcabc", "bc"), Some(1));
    assert_eq!(find_sub("abc", "zz"), None);
    assert_eq!(find_sub("abc", ""), Some(0));
    assert!(contains_sub("hello world", "lo wo"));
    assert!(!contains_sub("hello", "world"));
}

#[test]
fn prefix_test_is_exact() {
    assert!(starts_with_sub("cd /tmp", "cd"));
    assert!(!starts_with_sub("echo cd", "cd"));
}

#[test]
fn lines_split_on_newlines_and_drop_carriage_returns() {
    assert_eq!(split_lines("a\nb\nc"), vec!["a", "b", "c"]);
    assert_eq!(split_lines("a\r\nb\r\n"), vec!["a", "b"]);
    assert_eq!(split_lines(""), Vec::<String>::new());
    assert_eq!(split_lines("\n"), vec![""]);
    assert_eq!(split_lines("tail"), vec!["tail"]);
}

#[test]
fn decimal_rendering_is_exact() {
    assert_eq!(u32_to_string(0), "0");
    assert_eq!(u32_to_string(12345), "12345");
    assert_eq!(i32_to_string(-1), "-1");
    assert_eq!(i32_to_string(0), "0");
    assert_eq!(i32_to_string(i32::MIN), "-2147483648");
    assert_eq!(i32_to_string(i32::MAX), "2147483647");
    assert_eq!(bool_to_string(true), "true");
    assert_eq!(bool_to_string(false), "false");
}

#[test]
fn session_header_renders_every_field() {
    let info = gather_info("linux", "me", "/work", true, false, true);
    assert_eq!(
        info,
        "OS: linux\n        User: me\n        Display available: true\n        \
         Initial working directory: /work\n        Display server:\n- Wayland: false\n- X11: true,\n        "
    );
}

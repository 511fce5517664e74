use kogiasima::text::{
    integer_text, join, joint, natural_text, parent, same_text, split_lines, split_once, trim,
};

fn strings(list: &[&str]) -> Vec<String> {
    list.iter().map(|s| s.to_string()).collect()
}

#[test]
fn lines_are_split_into_words() {
    let lines = strings(&["/bin/bash -c", "  echo\thello \n", "", "   "]);
    assert_eq!(split_lines(&lines), strings(&["/bin/bash", "-c", "echo", "hello"]));
}

#[test]
fn words_are_split_at_every_white_space() {
    let lines = strings(&["a\u{a0}b\u{2003}c\u{3000}d\u{85}e\u{200b}f"]);
    assert_eq!(split_lines(&lines), strings(&["a", "b", "c", "d", "e\u{200b}f"]));
}

#[test]
fn quoted_parts_are_kept_together() {
    let words = |line: &str| split_lines(&strings(&[line]));
    assert_eq!(
        words("/bin/bash -c 'echo hello'"),
        strings(&["/bin/bash", "-c", "echo hello"])
    );
    assert_eq!(words("a \"b  c\" d"), strings(&["a", "b  c", "d"]));
    assert_eq!(words("\"it's\" '\"x\"'"), strings(&["it's", "\"x\""]));
    assert_eq!(words("x'y z'w"), strings(&["xy zw"]));
    assert_eq!(words("''"), strings(&[""]));
}

#[test]
fn a_mark_that_is_not_closed_stands_for_itself() {
    let words = |line: &str| split_lines(&strings(&[line]));
    assert_eq!(words("echo don't stop"), strings(&["echo", "don't", "stop"]));
    assert_eq!(words("a \"b c"), strings(&["a", "\"b", "c"]));
    assert_eq!(words("'a' 'b"), strings(&["a", "'b"]));
    assert_eq!(split_lines(&strings(&["'a", "b'"])), strings(&["'a", "b'"]));
}

#[test]
fn files_lie_in_directories() {
    for (path, dir) in [
        ("/a/b/config.json", "/a/b"),
        ("/config.json", "/"),
        ("a/config.json", "a"),
        ("config.json", ""),
        ("", ""),
        ("/", "/"),
    ] {
        assert_eq!(parent(path), dir);
    }
}

#[test]
fn no_words_come_of_no_lines() {
    assert_eq!(split_lines(&Vec::new()), Vec::<String>::new());
}

#[test]
fn texts_are_trimmed() {
    assert_eq!(trim("1\n"), "1");
    assert_eq!(trim("\t 1 1 \u{2009}"), "1 1");
    assert_eq!(trim("  \n"), "");
    assert_eq!(trim(""), "");
}

#[test]
fn variables_are_split_at_the_first_equals_sign() {
    assert_eq!(split_once("A=1"), Some(("A".to_string(), "1".to_string())));
    assert_eq!(split_once("A=b=c"), Some(("A".to_string(), "b=c".to_string())));
    assert_eq!(split_once("=x"), Some((String::new(), "x".to_string())));
    assert_eq!(split_once("A="), Some(("A".to_string(), String::new())));
    assert_eq!(split_once("A"), None);
    assert_eq!(split_once(""), None);
}

#[test]
fn numbers_are_written_in_decimal() {
    assert_eq!(natural_text(0), "0");
    assert_eq!(natural_text(104_857_600), "104857600");
    assert_eq!(natural_text(u64::MAX), "18446744073709551615");
    assert_eq!(integer_text(-1), "-1");
    assert_eq!(integer_text(20), "20");
    assert_eq!(integer_text(i64::MIN), "-9223372036854775808");
    assert_eq!(integer_text(i64::MAX), "9223372036854775807");
}

#[test]
fn paths_are_joined() {
    for (base, path) in [
        ("/bundle", "rootfs"),
        ("/bundle/", "rootfs"),
        ("/bundle", "/rootfs"),
        ("", "rootfs"),
        ("/", "x"),
        ("a/b", ""),
        ("", ""),
        ("dir", "old_root/"),
    ] {
        let expected = std::path::Path::new(base).join(path);
        assert_eq!(join(base, path), expected.to_str().unwrap());
    }
}

#[test]
fn texts_are_put_together_and_told_apart() {
    assert_eq!(joint("Fork", " failed"), "Fork failed");
    assert!(same_text("uts", "uts"));
    assert!(!same_text("uts", "UTS"));
}

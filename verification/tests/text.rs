use opendp::text::{chars_of, is_whitespace, split, split_lines, split_once, starts_with, trim};

#[test]
fn test_trim() {
    assert_eq!(trim("  ant \t"), "ant");
    assert_eq!(trim("bat"), "bat");
    assert_eq!(trim("   "), "");
    assert_eq!(trim(""), "");
}

#[test]
fn test_is_whitespace() {
    assert!(is_whitespace(' '));
    assert!(is_whitespace('\n'));
    assert!(is_whitespace('\t'));
    assert!(!is_whitespace('a'));
}

#[test]
fn test_split_lines() {
    assert_eq!(split_lines("ant\nbat\ncat\n"), vec!["ant", "bat", "cat"]);
    assert_eq!(split_lines("ant\r\nbat"), vec!["ant", "bat"]);
    assert_eq!(split_lines("\n\nx"), vec!["", "", "x"]);
    assert!(split_lines("").is_empty());
}

#[test]
fn test_split() {
    assert_eq!(split("a, b, c", ","), vec!["a", " b", " c"]);
    assert_eq!(split("a--b----c", "--"), vec!["a", "b", "", "c"]);
    assert_eq!(split("abc", ","), vec!["abc"]);
    assert_eq!(split("", ","), vec![""]);
    assert_eq!(split("ab", ""), "ab".split("").collect::<Vec<&str>>());
}

#[test]
fn test_split_matches_std() {
    for (s, sep) in [("x,y,,z,", ","), ("aaa", "aa"), ("one two", " "), ("no", "yes")] {
        assert_eq!(split(s, sep), s.split(sep).collect::<Vec<&str>>());
    }
}

#[test]
fn test_split_once() {
    assert_eq!(split_once("* `a` - the value", " - "), ("* `a`", Some("the value")));
    assert_eq!(split_once("a - b - c", " - "), ("a", Some("b - c")));
    assert_eq!(split_once("plain", " - "), ("plain", None));
}

#[test]
fn test_starts_with() {
    assert!(starts_with("* `x`", "* `"));
    assert!(!starts_with("x", "* `"));
    assert!(starts_with("", ""));
}

#[test]
fn test_chars_of() {
    assert_eq!(chars_of("héllo"), vec!['h', 'é', 'l', 'l', 'o']);
}

use penswitcher::node_path::{child_id, id_depth, node_path_steps, parent_id, root_id, shortcut_id_of};
use penswitcher::text::{
    chars_of, eq_ignore_ascii_case, i64_to_decimal, is_blank, parse_usize, split_chars, string_of,
    trim, u128_to_decimal, usize_to_decimal,
};

fn chars(s: &str) -> Vec<char> {
    s.chars().collect()
}

#[test]
fn trim_removes_unicode_whitespace_at_both_ends() {
    assert_eq!(trim("  Ctrl + A \t"), "Ctrl + A");
    assert_eq!(trim("\u{3000}x\u{A0}"), "x");
    assert_eq!(trim(" a b "), "a b");
    assert_eq!(trim(""), "");
    assert_eq!(trim(" \n "), "");
}

#[test]
fn blank_means_only_whitespace() {
    assert!(is_blank(""));
    assert!(is_blank(" \r\n\u{2003}"));
    assert!(!is_blank(" x "));
}

#[test]
fn chars_and_strings_round_trip() {
    let v = chars_of("héllo");
    assert_eq!(v, vec!['h', 'é', 'l', 'l', 'o']);
    assert_eq!(string_of(&v), "héllo");
}

#[test]
fn split_keeps_empty_pieces() {
    let parts = split_chars(&chars("a//b/"), '/');
    assert_eq!(parts, vec![chars("a"), vec![], chars("b"), vec![]]);
    assert_eq!(split_chars(&vec![], '/'), vec![Vec::<char>::new()]);
}

#[test]
fn decimal_rendering() {
    assert_eq!(usize_to_decimal(0), "0");
    assert_eq!(usize_to_decimal(1234), "1234");
    assert_eq!(u128_to_decimal(u128::MAX), u128::MAX.to_string());
    assert_eq!(i64_to_decimal(-42), "-42");
    assert_eq!(i64_to_decimal(i64::MIN), "-9223372036854775808");
    assert_eq!(i64_to_decimal(7), "7");
}

#[test]
fn usize_parsing_follows_str_parse() {
    for text in ["42", "+7", "007", "0", "+", "", "-1", "1a", " 1", "18446744073709551616", "99999999999999999999999"] {
        assert_eq!(parse_usize(&chars(text)), text.parse::<usize>().ok(), "{text}");
    }
    assert_eq!(parse_usize(&chars(&usize::MAX.to_string())), Some(usize::MAX));
}

#[test]
fn ascii_case_insensitive_equality() {
    assert!(eq_ignore_ascii_case("Ctrl+A", "ctrl+a"));
    assert!(!eq_ignore_ascii_case("Ctrl+A", "Ctrl+B"));
    assert!(!eq_ignore_ascii_case("É", "é"));
    assert!(!eq_ignore_ascii_case("ab", "abc"));
}

#[test]
fn node_depth_counts_slashes() {
    assert_eq!(id_depth("root"), 0);
    assert_eq!(id_depth("root/0/3"), 2);
}

#[test]
fn parent_is_everything_before_the_last_slash() {
    assert_eq!(parent_id("root/0/3"), Some("root/0".to_string()));
    assert_eq!(parent_id("root/4"), Some("root".to_string()));
    assert_eq!(parent_id("root"), None);
}

#[test]
fn child_ids_append_the_index() {
    assert_eq!(root_id(), "root");
    assert_eq!(child_id("root/1", 12), "root/1/12");
}

#[test]
fn shortcut_ids_join_window_and_node() {
    assert_eq!(shortcut_id_of(-5, "root/1"), "-5:root/1");
    assert_eq!(shortcut_id_of(65794, "root"), "65794:root");
}

#[test]
fn node_steps_of_ids() {
    assert_eq!(node_path_steps("root"), vec![]);
    assert_eq!(node_path_steps("root/1/2"), vec![Some(1), Some(2)]);
    assert_eq!(node_path_steps("root/root/3"), vec![Some(3)]);
    assert_eq!(node_path_steps("root/x/2"), vec![None, Some(2)]);
    assert_eq!(node_path_steps("root//4/"), vec![Some(4)]);
    assert_eq!(node_path_steps("3/4"), vec![Some(3), Some(4)]);
    assert_eq!(node_path_steps("root/"), vec![]);
}

#[test]
fn child_id_resolves_through_parent_then_index() {
    let parent = child_id(&child_id(&root_id(), 3), 0);
    let child = child_id(&parent, 17);
    let mut expected = node_path_steps(&parent);
    expected.push(Some(17));
    assert_eq!(node_path_steps(&child), expected);
    assert_eq!(id_depth(&child), id_depth(&parent) + 1);
    assert_eq!(parent_id(&child), Some(parent));
}

use noir::paths::{join_str, path_components, path_eq, path_file_name, path_parent, path_starts_with, path_strip_prefix};
use noir::text::{compare_chars, concat_str, decimal_string, first_line, trim_string};
use noir::ui::file_tab_widths;

fn v(s: &str) -> Vec<char> {
    s.chars().collect()
}

#[test]
fn joins_and_strips_paths() {
    assert_eq!(join_str("/w", "src/a.rs"), "/w/src/a.rs");
    assert_eq!(join_str("/w/", "a"), "/w/a");
    assert_eq!(path_strip_prefix(&v("/w/src/a.rs"), &v("/w")), Some(v("src/a.rs")));
    assert_eq!(path_strip_prefix(&v("/w"), &v("/w")), Some(v("")));
    assert_eq!(path_strip_prefix(&v("/wx/a"), &v("/w")), None);
    assert!(path_starts_with(&v("/w/a"), &v("/w")));
    assert!(!path_starts_with(&v("/wa"), &v("/w")));
}

#[test]
fn parents_and_names() {
    assert_eq!(path_parent(&v("/w/src/a.rs")), Some(v("/w/src")));
    assert_eq!(path_parent(&v("/a")), Some(v("/")));
    assert_eq!(path_parent(&v("/")), None);
    assert_eq!(path_file_name(&v("/w/src/a.rs")), Some("a.rs".to_string()));
    assert_eq!(path_file_name(&v("/w/..")), None);
}

#[test]
fn text_helpers() {
    assert_eq!(trim_string("  a b \n"), "a b");
    assert_eq!(concat_str("ab", "cd"), "abcd");
    assert_eq!(decimal_string(0), "0");
    assert_eq!(decimal_string(1205), "1205");
    assert_eq!(first_line("one\r\ntwo"), Some("one".to_string()));
    assert_eq!(first_line(""), None);
    assert_eq!(compare_chars(&v("a"), &v("b")), -1);
    assert_eq!(compare_chars(&v("b"), &v("b")), 0);
    assert_eq!(compare_chars(&v("ba"), &v("b")), 1);
}

#[test]
fn display_widths() {
    // a tab label is the title with two spaces on each side
    let titles = vec!["abc".to_string(), "日本".to_string(), String::new()];
    assert_eq!(file_tab_widths(&titles), vec![7, 8, 4]);
}

#[test]
fn paths_compare_by_components() {
    let comps = |s: &str| path_components(&v(s)).into_iter().map(|c| c.into_iter().collect::<String>()).collect::<Vec<_>>();
    assert_eq!(comps("/w/a//b.rs/"), vec!["w", "a", "b.rs"]);
    assert_eq!(comps("./a/./b"), vec![".", "a", "b"]);
    assert_eq!(comps("a/."), vec!["a"]);
    assert!(path_eq(&v("/w/a//b.rs"), &v("/w/a/b.rs")));
    assert!(path_eq(&v("/w/./a/"), &v("/w/a")));
    assert!(!path_eq(&v("/w/a"), &v("w/a")));
    assert!(!path_eq(&v("/w/a"), &v("/w/A")));
    assert_eq!(path_file_name(&v("/w/src/")), Some("src".to_string()));
    assert_eq!(path_file_name(&v("/w/.")), Some("w".to_string()));
    assert_eq!(path_file_name(&v(".")), None);
    assert_eq!(path_file_name(&v("/")), None);
}

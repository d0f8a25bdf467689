use gh_pr_tui::config::{str_leq, AppConfig};

fn cfg(repos: &[&str]) -> AppConfig {
    AppConfig { repos: repos.iter().map(|s| s.to_string()).collect() }
}

#[test]
fn default_config_is_empty() {
    let c = AppConfig::default();
    assert!(c.repos.is_empty());
}

#[test]
fn add_normalizes_and_sorts() {
    let mut c = AppConfig::default();
    assert_eq!(c.normalize_and_add("zeta/z"), Ok(true));
    assert_eq!(c.normalize_and_add("alpha/a"), Ok(true));
    assert_eq!(c.normalize_and_add("github.com/mid/m"), Ok(true));
    assert_eq!(
        c.repos,
        vec![
            "https://github.com/alpha/a".to_string(),
            "https://github.com/mid/m".to_string(),
            "https://github.com/zeta/z".to_string(),
        ]
    );
}

#[test]
fn add_sorts_an_unsorted_list() {
    let mut c = cfg(&["b", "a", "c"]);
    assert_eq!(c.normalize_and_add("x/y"), Ok(true));
    assert_eq!(c.repos, vec!["a", "b", "c", "https://github.com/x/y"]);
}

#[test]
fn add_refuses_repeat() {
    let mut c = AppConfig::default();
    assert_eq!(c.normalize_and_add("octo/hello"), Ok(true));
    assert_eq!(c.normalize_and_add("https://github.com/octo/hello.git"), Ok(false));
    assert_eq!(c.repos.len(), 1);
}

#[test]
fn add_reports_refused_address() {
    let mut c = cfg(&["https://github.com/a/b"]);
    assert_eq!(c.normalize_and_add("nope"), Err("Missing repo".to_string()));
    assert_eq!(c.repos, vec!["https://github.com/a/b"]);
}

#[test]
fn sort_order_matches_std() {
    let mut c = cfg(&["b", "B", "ab", "a", "é", "z", "Ab", ""]);
    c.normalize_and_add("q/q").unwrap();
    let mut expected: Vec<String> =
        ["b", "B", "ab", "a", "é", "z", "Ab", "", "https://github.com/q/q"].iter().map(|s| s.to_string()).collect();
    expected.sort();
    assert_eq!(c.repos, expected);
}

#[test]
fn string_order() {
    assert!(str_leq("a", "b"));
    assert!(str_leq("a", "ab"));
    assert!(!str_leq("b", "ab"));
    assert!(str_leq("", ""));
    assert!(str_leq("Z", "a"));
}

#[test]
fn remove_at_in_range() {
    let mut c = cfg(&["a", "b", "c"]);
    assert!(c.remove_at(1));
    assert_eq!(c.repos, vec!["a", "c"]);
}

#[test]
fn remove_at_out_of_range() {
    let mut c = cfg(&["a"]);
    assert!(!c.remove_at(1));
    assert_eq!(c.repos, vec!["a"]);
}

#[test]
fn contains_and_position() {
    let c = cfg(&["a", "b", "b"]);
    assert!(c.contains(&"b".to_string()));
    assert!(!c.contains(&"x".to_string()));
    assert_eq!(c.position(&"b".to_string()), Some(1));
    assert_eq!(c.position(&"x".to_string()), None);
}

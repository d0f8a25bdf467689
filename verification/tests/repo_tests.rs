use gh_pr_tui::repo::{is_simple_slug, normalize_repo_url, owner_and_name};

fn norm(s: &str) -> Result<String, String> {
    normalize_repo_url(s)
}

fn ok(s: &str) -> Result<String, String> {
    Ok(s.to_string())
}

fn err(s: &str) -> Result<String, String> {
    Err(s.to_string())
}

#[test]
fn normalize_accepts_owner_slash_repo() {
    assert_eq!(norm("octo/hello"), ok("https://github.com/octo/hello"));
}

#[test]
fn normalize_accepts_full_https_url() {
    assert_eq!(norm("https://github.com/octo/hello"), ok("https://github.com/octo/hello"));
    assert_eq!(norm("https://github.com/octo/hello/"), ok("https://github.com/octo/hello"));
}

#[test]
fn normalize_accepts_http_and_www() {
    assert_eq!(norm("http://www.github.com/octo/hello"), ok("https://github.com/octo/hello"));
}

#[test]
fn normalize_accepts_host_without_scheme() {
    assert_eq!(norm("github.com/octo/hello"), ok("https://github.com/octo/hello"));
    assert_eq!(norm("github.com/octo/hello.git"), ok("https://github.com/octo/hello"));
}

#[test]
fn normalize_accepts_ssh_form() {
    assert_eq!(norm("git@github.com:octo/hello.git"), ok("https://github.com/octo/hello"));
    assert_eq!(norm("git@github.com:octo/hello"), ok("https://github.com/octo/hello"));
}

#[test]
fn normalize_trims_white_space() {
    assert_eq!(norm("  \tocto/hello \n"), ok("https://github.com/octo/hello"));
    assert_eq!(norm("\u{3000}octo/hello\u{a0}"), ok("https://github.com/octo/hello"));
}

#[test]
fn normalize_strips_repeated_suffixes_and_slashes() {
    assert_eq!(norm("octo/hello.git.git"), ok("https://github.com/octo/hello"));
    assert_eq!(norm("octo/hello///"), ok("https://github.com/octo/hello"));
    assert_eq!(norm("///octo//hello"), ok("https://github.com/octo/hello"));
}

#[test]
fn normalize_keeps_dots_dashes_underscores() {
    assert_eq!(norm("my-org/my_repo.rs"), ok("https://github.com/my-org/my_repo.rs"));
}

#[test]
fn normalize_refuses_empty() {
    assert_eq!(norm(""), err("Empty repo URL"));
    assert_eq!(norm("   "), err("Empty repo URL"));
}

#[test]
fn normalize_refuses_missing_parts() {
    assert_eq!(norm("/"), err("Missing owner"));
    assert_eq!(norm("https://github.com/"), err("Missing owner"));
    assert_eq!(norm("octo"), err("Missing repo"));
    assert_eq!(norm("octo/.git"), err("Missing repo"));
}

#[test]
fn normalize_refuses_extra_segments() {
    assert_eq!(
        norm("https://github.com/octo/hello/pulls"),
        err("Repo must be OWNER/REPO (no extra path segments)")
    );
}

#[test]
fn normalize_refuses_invalid_characters() {
    assert_eq!(norm("octo/hel lo"), err("Owner/repo contains invalid characters"));
    assert_eq!(norm("oc$to/hello"), err("Owner/repo contains invalid characters"));
    assert_eq!(norm("octo/héllo"), err("Owner/repo contains invalid characters"));
}

#[test]
fn normalize_strips_every_host_prefix() {
    // `github.com/` is removed as often as it repeats
    assert_eq!(norm("github.com/github.com/x"), err("Missing repo"));
    assert_eq!(norm("/github.com/x"), ok("https://github.com/github.com/x"));
}

#[test]
fn normalize_is_stable_on_its_output() {
    let first = norm("git@github.com:octo/hello.git").unwrap();
    assert_eq!(norm(&first), Ok(first.clone()));
}

#[test]
fn owner_and_name_of_normalized_url() {
    assert_eq!(
        owner_and_name("https://github.com/octo/hello"),
        Ok(("octo".to_string(), "hello".to_string()))
    );
}

#[test]
fn owner_and_name_ignores_trailing_slashes_and_space() {
    assert_eq!(
        owner_and_name("  https://github.com/octo/hello// "),
        Ok(("octo".to_string(), "hello".to_string()))
    );
}

#[test]
fn owner_and_name_takes_last_two_pieces() {
    assert_eq!(owner_and_name("a/b"), Ok(("a".to_string(), "b".to_string())));
    assert_eq!(owner_and_name("/x"), Ok(("".to_string(), "x".to_string())));
    assert_eq!(owner_and_name("a/b/c"), Ok(("b".to_string(), "c".to_string())));
}

#[test]
fn owner_and_name_refuses_single_piece() {
    assert_eq!(owner_and_name("hello"), Err("Invalid repo URL".to_string()));
    assert_eq!(owner_and_name(""), Err("Invalid repo URL".to_string()));
}

#[test]
fn normalized_urls_split_back() {
    for input in ["octo/hello", "git@github.com:a-b/c_d.git", "www.github.com/x/y"] {
        let url = norm(input).unwrap();
        let (owner, name) = owner_and_name(&url).unwrap();
        assert_eq!(url, format!("https://github.com/{owner}/{name}"));
    }
}

#[test]
fn slugs() {
    assert!(is_simple_slug("abc-DEF_123.x"));
    assert!(!is_simple_slug(""));
    assert!(!is_simple_slug("a/b"));
    assert!(!is_simple_slug("a b"));
}

#[test]
fn normalizing_twice_changes_nothing() {
    for input in ["octo/hello", "git@github.com:a-b/c_d.git", " http://github.com/x/y/ ", "www.github.com/x/y"] {
        let once = norm(input).unwrap();
        assert_eq!(norm(&once), Ok(once.clone()));
    }
}

#[test]
fn normalizing_twice_strips_a_kept_git_suffix() {
    let once = norm("o/x.git/.git").unwrap();
    assert_eq!(once, "https://github.com/o/x.git");
    assert_eq!(norm(&once), ok("https://github.com/o/x"));
}

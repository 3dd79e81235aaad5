use fetch_rs::git::{local_commit_date, owner_and_repo, parse_origin, Timestamp};

fn parts(url: &str) -> Option<Vec<String>> {
    parse_origin(url)
}

fn strings(v: &[&str]) -> Vec<String> {
    v.iter().map(|s| s.to_string()).collect()
}

#[test]
fn https_origin_names_owner_and_repo() {
    assert_eq!(
        parts("https://github.com/camdenboren/nixos.git\n"),
        Some(strings(&["camdenboren", "nixos"]))
    );
}

#[test]
fn ssh_origin_names_owner_and_repo() {
    assert_eq!(
        parts("git@github.com:camdenboren/nixos.git"),
        Some(strings(&["camdenboren", "nixos"]))
    );
}

#[test]
fn origin_without_git_suffix() {
    assert_eq!(
        parts("  https://github.com/owner/repo  "),
        Some(strings(&["owner", "repo"]))
    );
}

#[test]
fn origin_without_scheme() {
    assert_eq!(parts("github.com/owner/repo.git"), Some(strings(&["owner", "repo"])));
}

#[test]
fn origin_through_a_mirror_path() {
    assert_eq!(
        parts("https://mirror.example/github.com/owner/repo.git"),
        Some(strings(&["owner", "repo"]))
    );
}

#[test]
fn ssh_scheme_with_user_is_not_understood() {
    assert_eq!(parts("ssh://git@github.com/owner/repo.git"), None);
}

#[test]
fn origin_strips_one_git_suffix_only() {
    assert_eq!(parts("https://github.com/o/r.git.git"), Some(strings(&["o", "r.git"])));
}

#[test]
fn origin_keeps_every_component() {
    assert_eq!(
        parts("https://github.com/o/r/extra"),
        Some(strings(&["o", "r", "extra"]))
    );
    assert_eq!(parts("https://github.com/"), Some(strings(&[""])));
    assert_eq!(parts("https://github.com//x/"), Some(strings(&["", "x", ""])));
}

#[test]
fn non_github_origin_is_refused() {
    assert_eq!(parts("https://gitlab.com/owner/repo.git"), None);
    assert_eq!(parts("git@gitlab.com:owner/repo.git"), None);
    assert_eq!(parts(""), None);
}

#[test]
fn owner_and_repo_are_first_and_last() {
    let p = strings(&["o", "mid", "r"]);
    assert_eq!(owner_and_repo(&p), ("o".to_string(), "r".to_string()));
    let single = strings(&["only"]);
    assert_eq!(owner_and_repo(&single), ("only".to_string(), "only".to_string()));
}

#[test]
fn github_date_is_preferred() {
    let t = Timestamp { secs: 42, nanos: 7 };
    assert_eq!(local_commit_date(Some(t), "garbage"), Some(t));
}

#[test]
fn local_date_is_parsed_to_utc() {
    assert_eq!(
        local_commit_date(None, "2024-05-01 12:34:56 +0200\n"),
        Some(Timestamp { secs: 1714559696, nanos: 0 })
    );
}

#[test]
fn unparsable_local_date_gives_none() {
    assert_eq!(local_commit_date(None, "yesterday"), None);
}

#[test]
fn timestamps_order_by_seconds_then_nanoseconds() {
    let a = Timestamp { secs: 10, nanos: 5 };
    let b = Timestamp { secs: 10, nanos: 6 };
    let c = Timestamp { secs: 11, nanos: 0 };
    assert!(b.is_later_than(&a));
    assert!(!a.is_later_than(&b));
    assert!(c.is_later_than(&b));
    assert!(a.is_not_before(&a));
    assert!(!a.is_later_than(&a));
}

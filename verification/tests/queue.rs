use gee::config::ConfError;
use gee::gee::CloneOutcome;
use gee::{Config, Gee, Organization, Repo};
use std::collections::VecDeque;

fn repo(url: &str) -> Repo {
    Repo {
        url: url.to_string(),
        is_mass: false,
        org: Organization { name: String::new(), repositories: Vec::new() },
    }
}

fn gee_with(queue_size: usize, urls: &[&str]) -> Gee {
    let mut repositories = VecDeque::new();
    for u in urls {
        repositories.push_back(repo(u));
    }
    Gee {
        config: Config { queue_size, github_token: String::new() },
        repositories,
        current_dir: String::from("/start"),
        open_link: String::new(),
    }
}

fn added(outcome: CloneOutcome) -> Vec<String> {
    match outcome {
        CloneOutcome::Added(evicted) => evicted.into_iter().map(|r| r.url).collect(),
        CloneOutcome::AlreadyQueued => panic!("refused as queued"),
        CloneOutcome::Failed => panic!("recorded as failed"),
    }
}

fn urls(g: &Gee) -> Vec<String> {
    g.repositories.iter().map(|r| r.url.clone()).collect()
}

#[test]
fn new_without_saved_state_has_defaults() {
    let g = Gee::new(None, String::from("/here"));
    assert_eq!(g.config.queue_size, 5);
    assert_eq!(g.config.github_token, "");
    assert!(g.repositories.is_empty());
    assert_eq!(g.current_dir, "");
    assert_eq!(g.open_link, "");
}

#[test]
fn new_with_saved_state_sets_current_dir() {
    let mut saved = gee_with(7, &["a", "b"]);
    saved.open_link = String::from("/x/a");
    let g = Gee::new(Some(saved), String::from("/here"));
    assert_eq!(g.config.queue_size, 7);
    assert_eq!(urls(&g), vec!["a", "b"]);
    assert_eq!(g.current_dir, "/here");
    assert_eq!(g.open_link, "/x/a");
}

#[test]
fn parse_conf_without_file_keeps_settings() {
    let mut g = gee_with(5, &[]);
    let report = g.parse_conf(None);
    assert_eq!(report.queue_size, 5);
    assert!(report.unknown_keys.is_empty());
    assert_eq!(report.error, None);
    assert_eq!(g.config.queue_size, 5);
}

#[test]
fn parse_conf_sets_queue_size_from_readme_example() {
    let mut g = gee_with(5, &[]);
    let report = g.parse_conf(Some("queue_size 9\n"));
    assert_eq!(report.error, None);
    assert_eq!(g.config.queue_size, 9);
}

#[test]
fn parse_conf_reports_unknown_keys_and_last_size_wins() {
    let mut g = gee_with(5, &[]);
    let report = g.parse_conf(Some("color blue\nqueue_size 3\r\n  editor   vim extra \nqueue_size +12"));
    assert_eq!(report.error, None);
    assert_eq!(report.unknown_keys, vec!["color", "editor"]);
    assert_eq!(g.config.queue_size, 12);
}

#[test]
fn parse_conf_missing_value_is_an_error() {
    let mut g = gee_with(5, &[]);
    let report = g.parse_conf(Some("queue_size 4\nlonely\nqueue_size 8\n"));
    assert_eq!(report.error, Some(ConfError::MissingField));
    assert_eq!(g.config.queue_size, 4);
}

#[test]
fn parse_conf_empty_line_is_an_error() {
    let mut g = gee_with(5, &[]);
    let report = g.parse_conf(Some("\nqueue_size 8\n"));
    assert_eq!(report.error, Some(ConfError::MissingField));
    assert_eq!(g.config.queue_size, 5);
}

#[test]
fn parse_conf_bad_number_is_an_error() {
    let mut g = gee_with(5, &[]);
    let report = g.parse_conf(Some("other x\nqueue_size -3\n"));
    assert_eq!(report.error, Some(ConfError::BadNumber));
    assert_eq!(report.unknown_keys, vec!["other"]);
    assert_eq!(g.config.queue_size, 5);
}

#[test]
fn parse_conf_empty_file_changes_nothing() {
    let mut g = gee_with(6, &[]);
    let report = g.parse_conf(Some(""));
    assert_eq!(report.error, None);
    assert_eq!(g.config.queue_size, 6);
}

#[test]
fn repo_on_queue_needs_the_state_file() {
    let g = gee_with(5, &["git@github.com:a/x.git", "git@github.com:a/y.git"]);
    assert!(g.repo_on_queue("git@github.com:a/y.git", true));
    assert!(!g.repo_on_queue("git@github.com:a/z.git", true));
    assert!(!g.repo_on_queue("git@github.com:a/y.git", false));
}

#[test]
fn manage_repo_installations_makes_room_for_one() {
    let mut g = gee_with(3, &["n3", "n2", "n1", "n0"]);
    let evicted = g.manage_repo_installations(true);
    assert_eq!(urls(&g), vec!["n3", "n2"]);
    let evicted: Vec<String> = evicted.iter().map(|r| r.url.clone()).collect();
    assert_eq!(evicted, vec!["n0", "n1"]);
}

#[test]
fn manage_repo_installations_leaves_short_queue() {
    let mut g = gee_with(3, &["n1", "n0"]);
    let evicted = g.manage_repo_installations(true);
    assert!(evicted.is_empty());
    assert_eq!(urls(&g), vec!["n1", "n0"]);
}

#[test]
fn manage_repo_installations_without_state_file_does_nothing() {
    let mut g = gee_with(1, &["a", "b", "c"]);
    let evicted = g.manage_repo_installations(false);
    assert!(evicted.is_empty());
    assert_eq!(urls(&g).len(), 3);
}

#[test]
fn queue_never_holds_more_than_its_size() {
    let mut g = gee_with(3, &[]);
    let names = ["r1", "r2", "r3", "r4", "r5"];
    let mut all_evicted = Vec::new();
    for n in names.iter() {
        assert!(!g.repo_on_queue(n, true));
        all_evicted.extend(added(g.clone_repo(n, true, true)));
        assert!(g.repositories.len() <= 3);
        assert!(g.repo_on_queue(n, true));
        assert_eq!(g.repositories[0].url, *n);
    }
    assert_eq!(urls(&g), vec!["r5", "r4", "r3"]);
    assert_eq!(all_evicted, vec!["r1", "r2"]);
}

#[test]
fn clone_repo_records_plain_repository() {
    let mut g = gee_with(5, &["old"]);
    assert!(added(g.clone_repo("new", true, true)).is_empty());
    assert_eq!(urls(&g), vec!["new", "old"]);
    assert!(!g.repositories[0].is_mass);
    assert_eq!(g.repositories[0].org.name, "");
    assert!(g.repositories[0].org.repositories.is_empty());
}

#[test]
fn clone_repo_with_size_zero_keeps_only_the_new_one() {
    let mut g = gee_with(0, &["a", "b"]);
    let evicted = added(g.clone_repo("c", true, true));
    assert_eq!(urls(&g), vec!["c"]);
    assert_eq!(evicted, vec!["b", "a"]);
}

#[test]
fn open_then_close_round_trip() {
    let mut g = gee_with(5, &["git@github.com:o/first.git", "https://github.com/o/second"]);
    let t = g.open_repo(2, Some("/home/u"), "/work").expect("opens");
    assert_eq!(t.name, "second");
    assert_eq!(t.path, "/home/u/.gee/tmp/second");
    assert_eq!(t.link, "./second");
    assert_eq!(g.open_link, "/work/second");
    assert!(g.open_repo(1, Some("/home/u"), "/work").is_none());
    assert_eq!(g.open_link, "/work/second");
    assert_eq!(g.close_repo(false), None);
    assert_eq!(g.open_link, "/work/second");
    assert_eq!(g.close_repo(true), Some(String::from("/work/second")));
    assert_eq!(g.open_link, "");
    assert_eq!(urls(&g).len(), 2);
}

#[test]
fn open_repo_without_home_uses_relative_path() {
    let mut g = gee_with(5, &["git@github.com:o/first.git"]);
    let t = g.open_repo(1, None, "/w").expect("opens");
    assert_eq!(t.path, "first");
}

#[test]
fn print_status_lists_repositories_by_index() {
    let g = gee_with(5, &["git@github.com:o/alpha.git", "https://github.com/o/beta"]);
    let lines = g.print_status();
    assert_eq!(
        lines,
        vec![
            "==================",
            "index   repository",
            "==================",
            "[ 1 ]   alpha ",
            "[ 2 ]   beta ",
        ]
    );
}

#[test]
fn print_status_of_empty_queue_is_header_only() {
    let g = gee_with(5, &[]);
    assert_eq!(g.print_status().len(), 3);
}

#[test]
fn listing_index_names_the_repository_that_open_opens() {
    let names: Vec<String> = (0..12).map(|i| format!("git@host:org/repo{}.git", i)).collect();
    let refs: Vec<&str> = names.iter().map(|s| s.as_str()).collect();
    let g0 = gee_with(20, &refs);
    let lines = g0.print_status();
    for index in 1..=12usize {
        let mut g = gee_with(20, &refs);
        let t = g.open_repo(index, None, "/w").unwrap();
        assert_eq!(lines[index + 2], format!("[ {} ]   {} ", index, t.name));
    }
}

#[test]
fn repo_equality_is_by_url() {
    let mut a = repo("u");
    a.is_mass = true;
    let b = repo("u");
    assert!(a == b);
    assert!(repo("u") != repo("v"));
}

#[test]
fn clone_repo_refuses_a_queued_url() {
    let mut g = gee_with(5, &["a", "b"]);
    assert!(matches!(g.clone_repo("b", true, true), CloneOutcome::AlreadyQueued));
    assert_eq!(urls(&g), vec!["a", "b"]);
}

#[test]
fn clone_repo_without_state_file_does_not_check_the_queue() {
    let mut g = gee_with(5, &["a"]);
    assert!(added(g.clone_repo("a", false, true)).is_empty());
    assert_eq!(urls(&g), vec!["a", "a"]);
}

#[test]
fn failed_clone_leaves_queue_unchanged() {
    let mut g = gee_with(1, &["a"]);
    assert!(matches!(g.clone_repo("b", true, false), CloneOutcome::Failed));
    assert_eq!(urls(&g), vec!["a"]);
}

#[test]
fn clones_keep_urls_distinct() {
    let mut g = gee_with(3, &[]);
    for n in ["a", "b", "a", "c", "b", "d"] {
        let _ = g.clone_repo(n, true, true);
        let mut u = urls(&g);
        u.sort();
        u.dedup();
        assert_eq!(u.len(), g.repositories.len());
    }
    assert_eq!(urls(&g), vec!["d", "c", "b"]);
}

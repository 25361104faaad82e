use gee::text::{is_whitespace, parse_usize, usize_to_string};
use gee::utils::{contains_str, contains_substring, prefix_home, prettify_url, queue_path, remove_repo, return_curr_dir};

#[test]
fn prettify_url_takes_last_segment_before_dot() {
    assert_eq!(prettify_url("git@github.com:human37/gee.git"), "gee");
    assert_eq!(prettify_url("https://github.com/a/b"), "b");
    assert_eq!(prettify_url("a/b.c.d"), "b");
    assert_eq!(prettify_url("plain"), "plain");
    assert_eq!(prettify_url(""), "");
    assert_eq!(prettify_url("dir/"), "");
    assert_eq!(prettify_url(".hidden"), "");
    assert_eq!(prettify_url("a.b/c"), "c");
}

#[test]
fn prettify_url_is_idempotent() {
    for u in ["git@github.com:human37/gee.git", "x/y/z.tar.gz", "abc", "/", "a.b"] {
        let once = prettify_url(u);
        assert_eq!(prettify_url(once), once);
        assert!(!once.contains('/') && !once.contains('.'));
    }
}

#[test]
fn parse_usize_agrees_with_std() {
    let cases = [
        "0", "9", "+7", "+", "", "-1", "-0", "12a", " 3", "007", "18446744073709551615",
        "18446744073709551616", "99999999999999999999999", "4294967295", "4294967296", "١",
    ];
    for c in cases {
        assert_eq!(parse_usize(c), c.parse::<usize>().ok(), "input {:?}", c);
    }
}

#[test]
fn usize_to_string_writes_decimal() {
    assert_eq!(usize_to_string(0), "0");
    assert_eq!(usize_to_string(7), "7");
    assert_eq!(usize_to_string(10), "10");
    assert_eq!(usize_to_string(1234), "1234");
    assert_eq!(usize_to_string(usize::MAX), usize::MAX.to_string());
}

#[test]
fn decimal_reads_back() {
    for n in [0usize, 1, 9, 10, 99, 100, 65535, usize::MAX] {
        assert_eq!(parse_usize(&usize_to_string(n)), Some(n));
    }
}

#[test]
fn whitespace_agrees_with_std() {
    for u in 0u32..0x3100 {
        if let Some(c) = char::from_u32(u) {
            assert_eq!(is_whitespace(c), c.is_whitespace(), "char {:x}", u);
        }
    }
}

#[test]
fn prefix_home_joins_with_slash() {
    assert_eq!(prefix_home(Some("/home/u"), ".geerc"), "/home/u/.geerc");
    assert_eq!(prefix_home(None, ".geerc"), "");
}

#[test]
fn queue_path_places_short_name_in_tmp() {
    assert_eq!(queue_path(Some("/h"), "git@github.com:o/proj.git"), "/h/.gee/tmp/proj");
}

#[test]
fn remove_repo_names_the_clone_directory() {
    assert_eq!(remove_repo(Some("/h"), "proj"), "/h/.gee/tmp/proj");
    let url = "git@github.com:o/proj.git";
    assert_eq!(remove_repo(Some("/h"), prettify_url(url)), queue_path(Some("/h"), url));
    assert_eq!(remove_repo(None, "proj"), "proj");
}

#[test]
fn return_curr_dir_drops_line_feed() {
    assert_eq!(return_curr_dir("/home/u\n"), "/home/u");
    assert_eq!(return_curr_dir(""), "");
    assert_eq!(return_curr_dir("/é\n"), "/é");
}

#[test]
fn contains_str_finds_pieces() {
    assert!(contains_str("gee-core", "core"));
    assert!(contains_str("gee", ""));
    assert!(!contains_str("gee", "geek"));
    assert!(!contains_str("", "a"));
}

#[test]
fn contains_substring_filters_in_order() {
    let repos = vec![
        String::from("git@h:o/api-server.git"),
        String::from("git@h:o/web.git"),
        String::from("git@h:o/api-client.git"),
    ];
    assert_eq!(
        contains_substring(repos.clone(), "api"),
        vec![String::from("git@h:o/api-server.git"), String::from("git@h:o/api-client.git")]
    );
    assert_eq!(contains_substring(repos.clone(), ""), repos);
    assert!(contains_substring(repos, "zzz").is_empty());
}

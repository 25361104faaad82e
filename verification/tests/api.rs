use gee::api::{full_org_name, get_num_repositories, get_repos, request, OrgReply, PageReply, RepoFetch};

fn s(v: &[&str]) -> Vec<String> {
    v.iter().map(|x| x.to_string()).collect()
}

#[test]
fn num_repositories_adds_counts_on_success() {
    let r = OrgReply { status: 200, public_repos: Some(12), private_repos: Some(3) };
    assert_eq!(get_num_repositories(Some(r)), 15);
    let r = OrgReply { status: 200, public_repos: Some(4), private_repos: None };
    assert_eq!(get_num_repositories(Some(r)), 4);
    let r = OrgReply { status: 404, public_repos: Some(4), private_repos: Some(1) };
    assert_eq!(get_num_repositories(Some(r)), 0);
    assert_eq!(get_num_repositories(None), 0);
}

#[test]
fn request_unquotes_ssh_urls() {
    let r = PageReply { status: 200, ssh_urls: s(&["\"git@github.com:o/a.git\"", "\"git@github.com:o/b.git\"", "null"]) };
    assert_eq!(request(Some(r)), s(&["git@github.com:o/a.git", "git@github.com:o/b.git", "ul"]));
    let r = PageReply { status: 500, ssh_urls: s(&["\"x\""]) };
    assert!(request(Some(r)).is_empty());
    assert!(request(None).is_empty());
}

fn run_fetch(total: i64, max: usize, pages: &[Vec<String>]) -> (Vec<usize>, Vec<String>) {
    let mut fetch = RepoFetch::new(total, max);
    let mut asked = Vec::new();
    while let Some(page) = fetch.next_page() {
        asked.push(page);
        fetch.add_page(pages[page - 1].clone());
    }
    (asked, get_repos(fetch))
}

#[test]
fn get_repos_pages_until_total() {
    let pages = vec![s(&["a", "b"]), s(&["c", "d"]), s(&["e"])];
    let (asked, repos) = run_fetch(5, 100, &pages);
    assert_eq!(asked, vec![1, 2, 3]);
    assert_eq!(repos, s(&["a", "b", "c", "d", "e"]));
}

#[test]
fn get_repos_stops_at_max_and_keeps_one_more() {
    let pages = vec![s(&["a", "b"]), s(&["c", "d"]), s(&["e"])];
    let (asked, repos) = run_fetch(5, 3, &pages);
    assert_eq!(asked, vec![1, 2]);
    assert_eq!(repos, s(&["a", "b", "c", "d"]));
}

#[test]
fn get_repos_with_max_zero_fetches_nothing() {
    let pages = vec![s(&["a"])];
    let (asked, repos) = run_fetch(1, 0, &pages);
    assert!(asked.is_empty());
    assert!(repos.is_empty());
}

#[test]
fn get_repos_with_empty_organization_fetches_nothing() {
    let (asked, repos) = run_fetch(0, 10, &[]);
    assert!(asked.is_empty());
    assert!(repos.is_empty());
}

#[test]
fn full_org_name_shows_wildcard() {
    assert_eq!(full_org_name("rust-lang", "book"), "rust-lang [wildcard: 'book']");
    assert_eq!(full_org_name("o", ""), "o [wildcard: '']");
}

use vstd::prelude::*;
use crate::config::strings_view;

verus! {

/// What the service answered to the request for an organization's details:
/// the status code and the two repository counts, each where the answer holds one.
pub struct OrgReply {
    pub status: u16,
    pub public_repos: Option<i64>,
    pub private_repos: Option<i64>,
}

pub open spec fn count_or_zero(c: Option<i64>) -> int {
    match c {
        Some(v) => v as int,
        None => 0,
    }
}

/// How many repositories an organization holds, from the service's answer:
/// its public and private counts added up (a missing count is 0) when the
/// status is 200, and 0 when there was no answer or the status is another.
pub fn get_num_repositories(reply: Option<OrgReply>) -> (res: i64)
    requires
        reply matches Some(r) ==> r.status == 200 ==> i64::MIN <= count_or_zero(r.public_repos)
            + count_or_zero(r.private_repos) <= i64::MAX,
    ensures
        res == match reply {
            Some(r) => if r.status == 200 {
                count_or_zero(r.public_repos) + count_or_zero(r.private_repos)
            } else {
                0
            },
            None => 0,
        },
{
    match reply {
        Some(r) => {
            if r.status == 200 {
                let public = match r.public_repos {
                    Some(v) => v,
                    None => 0,
                };
                let private = match r.private_repos {
                    Some(v) => v,
                    None => 0,
                };
                public + private
            } else {
                0
            }
        },
        None => 0,
    }
}

/// What the service answered to the request for one page of an
/// organization's repositories: the status code and, for each entry of the
/// page in order, its `ssh_url` field written out as JSON (a quoted string).
pub struct PageReply {
    pub status: u16,
    pub ssh_urls: Vec<String>,
}

/// A JSON string without its enclosing quotes: the text with its first and
/// last characters taken off.
pub open spec fn unquote(s: Seq<char>) -> Seq<char> {
    s.subrange(1, s.len() - 1)
}

/// Takes the first and last characters off `s`.
pub fn strip_quotes(s: &str) -> (res: String)
    requires
        s@.len() >= 2,
    ensures
        res@ == unquote(s@),
{
    let n = s.unicode_len();
    String::from_str(s.substring_char(1, n - 1))
}

/// The repositories of one page: the `ssh_url` of each entry, unquoted,
/// when the status is 200; none when there was no answer or the status is another.
pub fn request(reply: Option<PageReply>) -> (res: Vec<String>)
    requires
        reply matches Some(r) ==> r.status == 200 ==> forall|i: int|
            0 <= i < r.ssh_urls@.len() ==> (#[trigger] r.ssh_urls@[i])@.len() >= 2,
    ensures
        strings_view(res@) == match reply {
            Some(r) => if r.status == 200 {
                strings_view(r.ssh_urls@).map_values(|u: Seq<char>| unquote(u))
            } else {
                Seq::<Seq<char>>::empty()
            },
            None => Seq::<Seq<char>>::empty(),
        },
{
    let mut out: Vec<String> = Vec::new();
    match reply {
        None => {
            assert(strings_view(out@) =~= Seq::<Seq<char>>::empty());
        },
        Some(r) => {
            if r.status == 200 {
                let n = r.ssh_urls.len();
                let mut i: usize = 0;
                while i < n
                    invariant
                        n == r.ssh_urls@.len(),
                        i <= n,
                        forall|j: int| 0 <= j < n ==> (#[trigger] r.ssh_urls@[j])@.len() >= 2,
                        out@.len() == i,
                        forall|j: int| 0 <= j < i ==> (#[trigger] out@[j])@ == unquote(r.ssh_urls@[j]@),
                    decreases n - i,
                {
                    let u = strip_quotes(r.ssh_urls[i].as_str());
                    out.push(u);
                    i = i + 1;
                }
                assert(strings_view(out@) =~= strings_view(r.ssh_urls@).map_values(
                    |u: Seq<char>| unquote(u),
                ));
            } else {
                assert(strings_view(out@) =~= Seq::<Seq<char>>::empty());
            }
        },
    }
    out
}

/// The paging through an organization's repositories, one page at a time,
/// until as many repositories as the organization holds have come in, or
/// the wanted number `max` has (a `max` of 0 fetches nothing).
pub struct RepoFetch {
    /// How many repositories the organization holds.
    pub total: usize,
    /// How many repositories are wanted.
    pub max: usize,
    /// The repositories received so far, in order.
    pub collected: Vec<String>,
    /// The number of the next page to ask for (pages count from 1).
    pub page: usize,
}

impl RepoFetch {
    /// Whether another page should be asked for.
    pub open spec fn wants_more(&self) -> bool {
        &&& self.collected@.len() < self.total
        &&& self.max != 0
        &&& self.collected@.len() < self.max
    }

    /// Starts the paging of an organization that holds `total_org_repos`
    /// repositories.
    pub fn new(total_org_repos: i64, max: usize) -> (res: RepoFetch)
        requires
            0 <= total_org_repos <= usize::MAX,
        ensures
            res.total == total_org_repos,
            res.max == max,
            res.collected@.len() == 0,
            res.page == 1,
    {
        RepoFetch { total: total_org_repos as usize, max, collected: Vec::new(), page: 1 }
    }

    /// The page to ask for next, or `None` once the paging is over.
    pub fn next_page(&self) -> (res: Option<usize>)
        ensures
            res == if self.wants_more() {
                Some(self.page)
            } else {
                None::<usize>
            },
    {
        if self.collected.len() < self.total && self.max != 0 && self.collected.len() < self.max {
            Some(self.page)
        } else {
            None
        }
    }

    /// Takes in the page that was asked for: its repositories follow those
    /// received before, and the next page is the one after it.
    pub fn add_page(&mut self, repos: Vec<String>)
        requires
            old(self).wants_more(),
            old(self).page < usize::MAX,
        ensures
            strings_view(final(self).collected@) == strings_view(old(self).collected@) + strings_view(repos@),
            final(self).page == old(self).page + 1,
            final(self).total == old(self).total,
            final(self).max == old(self).max,
    {
        let mut repos = repos;
        let ghost before = self.collected@;
        let ghost added = repos@;
        self.collected.append(&mut repos);
        assert(strings_view(self.collected@) =~= strings_view(before) + strings_view(added));
        self.page = self.page + 1;
    }
}

/// The repositories that the paging gathered: all of them, except that when
/// more than `max` came in only the first `max + 1` are kept.
pub fn get_repos(fetch: RepoFetch) -> (res: Vec<String>)
    ensures
        strings_view(res@) == if fetch.collected@.len() > fetch.max {
            strings_view(fetch.collected@).take(fetch.max + 1)
        } else {
            strings_view(fetch.collected@)
        },
{
    let mut collected = fetch.collected;
    if collected.len() > fetch.max {
        let ghost all = collected@;
        collected.truncate(fetch.max + 1);
        assert(strings_view(collected@) =~= strings_view(all).take(fetch.max + 1));
    }
    collected
}

/// The name under which a wildcard clone of an organization is queued:
/// `org [wildcard: 'wildcard']`.
pub fn full_org_name(org: &str, wildcard: &str) -> (res: String)
    ensures
        res@ == org@ + " [wildcard: '"@ + wildcard@ + "']"@,
{
    let mut s = String::from_str(org);
    s.append(" [wildcard: '");
    s.append(wildcard);
    s.append("']");
    s
}

} // verus!

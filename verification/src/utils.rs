use vstd::prelude::*;

verus! {

/// Index just past the last `c` in `s`, or 0 when `s` holds no `c`.
pub open spec fn after_last(s: Seq<char>, c: char) -> int
    decreases s.len(),
{
    if s.len() == 0 {
        0
    } else if s.last() == c {
        s.len() as int
    } else {
        after_last(s.drop_last(), c)
    }
}

/// The first index at or after `from` that holds `c`, or `s.len()` when there is none.
pub open spec fn first_from(s: Seq<char>, from: int, c: char) -> int
    decreases s.len() - from,
{
    if from >= s.len() {
        s.len() as int
    } else if s[from] == c {
        from
    } else {
        first_from(s, from + 1, c)
    }
}

/// The short name of a repository url: the part after the last `/`,
/// cut at its first `.`.
pub open spec fn pretty_name(url: Seq<char>) -> Seq<char> {
    let start = after_last(url, '/');
    url.subrange(start, first_from(url, start, '.'))
}

pub proof fn lemma_after_last_bounds(s: Seq<char>, c: char)
    ensures
        0 <= after_last(s, c) <= s.len(),
        after_last(s, c) > 0 ==> s[after_last(s, c) - 1] == c,
        forall|i: int| after_last(s, c) <= i < s.len() ==> s[i] != c,
    decreases s.len(),
{
    if s.len() > 0 && s.last() != c {
        lemma_after_last_bounds(s.drop_last(), c);
        assert forall|i: int| after_last(s, c) <= i < s.len() implies s[i] != c by {
            if i < s.len() - 1 {
                assert(s.drop_last()[i] == s[i]);
            }
        }
    }
}

pub proof fn lemma_first_from_bounds(s: Seq<char>, from: int, c: char)
    requires
        0 <= from <= s.len(),
    ensures
        from <= first_from(s, from, c) <= s.len(),
        first_from(s, from, c) < s.len() ==> s[first_from(s, from, c)] == c,
        forall|i: int| from <= i < first_from(s, from, c) ==> s[i] != c,
    decreases s.len() - from,
{
    if from < s.len() && s[from] != c {
        lemma_first_from_bounds(s, from + 1, c);
    }
}

/// The part of a repository url that names the repository on the console:
/// what follows the last `/`, up to (not including) the first `.` after it.
pub fn prettify_url(url: &str) -> (res: &str)
    ensures
        res@ == pretty_name(url@),
{
    let n = url.unicode_len();
    let mut start: usize = 0;
    let mut i: usize = 0;
    while i < n
        invariant
            n == url@.len(),
            i <= n,
            start == after_last(url@.take(i as int), '/'),
        decreases n - i,
    {
        assert(url@.take(i + 1).drop_last() =~= url@.take(i as int));
        if url.get_char(i) == '/' {
            start = i + 1;
        }
        i = i + 1;
    }
    assert(url@.take(n as int) =~= url@);
    proof {
        lemma_after_last_bounds(url@, '/');
    }
    let mut end: usize = start;
    while end < n && url.get_char(end) != '.'
        invariant
            n == url@.len(),
            start <= end <= n,
            start == after_last(url@, '/'),
            first_from(url@, start as int, '.') == first_from(url@, end as int, '.'),
        decreases n - end,
    {
        end = end + 1;
    }
    url.substring_char(start, end)
}

/// `cmd` placed in the home directory; empty when the home directory is unknown.
pub open spec fn prefix_home_spec(home: Option<Seq<char>>, cmd: Seq<char>) -> Seq<char> {
    match home {
        Some(h) => h + "/"@ + cmd,
        None => Seq::<char>::empty(),
    }
}

/// Places `cmd` in the home directory `home` (as `home/cmd`); gives the empty
/// string when the home directory could not be found.
pub fn prefix_home(home: Option<&str>, cmd: &str) -> (res: String)
    ensures
        res@ == prefix_home_spec(
            match home {
                Some(h) => Some(h@),
                None => None,
            },
            cmd@,
        ),
{
    match home {
        Some(h) => {
            let mut s = String::from_str(h);
            s.append("/");
            s.append(cmd);
            s
        },
        None => String::new(),
    }
}

pub open spec fn opt_view(home: Option<&str>) -> Option<Seq<char>> {
    match home {
        Some(h) => Some(h@),
        None => None,
    }
}

/// The directory in the queue that a repository is cloned into.
pub open spec fn queue_path_spec(home: Option<Seq<char>>, url: Seq<char>) -> Seq<char> {
    prefix_home_spec(home, ".gee/tmp/"@) + pretty_name(url)
}

/// The directory in the queue that the repository at `url` is cloned into:
/// `.gee/tmp/` in the home directory, then the repository's short name.
pub fn queue_path(home: Option<&str>, url: &str) -> (res: String)
    ensures
        res@ == queue_path_spec(opt_view(home), url@),
{
    let mut s = prefix_home(home, ".gee/tmp/");
    s.append(prettify_url(url));
    s
}

/// The path that is deleted when the repository with short name `name`
/// leaves the queue: its directory under `.gee/tmp/` in the home directory,
/// where it was cloned.
pub fn remove_repo(home: Option<&str>, name: &str) -> (res: String)
    ensures
        res@ == prefix_home_spec(opt_view(home), ".gee/tmp/"@) + name@,
{
    let mut s = prefix_home(home, ".gee/tmp/");
    s.append(name);
    s
}

/// The working directory from the output of `pwd`: the output without its
/// last character (the line feed).
pub fn return_curr_dir(pwd_output: &str) -> (res: String)
    ensures
        res@ == if pwd_output@.len() == 0 {
            pwd_output@
        } else {
            pwd_output@.drop_last()
        },
{
    let n = pwd_output.unicode_len();
    if n == 0 {
        String::from_str(pwd_output)
    } else {
        String::from_str(pwd_output.substring_char(0, n - 1))
    }
}

/// Whether `w` occurs in `s` as a contiguous piece.
pub open spec fn has_substring(s: Seq<char>, w: Seq<char>) -> bool {
    exists|i: int| 0 <= i && i + w.len() <= s.len() && #[trigger] s.subrange(i, i + w.len()) == w
}

/// Whether `w` occurs in `s` starting at index `i`.
pub fn occurs_at(s: &str, w: &str, i: usize) -> (res: bool)
    requires
        i + w@.len() <= s@.len(),
    ensures
        res == (s@.subrange(i as int, i + w@.len()) == w@),
{
    let m = w.unicode_len();
    let n = s.unicode_len();
    let mut j: usize = 0;
    while j < m
        invariant
            m == w@.len(),
            n == s@.len(),
            i + m <= s@.len(),
            j <= m,
            forall|k: int| 0 <= k < j ==> s@[i + k] == w@[k],
        decreases m - j,
    {
        if s.get_char(i + j) != w.get_char(j) {
            assert(s@.subrange(i as int, i + m)[j as int] != w@[j as int]);
            return false;
        }
        j = j + 1;
    }
    assert(s@.subrange(i as int, i + m) =~= w@);
    true
}

/// Whether `w` occurs anywhere in `s`.
pub fn contains_str(s: &str, w: &str) -> (res: bool)
    ensures
        res == has_substring(s@, w@),
{
    let n = s.unicode_len();
    let m = w.unicode_len();
    if m > n {
        return false;
    }
    if m == 0 {
        assert(s@.subrange(0int, 0int + w@.len()) =~= w@);
        return true;
    }
    let mut i: usize = 0;
    while i <= n - m
        invariant
            n == s@.len(),
            m == w@.len(),
            1 <= m <= n,
            i <= n - m + 1,
            forall|k: int| 0 <= k < i ==> #[trigger] s@.subrange(k, k + m) != w@,
        decreases n - m + 1 - i,
    {
        if occurs_at(s, w, i) {
            return true;
        }
        i = i + 1;
    }
    false
}

/// Keeps the names that contain `wildcard`, in their order.
pub fn contains_substring(repositories: Vec<String>, wildcard: &str) -> (res: Vec<String>)
    ensures
        res@.map_values(|r: String| r@) == repositories@.map_values(|r: String| r@).filter(
            |r: Seq<char>| has_substring(r, wildcard@),
        ),
{
    let ghost all = repositories@.map_values(|r: String| r@);
    let ghost pred = |r: Seq<char>| has_substring(r, wildcard@);
    let mut res: Vec<String> = Vec::new();
    let n = repositories.len();
    let mut i: usize = 0;
    while i < n
        invariant
            n == repositories@.len(),
            i <= n,
            all == repositories@.map_values(|r: String| r@),
            pred == (|r: Seq<char>| has_substring(r, wildcard@)),
            res@.map_values(|r: String| r@) == all.take(i as int).filter(pred),
        decreases n - i,
    {
        reveal_with_fuel(Seq::<_>::filter, 1);
        assert(all.take(i + 1).drop_last() =~= all.take(i as int));
        let ghost before = res@;
        if contains_str(repositories[i].as_str(), wildcard) {
            res.push(repositories[i].clone());
            assert(res@.map_values(|r: String| r@) =~= before.map_values(|r: String| r@).push(all[i as int]));
        }
        i = i + 1;
    }
    assert(all.take(n as int) =~= all);
    res
}

} // verus!

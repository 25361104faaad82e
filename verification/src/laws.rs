use vstd::prelude::*;
use crate::gee::{cloned_urls, kept_count, queue_after_clone, link_after_close, link_after_open, status_line, status_lines};
use crate::text::decimal;
use crate::utils::{prefix_home_spec, queue_path_spec, after_last, first_from, has_substring, lemma_after_last_bounds, lemma_first_from_bounds, pretty_name};
use crate::Repo;
use crate::api::RepoFetch;
use crate::config::{conf_outcome, line_key, line_value};
use crate::text::parse_usize_spec;

verus! {

/// Once a repository has been cloned, the queue holds at most `queue_size`
/// repositories: a full queue loses its oldest ones first, and a refused or
/// failed clone leaves a queue within its size as it was.
pub proof fn lemma_queue_within_size(
    q: Seq<Seq<char>>,
    queue_size: usize,
    name: Seq<char>,
    clone_succeeded: bool,
)
    requires
        queue_size >= 1,
        q.len() <= queue_size,
    ensures
        queue_after_clone(q, queue_size, true, name, clone_succeeded).len() <= queue_size,
{
}

/// A cloned repository is at the front of the queue (index 1 of the listing),
/// and the repositories that stay keep their order, newest first.
pub proof fn lemma_clone_goes_to_front(q: Seq<Seq<char>>, queue_size: usize, metadata_exists: bool, name: Seq<char>)
    ensures
        cloned_urls(q, queue_size, metadata_exists, name)[0] == name,
        cloned_urls(q, queue_size, metadata_exists, name).contains(name),
        cloned_urls(q, queue_size, metadata_exists, name).skip(1).is_prefix_of(q),
{
    let c = cloned_urls(q, queue_size, metadata_exists, name);
    assert(c[0] == name);
    let k = kept_count(q.len(), queue_size, metadata_exists);
    assert(c.skip(1) =~= q.take(k as int));
}

/// No url is queued twice: with the state file present, recording any clone
/// keeps the urls on the queue distinct.
pub proof fn lemma_clone_keeps_urls_distinct(
    q: Seq<Seq<char>>,
    queue_size: usize,
    name: Seq<char>,
    clone_succeeded: bool,
)
    requires
        q.no_duplicates(),
    ensures
        queue_after_clone(q, queue_size, true, name, clone_succeeded).no_duplicates(),
{
    if !q.contains(name) && clone_succeeded {
        let c = cloned_urls(q, queue_size, true, name);
        assert forall|i: int, j: int| 0 <= i < c.len() && 0 <= j < c.len() && i != j implies c[i] != c[j] by {
            if i == 0 {
                assert(c[j] == q[j - 1]);
            } else if j == 0 {
                assert(c[i] == q[i - 1]);
            } else {
                assert(c[i] == q[i - 1]);
                assert(c[j] == q[j - 1]);
            }
        }
    }
}

/// `gee done` after `gee open` leaves no repository open, and while one is
/// open, opening another changes nothing: at most one repository is open.
pub proof fn lemma_open_then_close(curr_dir: Seq<char>, url: Seq<char>, other_url: Seq<char>)
    ensures
        link_after_close(link_after_open(Seq::<char>::empty(), curr_dir, url), true)
            == Seq::<char>::empty(),
        link_after_open(link_after_open(Seq::<char>::empty(), curr_dir, url), curr_dir, other_url)
            == link_after_open(Seq::<char>::empty(), curr_dir, url),
{
    assert(link_after_open(Seq::<char>::empty(), curr_dir, url).len() > 0) by {
        assert((curr_dir + "/"@ + pretty_name(url)).len() >= ("/"@).len());
        reveal_strlit("/");
    }
}

/// The repository that `gee open i` opens is the one that `gee list` shows
/// at index `i`: line `i + 2` of the listing names it.
pub proof fn lemma_listing_names_opened_repo(q: Seq<Repo>, index: int)
    requires
        1 <= index <= q.len(),
    ensures
        status_lines(q)[index + 2] == "[ "@ + decimal(index as nat) + " ]   "@ + pretty_name(
            q[index - 1].url@,
        ) + " "@,
{
    assert(status_lines(q)[index + 2] == status_line(index as nat, q[index - 1].url@));
}

/// A repository that leaves the queue is deleted from the directory it was
/// cloned into: `remove_repo(home, prettify_url(url))` names `queue_path(home, url)`.
pub proof fn lemma_removed_path_is_clone_path(home: Option<Seq<char>>, url: Seq<char>)
    ensures
        prefix_home_spec(home, ".gee/tmp/"@) + pretty_name(url) == queue_path_spec(home, url),
{
}

/// A short name holds no `/` and no `.`, and shortening it again changes nothing.
pub proof fn lemma_pretty_name_idempotent(url: Seq<char>)
    ensures
        forall|i: int| 0 <= i < pretty_name(url).len() ==> #[trigger] pretty_name(url)[i] != '/'
            && pretty_name(url)[i] != '.',
        pretty_name(pretty_name(url)) == pretty_name(url),
{
    let start = after_last(url, '/');
    lemma_after_last_bounds(url, '/');
    lemma_first_from_bounds(url, start, '.');
    let p = pretty_name(url);
    assert forall|i: int| 0 <= i < p.len() implies #[trigger] p[i] != '/' && p[i] != '.' by {
        assert(p[i] == url[start + i]);
    }
    lemma_no_char_after_last(p, '/');
    lemma_no_char_first_from(p, 0, '.');
    assert(p.subrange(0, p.len() as int) =~= p);
}

proof fn lemma_no_char_after_last(s: Seq<char>, c: char)
    requires
        forall|i: int| 0 <= i < s.len() ==> s[i] != c,
    ensures
        after_last(s, c) == 0,
    decreases s.len(),
{
    if s.len() > 0 {
        lemma_no_char_after_last(s.drop_last(), c);
    }
}

proof fn lemma_no_char_first_from(s: Seq<char>, from: int, c: char)
    requires
        0 <= from <= s.len(),
        forall|i: int| 0 <= i < s.len() ==> s[i] != c,
    ensures
        first_from(s, from, c) == s.len(),
    decreases s.len() - from,
{
    if from < s.len() {
        lemma_no_char_first_from(s, from + 1, c);
    }
}

/// With an empty wildcard every repository of the organization is kept.
pub proof fn lemma_empty_wildcard_keeps_all(names: Seq<Seq<char>>)
    ensures
        names.filter(|r: Seq<char>| has_substring(r, Seq::<char>::empty())) == names,
    decreases names.len(),
{
    reveal_with_fuel(Seq::<_>::filter, 1);
    if names.len() > 0 {
        lemma_empty_wildcard_keeps_all(names.drop_last());
        let l = names.last();
        assert(l.subrange(0int, 0int + Seq::<char>::empty().len()) =~= Seq::<char>::empty());
        assert(has_substring(l, Seq::<char>::empty()));
        assert(names.drop_last().push(l) =~= names);
    }
}

/// A queue shorter than the configured size loses nothing when room is made,
/// whatever the size: cloning a new url onto it puts the url in front of all
/// the repositories already there.
pub proof fn lemma_short_queue_evicts_nothing(q: Seq<Seq<char>>, queue_size: usize, name: Seq<char>)
    requires
        q.len() < queue_size,
        !q.contains(name),
    ensures
        kept_count(q.len(), queue_size, true) == q.len(),
        queue_after_clone(q, queue_size, true, name, true) == seq![name] + q,
        queue_after_clone(q, queue_size, true, name, true).len() == q.len() + 1,
{
    assert(q.take(q.len() as int) =~= q);
}

/// A queue that has reached the configured size (at least 1) keeps its newest
/// `queue_size - 1` repositories, so that the cloned one brings it back to
/// exactly `queue_size`.
pub proof fn lemma_full_queue_keeps_newest(q: Seq<Seq<char>>, queue_size: usize, name: Seq<char>)
    requires
        1 <= queue_size <= q.len(),
        !q.contains(name),
    ensures
        kept_count(q.len(), queue_size, true) == queue_size - 1,
        queue_after_clone(q, queue_size, true, name, true) == seq![name] + q.take(queue_size - 1),
        queue_after_clone(q, queue_size, true, name, true).len() == queue_size,
{
}

/// A well-formed line whose key is another key leaves the size in force as it
/// was, and the reading goes on with the next line.
pub proof fn lemma_other_key_keeps_size(l: Seq<char>, ls: Seq<Seq<char>>, key: Seq<char>, size: usize)
    requires
        line_key(l) is Some,
        line_key(l) != Some(key),
        line_value(l) is Some,
    ensures
        conf_outcome(seq![l] + ls, key, size).0 == conf_outcome(ls, key, size).0,
        conf_outcome(seq![l] + ls, key, size).2 == conf_outcome(ls, key, size).2,
        conf_outcome(seq![l] + ls, key, size).1 == seq![line_key(l)->0] + conf_outcome(ls, key, size).1,
{
    assert((seq![l] + ls).drop_first() =~= ls);
    assert((seq![l] + ls)[0] == l);
}

/// A line `key value` with a number as value sets the size to that number,
/// whatever size was in force, and the reading goes on with the next line.
pub proof fn lemma_size_line_sets_size(l: Seq<char>, ls: Seq<Seq<char>>, key: Seq<char>, size: usize, other: usize, n: usize)
    requires
        line_key(l) == Some(key),
        line_value(l) matches Some(v) && parse_usize_spec(v) == Some(n),
    ensures
        conf_outcome(seq![l] + ls, key, size) == conf_outcome(ls, key, n),
        conf_outcome(seq![l] + ls, key, size) == conf_outcome(seq![l] + ls, key, other),
{
    assert((seq![l] + ls).drop_first() =~= ls);
    assert((seq![l] + ls)[0] == l);
}

/// Without further lines the size in force stays, nothing is reported and
/// nothing went wrong.
pub proof fn lemma_no_lines_keep_size(key: Seq<char>, size: usize)
    ensures
        conf_outcome(Seq::<Seq<char>>::empty(), key, size) == (size, Seq::<Seq<char>>::empty(), None::<crate::config::ConfError>),
{
}

/// The paging goes on, whatever page it has reached, exactly while fewer
/// repositories than the organization holds and fewer than wanted (a wanted
/// number of 0 stops it) have come in.
pub proof fn lemma_paging_continues_until_done(f: RepoFetch, page: usize)
    ensures
        f.wants_more() <==> (f.collected@.len() < f.total && f.max != 0 && f.collected@.len() < f.max),
        f.wants_more() == (RepoFetch { page, ..f }).wants_more(),
{
}

/// An occurrence anywhere in a text counts, wherever it stands.
pub proof fn lemma_substring_anywhere(s: Seq<char>, w: Seq<char>, i: int)
    requires
        0 <= i,
        i + w.len() <= s.len(),
        s.subrange(i, i + w.len()) == w,
    ensures
        has_substring(s, w),
{
}

/// A text contains every piece it is made of: `w` occurs in `a + w + b`.
pub proof fn lemma_substring_of_concat(a: Seq<char>, w: Seq<char>, b: Seq<char>)
    ensures
        has_substring(a + w + b, w),
{
    let s = a + w + b;
    assert(s.subrange(a.len() as int, a.len() as int + w.len()) =~= w);
}

proof fn lemma_after_last_suffix_without(s: Seq<char>, t: Seq<char>, c: char)
    requires
        forall|i: int| 0 <= i < t.len() ==> t[i] != c,
    ensures
        after_last(s + t, c) == after_last(s, c),
    decreases t.len(),
{
    if t.len() > 0 {
        assert((s + t).drop_last() =~= s + t.drop_last());
        assert((s + t).last() == t.last());
        lemma_after_last_suffix_without(s, t.drop_last(), c);
    } else {
        assert(s + t =~= s);
    }
}

proof fn lemma_first_from_skips(s: Seq<char>, from: int, k: int, c: char)
    requires
        0 <= from,
        0 <= k,
        from + k < s.len(),
        s[from + k] == c,
        forall|i: int| from <= i < from + k ==> s[i] != c,
    ensures
        first_from(s, from, c) == from + k,
    decreases k,
{
    if k > 0 {
        lemma_first_from_skips(s, from + 1, k - 1, c);
    }
}

/// The short name of `prefix/name.rest` is the whole of `name`, however long,
/// when `name` holds no `/` and no `.` and `rest` holds no `/`.
pub proof fn lemma_pretty_name_is_whole_segment(prefix: Seq<char>, name: Seq<char>, rest: Seq<char>)
    requires
        forall|i: int| 0 <= i < name.len() ==> name[i] != '/' && name[i] != '.',
        forall|i: int| 0 <= i < rest.len() ==> rest[i] != '/',
    ensures
        pretty_name(prefix + seq!['/'] + name + seq!['.'] + rest) == name,
{
    let head = prefix + seq!['/'];
    let tail = name + seq!['.'] + rest;
    let u = prefix + seq!['/'] + name + seq!['.'] + rest;
    assert(u =~= head + tail);
    assert forall|i: int| 0 <= i < tail.len() implies tail[i] != '/' by {
        if i < name.len() {
        } else if i == name.len() {
        } else {
            assert(tail[i] == rest[i - name.len() - 1]);
        }
    }
    lemma_after_last_suffix_without(head, tail, '/');
    assert(head.last() == '/');
    assert(after_last(head, '/') == head.len());
    let start = head.len() as int;
    assert forall|i: int| start <= i < start + name.len() implies u[i] != '.' by {
        assert(u[i] == name[i - start]);
    }
    assert(u[start + name.len()] == '.');
    lemma_first_from_skips(u, start, name.len() as int, '.');
    assert(u.subrange(start, start + name.len()) =~= name);
}

/// A name with no `/` and no `.` is its own short name, however long.
pub proof fn lemma_plain_name_is_kept(name: Seq<char>)
    requires
        forall|i: int| 0 <= i < name.len() ==> name[i] != '/' && name[i] != '.',
    ensures
        pretty_name(name) == name,
{
    lemma_no_char_after_last(name, '/');
    lemma_no_char_first_from(name, 0, '.');
    assert(name.subrange(0, name.len() as int) =~= name);
}

} // verus!

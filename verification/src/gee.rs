use vstd::prelude::*;
use std::collections::VecDeque;
use crate::{Config, Gee, Organization, Repo};
use crate::config::{apply_conf, conf_outcome, lines, strings_view, ConfReport};
use crate::text::{decimal, usize_to_string};
use crate::utils::{pretty_name, prettify_url, queue_path, queue_path_spec, opt_view};

verus! {

/// The urls of a queue, in order.
pub open spec fn urls(q: Seq<Repo>) -> Seq<Seq<char>> {
    q.map_values(|r: Repo| r.url@)
}

/// How many repositories stay on a queue of length `len` once room is made
/// for one more: the newest `queue_size - 1` (none when the size is 0),
/// or all of them when no state file exists yet.
pub open spec fn kept_count(len: nat, queue_size: usize, metadata_exists: bool) -> nat {
    if metadata_exists && len >= queue_size {
        if queue_size == 0 {
            0
        } else {
            (queue_size - 1) as nat
        }
    } else {
        len
    }
}

/// The urls on the queue once `name` has been cloned onto a queue with urls `q`.
pub open spec fn cloned_urls(q: Seq<Seq<char>>, queue_size: usize, metadata_exists: bool, name: Seq<char>) -> Seq<Seq<char>> {
    seq![name] + q.take(kept_count(q.len(), queue_size, metadata_exists) as int)
}

/// The recorded link once the repository at `url` is opened from `curr_dir`:
/// set when nothing was open, kept as it was otherwise.
pub open spec fn link_after_open(link: Seq<char>, curr_dir: Seq<char>, url: Seq<char>) -> Seq<char> {
    if link.len() == 0 {
        curr_dir + "/"@ + pretty_name(url)
    } else {
        link
    }
}

/// The recorded link once the open repository is closed: cleared when its
/// link exists, kept as it was otherwise.
pub open spec fn link_after_close(link: Seq<char>, link_exists: bool) -> Seq<char> {
    if link_exists {
        Seq::<char>::empty()
    } else {
        link
    }
}

/// The urls on the queue once the cloning of `name` has been recorded: a url
/// already queued (with the state file present) and a failed clone change
/// nothing; otherwise the clone is added as `cloned_urls` says.
pub open spec fn queue_after_clone(
    q: Seq<Seq<char>>,
    queue_size: usize,
    metadata_exists: bool,
    name: Seq<char>,
    clone_succeeded: bool,
) -> Seq<Seq<char>> {
    if (metadata_exists && q.contains(name)) || !clone_succeeded {
        q
    } else {
        cloned_urls(q, queue_size, metadata_exists, name)
    }
}

/// What recording a clone did.
pub enum CloneOutcome {
    /// The url was on the queue already; nothing changed.
    AlreadyQueued,
    /// The clone failed; nothing changed.
    Failed,
    /// The repository was added; these left the queue, oldest first.
    Added(Vec<Repo>),
}

/// One line of the queue listing.
pub open spec fn status_line(index: nat, url: Seq<char>) -> Seq<char> {
    "[ "@ + decimal(index) + " ]   "@ + pretty_name(url) + " "@
}

/// The queue listing: a header of three lines, then one line per repository,
/// numbered from 1.
pub open spec fn status_lines(q: Seq<Repo>) -> Seq<Seq<char>> {
    seq!["=================="@, "index   repository"@, "=================="@]
        + Seq::new(q.len(), |i: int| status_line((i + 1) as nat, q[i].url@))
}

/// Where an opened repository lives and where its link goes.
pub struct OpenTarget {
    /// The repository's directory in the queue.
    pub path: String,
    /// The link to create, relative to the working directory.
    pub link: String,
    /// The repository's short name.
    pub name: String,
}

impl Gee {
    /// The state the tool starts from: the saved state, if there is one, with
    /// `current_dir` as its working directory; otherwise an empty queue of
    /// size 5, no token and nothing open.
    pub fn new(saved: Option<Gee>, current_dir: String) -> (res: Gee)
        ensures
            match saved {
                Some(g) => {
                    &&& res.config == g.config
                    &&& res.repositories@ == g.repositories@
                    &&& res.open_link == g.open_link
                    &&& res.current_dir == current_dir
                },
                None => {
                    &&& res.config.queue_size == 5
                    &&& res.config.github_token@ == Seq::<char>::empty()
                    &&& res.repositories@ == Seq::<Repo>::empty()
                    &&& res.current_dir@ == Seq::<char>::empty()
                    &&& res.open_link@ == Seq::<char>::empty()
                },
            },
    {
        match saved {
            Some(g) => Gee { current_dir, ..g },
            None => Gee {
                repositories: VecDeque::new(),
                config: Config { queue_size: 5, github_token: String::new() },
                current_dir: String::new(),
                open_link: String::new(),
            },
        }
    }

    /// Applies the `.geerc` text, if there is such a file: its `queue_size`
    /// lines set the queue size; other keys are reported.
    pub fn parse_conf(&mut self, contents: Option<&str>) -> (res: ConfReport)
        ensures
            final(self).repositories@ == old(self).repositories@,
            final(self).config.github_token == old(self).config.github_token,
            final(self).current_dir == old(self).current_dir,
            final(self).open_link == old(self).open_link,
            final(self).config.queue_size == res.queue_size,
            match contents {
                None => {
                    &&& res.queue_size == old(self).config.queue_size
                    &&& res.unknown_keys@.len() == 0
                    &&& res.error is None
                },
                Some(text) => {
                    let out = conf_outcome(lines(text@), "queue_size"@, old(self).config.queue_size);
                    &&& res.queue_size == out.0
                    &&& strings_view(res.unknown_keys@) == out.1
                    &&& res.error == out.2
                },
            },
    {
        match contents {
            None => ConfReport {
                queue_size: self.config.queue_size,
                unknown_keys: Vec::new(),
                error: None,
            },
            Some(text) => {
                let report = apply_conf(text, "queue_size", self.config.queue_size);
                self.config.queue_size = report.queue_size;
                report
            },
        }
    }

    /// Whether a repository with this url is on the queue. Without a state
    /// file nothing counts as queued.
    pub fn repo_on_queue(&self, name: &str, metadata_exists: bool) -> (res: bool)
        ensures
            res == (metadata_exists && urls(self.repositories@).contains(name@)),
    {
        if !metadata_exists {
            return false;
        }
        let target = String::from_str(name);
        let n = self.repositories.len();
        let mut i: usize = 0;
        while i < n
            invariant
                n == self.repositories@.len(),
                i <= n,
                metadata_exists,
                target@ == name@,
                forall|j: int| 0 <= j < i ==> self.repositories@[j].url@ != name@,
            decreases n - i,
        {
            if self.repositories[i].url == target {
                assert(urls(self.repositories@)[i as int] == name@);
                assert(urls(self.repositories@).contains(name@));
                return true;
            }
            i = i + 1;
        }
        assert(!urls(self.repositories@).contains(name@)) by {
            if urls(self.repositories@).contains(name@) {
                let j = choose|j: int| 0 <= j < n && urls(self.repositories@)[j] == name@;
                assert(self.repositories@[j].url@ == name@);
            }
        }
        false
    }

    /// Makes room on the queue for one more repository: while the queue is
    /// full, its oldest repository is taken off. Returns what was taken off,
    /// oldest first. Nothing happens while no state file exists.
    pub fn manage_repo_installations(&mut self, metadata_exists: bool) -> (evicted: Vec<Repo>)
        ensures
            final(self).repositories@ == old(self).repositories@.take(
                kept_count(old(self).repositories@.len(), old(self).config.queue_size, metadata_exists) as int,
            ),
            evicted@ == old(self).repositories@.skip(
                kept_count(old(self).repositories@.len(), old(self).config.queue_size, metadata_exists) as int,
            ).reverse(),
            final(self).config == old(self).config,
            final(self).current_dir == old(self).current_dir,
            final(self).open_link == old(self).open_link,
    {
        let mut evicted: Vec<Repo> = Vec::new();
        if metadata_exists {
            let ghost q = self.repositories@;
            let ghost k = kept_count(q.len(), self.config.queue_size, metadata_exists);
            let ghost cfg = self.config;
            let ghost cd = self.current_dir;
            let ghost ol = self.open_link;
            while self.repositories.len() > 0 && self.repositories.len() >= self.config.queue_size
                invariant
                    k == kept_count(q.len(), self.config.queue_size, true),
                    k <= self.repositories@.len() <= q.len(),
                    self.repositories@ == q.take(self.repositories@.len() as int),
                    evicted@ == q.skip(self.repositories@.len() as int).reverse(),
                    q.len() >= self.config.queue_size ==> (self.repositories@.len() > k <==> (
                    self.repositories@.len() > 0 && self.repositories@.len() >= self.config.queue_size)),
                    q.len() < self.config.queue_size ==> self.repositories@.len() == q.len(),
                    self.config == cfg,
                    self.current_dir == cd,
                    self.open_link == ol,
                decreases self.repositories@.len(),
            {
                let repo = self.repositories.pop_back().unwrap();
                evicted.push(repo);
                assert(self.repositories@ =~= q.take(self.repositories@.len() as int));
                assert(evicted@ =~= q.skip(self.repositories@.len() as int).reverse());
            }
        }
        evicted
    }

    /// Records the outcome of cloning `name`. A url that is already on the
    /// queue (with the state file present) is refused and nothing changes; a
    /// clone that failed changes nothing either. Otherwise room is made on the
    /// queue (see `manage_repo_installations`) and the repository goes to its
    /// front; the outcome lists what left the queue, oldest first.
    pub fn clone_repo(&mut self, name: &str, metadata_exists: bool, clone_succeeded: bool) -> (res: CloneOutcome)
        ensures
            final(self).config == old(self).config,
            final(self).current_dir == old(self).current_dir,
            final(self).open_link == old(self).open_link,
            metadata_exists && urls(old(self).repositories@).contains(name@) ==> {
                &&& res is AlreadyQueued
                &&& final(self).repositories@ == old(self).repositories@
            },
            !(metadata_exists && urls(old(self).repositories@).contains(name@)) && !clone_succeeded ==> {
                &&& res is Failed
                &&& final(self).repositories@ == old(self).repositories@
            },
            !(metadata_exists && urls(old(self).repositories@).contains(name@)) && clone_succeeded ==> {
                let k = kept_count(old(self).repositories@.len(), old(self).config.queue_size, metadata_exists);
                &&& res matches CloneOutcome::Added(evicted)
                &&& final(self).repositories@.len() == k + 1
                &&& final(self).repositories@[0].url@ == name@
                &&& !final(self).repositories@[0].is_mass
                &&& final(self).repositories@[0].org.name@ == Seq::<char>::empty()
                &&& final(self).repositories@[0].org.repositories@ == Seq::<Repo>::empty()
                &&& final(self).repositories@.skip(1) == old(self).repositories@.take(k as int)
                &&& evicted@ == old(self).repositories@.skip(k as int).reverse()
            },
            urls(final(self).repositories@) == queue_after_clone(
                urls(old(self).repositories@),
                old(self).config.queue_size,
                metadata_exists,
                name@,
                clone_succeeded,
            ),
    {
        if self.repo_on_queue(name, metadata_exists) {
            return CloneOutcome::AlreadyQueued;
        }
        if !clone_succeeded {
            return CloneOutcome::Failed;
        }
        let evicted = self.manage_repo_installations(metadata_exists);
        let ghost kept = self.repositories@;
        self.repositories.push_front(Repo {
            url: String::from_str(name),
            is_mass: false,
            org: Organization { name: String::new(), repositories: Vec::new() },
        });
        assert(self.repositories@.skip(1) =~= kept);
        assert(urls(self.repositories@) =~= cloned_urls(
            urls(old(self).repositories@),
            old(self).config.queue_size,
            metadata_exists,
            name@,
        ));
        CloneOutcome::Added(evicted)
    }

    /// Opens the repository listed at `index` (counting from 1), unless one
    /// is open already: its link, named after the repository, goes into
    /// `curr_dir`. Gives the repository's directory, the link and the name.
    pub fn open_repo(&mut self, index: usize, home: Option<&str>, curr_dir: &str) -> (res: Option<OpenTarget>)
        requires
            old(self).open_link@.len() == 0 ==> 1 <= index <= old(self).repositories@.len(),
        ensures
            final(self).config == old(self).config,
            final(self).repositories@ == old(self).repositories@,
            final(self).current_dir == old(self).current_dir,
            old(self).open_link@.len() == 0 ==> {
                let url = old(self).repositories@[index - 1].url@;
                &&& res matches Some(t)
                &&& t.name@ == pretty_name(url)
                &&& t.path@ == queue_path_spec(opt_view(home), url)
                &&& t.link@ == "./"@ + pretty_name(url)
                &&& final(self).open_link@ == curr_dir@ + "/"@ + pretty_name(url)
            },
            old(self).open_link@.len() != 0 ==> res is None && final(self).open_link == old(self).open_link,
            final(self).open_link@ == link_after_open(
                old(self).open_link@,
                curr_dir@,
                old(self).repositories@[index - 1].url@,
            ),
    {
        if self.open_link.as_str().unicode_len() != 0 {
            return None;
        }
        let url = self.repositories[index - 1].url.as_str();
        let name = String::from_str(prettify_url(url));
        let path = queue_path(home, url);
        let mut link = String::from_str("./");
        link.append(name.as_str());
        let mut open_link = String::from_str(curr_dir);
        open_link.append("/");
        open_link.append(name.as_str());
        self.open_link = open_link;
        Some(OpenTarget { path, link, name })
    }

    /// Closes the open repository when its link exists: gives the link to
    /// delete and records that nothing is open. Otherwise nothing changes.
    pub fn close_repo(&mut self, link_exists: bool) -> (res: Option<String>)
        ensures
            final(self).config == old(self).config,
            final(self).repositories@ == old(self).repositories@,
            final(self).current_dir == old(self).current_dir,
            link_exists ==> {
                &&& res matches Some(l)
                &&& l@ == old(self).open_link@
                &&& final(self).open_link@ == Seq::<char>::empty()
            },
            !link_exists ==> res is None && final(self).open_link == old(self).open_link,
            final(self).open_link@ == link_after_close(old(self).open_link@, link_exists),
    {
        if link_exists {
            let link = self.open_link.clone();
            self.open_link = String::new();
            Some(link)
        } else {
            None
        }
    }

    /// The lines of the queue listing (see `status_lines`).
    pub fn print_status(&self) -> (res: Vec<String>)
        ensures
            strings_view(res@) == status_lines(self.repositories@),
    {
        let mut out: Vec<String> = Vec::new();
        out.push(String::from_str("=================="));
        out.push(String::from_str("index   repository"));
        out.push(String::from_str("=================="));
        let n = self.repositories.len();
        let ghost q = self.repositories@;
        let mut i: usize = 0;
        while i < n
            invariant
                n == q.len(),
                q == self.repositories@,
                i <= n,
                strings_view(out@) == status_lines(q.take(i as int)),
            decreases n - i,
        {
            let mut line = String::from_str("[ ");
            let number = usize_to_string(i + 1);
            line.append(number.as_str());
            line.append(" ]   ");
            line.append(prettify_url(self.repositories[i].url.as_str()));
            line.append(" ");
            let ghost before = out@;
            out.push(line);
            assert(strings_view(out@) =~= strings_view(before).push(line@));
            assert(status_lines(q.take(i + 1)) =~= status_lines(q.take(i as int)).push(
                status_line((i + 1) as nat, q[i as int].url@),
            ));
            i = i + 1;
        }
        assert(q.take(n as int) =~= q);
        out
    }
}

} // verus!

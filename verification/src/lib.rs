//! A repository queue manager: repositories are cloned into a queue of bounded
//! size, listed by index, opened into the working directory and closed again.
//! This crate holds the queue and its rules, the reading of the `.geerc`
//! configuration, the naming of paths and the decisions of the paging through an
//! organization's repositories; the program around it does the file system,
//! process and network work.
pub mod api;
pub mod config;
pub mod gee;
pub mod laws;
pub mod text;
pub mod utils;

use vstd::prelude::*;
use std::collections::VecDeque;

verus! {

/// The user's settings.
pub struct Config {
    /// How many repositories the queue holds at most.
    pub queue_size: usize,
    /// The personal access token used for organization requests.
    pub github_token: String,
}

/// A repository on the queue. Two repositories are the same when their urls are.
pub struct Repo {
    pub url: String,
    pub is_mass: bool,
    pub org: Organization,
}

/// An organization and repositories cloned from it.
pub struct Organization {
    pub name: String,
    pub repositories: Vec<Repo>,
}

/// The whole state of the tool: its settings, the queue (newest first), the
/// directory it was started in and the link of the repository now open
/// (empty when none is).
pub struct Gee {
    pub config: Config,
    pub repositories: VecDeque<Repo>,
    pub current_dir: String,
    pub open_link: String,
}

impl PartialEq for Repo {
    fn eq(&self, other: &Self) -> (res: bool) {
        self.url == other.url
    }
}

impl vstd::std_specs::cmp::PartialEqSpecImpl for Repo {
    open spec fn obeys_eq_spec() -> bool {
        true
    }

    open spec fn eq_spec(&self, other: &Self) -> bool {
        self.url@ == other.url@
    }
}

} // verus!

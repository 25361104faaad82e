# gee

A command-line repository manager: repositories are cloned into a queue under
`~/.gee/tmp/` whose length is bounded by the `queue_size` setting of `~/.geerc`
(5 by default), listed by index, opened into the working directory as a link,
closed again, or copied out of the queue.

Layout:

- `src/` — the verified library: the queue and its rules (`gee.rs`), the
  reading of `.geerc` (`config.rs`), text helpers such as number reading and
  writing (`text.rs`), path and name helpers (`utils.rs`), the decisions of the
  paging through an organization's repositories (`api.rs`), and the laws that
  relate these functions (`laws.rs`).
- `app/` — the program: argument handling, the file system, `git`, the GitHub
  requests, the saved state in `~/.gee/metadata.json` and the spinner.
- `tests/` — tests of the library on concrete values.

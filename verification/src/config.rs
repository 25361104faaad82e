use vstd::prelude::*;
use crate::text::{is_ws, is_whitespace, parse_usize, parse_usize_spec};
use crate::utils::{first_from, lemma_first_from_bounds};

verus! {

/// The first index at or after `i` that is not whitespace (or `s.len()`).
pub open spec fn skip_ws(s: Seq<char>, i: int) -> int
    decreases s.len() - i,
{
    if i >= s.len() || !is_ws(s[i]) {
        i
    } else {
        skip_ws(s, i + 1)
    }
}

/// The first index at or after `i` that is whitespace (or `s.len()`).
pub open spec fn word_end(s: Seq<char>, i: int) -> int
    decreases s.len() - i,
{
    if i >= s.len() || is_ws(s[i]) {
        i
    } else {
        word_end(s, i + 1)
    }
}

/// Where the next whitespace-separated word at or after `i` starts and
/// ends, as `split_whitespace` finds it; `None` when only whitespace is left.
pub open spec fn next_word(s: Seq<char>, i: int) -> Option<(int, int)> {
    let a = skip_ws(s, i);
    if a >= s.len() {
        None
    } else {
        Some((a, word_end(s, a)))
    }
}

/// The first word of a line.
pub open spec fn line_key(line: Seq<char>) -> Option<Seq<char>> {
    match next_word(line, 0) {
        Some((a, b)) => Some(line.subrange(a, b)),
        None => None,
    }
}

/// The second word of a line.
pub open spec fn line_value(line: Seq<char>) -> Option<Seq<char>> {
    match next_word(line, 0) {
        Some((a, b)) => match next_word(line, b) {
            Some((c, d)) => Some(line.subrange(c, d)),
            None => None,
        },
        None => None,
    }
}

/// The lines of `s` from index `i` on, as `BufRead::lines` yields them:
/// the pieces between line feeds, with no empty piece after a final line feed.
/// (A carriage return that ends a line is whitespace, so it never changes a word.)
pub open spec fn lines_from(s: Seq<char>, i: int) -> Seq<Seq<char>>
    decreases s.len() + 1 - i,
{
    if i < 0 || i >= s.len() {
        seq![]
    } else {
        proof {
            lemma_first_from_bounds(s, i, '\n');
        }
        let e = first_from(s, i, '\n');
        seq![s.subrange(i, e)] + lines_from(s, e + 1)
    }
}

pub open spec fn lines(s: Seq<char>) -> Seq<Seq<char>> {
    lines_from(s, 0)
}

/// Why a configuration file could not be read.
#[derive(Clone, Copy, Debug, PartialEq, Eq, Structural)]
pub enum ConfError {
    /// A line holds fewer than two words.
    MissingField,
    /// The value given for the size key is not a `usize`.
    BadNumber,
}

/// What reading the lines `ls` does, starting from the size `size`:
/// the size in force after them, the unknown keys met (in order), and the
/// error that stopped the reading, if one did.
pub open spec fn conf_outcome(ls: Seq<Seq<char>>, key: Seq<char>, size: usize) -> (
    usize,
    Seq<Seq<char>>,
    Option<ConfError>,
)
    decreases ls.len(),
{
    if ls.len() == 0 {
        (size, seq![], None)
    } else {
        let l = ls[0];
        match (line_key(l), line_value(l)) {
            (Some(k), Some(v)) => {
                if k == key {
                    match parse_usize_spec(v) {
                        Some(n) => conf_outcome(ls.drop_first(), key, n),
                        None => (size, seq![], Some(ConfError::BadNumber)),
                    }
                } else {
                    let r = conf_outcome(ls.drop_first(), key, size);
                    (r.0, seq![k] + r.1, r.2)
                }
            },
            _ => (size, seq![], Some(ConfError::MissingField)),
        }
    }
}

/// The outcome of reading a configuration text.
pub struct ConfReport {
    /// The size in force once the reading ended.
    pub queue_size: usize,
    /// Every key other than the size key, in the order met.
    pub unknown_keys: Vec<String>,
    /// The error that ended the reading early, if any.
    pub error: Option<ConfError>,
}

pub open spec fn strings_view(v: Seq<String>) -> Seq<Seq<char>> {
    v.map_values(|x: String| x@)
}

pub fn skip_whitespace(s: &str, i: usize) -> (res: usize)
    requires
        i <= s@.len(),
    ensures
        res == skip_ws(s@, i as int),
{
    let n = s.unicode_len();
    let mut j = i;
    while j < n && is_whitespace(s.get_char(j))
        invariant
            n == s@.len(),
            i <= j <= n,
            skip_ws(s@, i as int) == skip_ws(s@, j as int),
        decreases n - j,
    {
        j = j + 1;
    }
    j
}

pub fn find_word_end(s: &str, i: usize) -> (res: usize)
    requires
        i <= s@.len(),
    ensures
        res == word_end(s@, i as int),
{
    let n = s.unicode_len();
    let mut j = i;
    while j < n && !is_whitespace(s.get_char(j))
        invariant
            n == s@.len(),
            i <= j <= n,
            word_end(s@, i as int) == word_end(s@, j as int),
        decreases n - j,
    {
        j = j + 1;
    }
    j
}

pub proof fn lemma_skip_ws_bounds(s: Seq<char>, i: int)
    requires
        0 <= i <= s.len(),
    ensures
        i <= skip_ws(s, i) <= s.len(),
    decreases s.len() - i,
{
    if i < s.len() && is_ws(s[i]) {
        lemma_skip_ws_bounds(s, i + 1);
    }
}

pub proof fn lemma_word_end_bounds(s: Seq<char>, i: int)
    requires
        0 <= i <= s.len(),
    ensures
        i <= word_end(s, i) <= s.len(),
    decreases s.len() - i,
{
    if i < s.len() && !is_ws(s[i]) {
        lemma_word_end_bounds(s, i + 1);
    }
}

/// The next word of `s` at or after `i`, as its start and end.
pub fn find_next_word(s: &str, i: usize) -> (res: Option<(usize, usize)>)
    requires
        i <= s@.len(),
    ensures
        match res {
            Some((a, b)) => next_word(s@, i as int) == Some((a as int, b as int)),
            None => next_word(s@, i as int) is None,
        },
        res matches Some((a, b)) ==> a <= b <= s@.len(),
{
    let a = skip_whitespace(s, i);
    proof {
        lemma_skip_ws_bounds(s@, i as int);
    }
    if a >= s.unicode_len() {
        None
    } else {
        let b = find_word_end(s, a);
        proof {
            lemma_word_end_bounds(s@, a as int);
        }
        Some((a, b))
    }
}

/// Reads one line: its key and its value, or `None` when it has fewer than two words.
pub fn split_line(line: &str) -> (res: Option<(String, String)>)
    ensures
        match res {
            Some((k, v)) => line_key(line@) == Some(k@) && line_value(line@) == Some(v@),
            None => line_key(line@) is None || line_value(line@) is None,
        },
{
    match find_next_word(line, 0) {
        None => None,
        Some((a, b)) => {
            match find_next_word(line, b) {
                None => None,
                Some((c, d)) => {
                    let k = String::from_str(line.substring_char(a, b));
                    let v = String::from_str(line.substring_char(c, d));
                    Some((k, v))
                },
            }
        },
    }
}

/// Reads a configuration text line by line. Each line must hold a key and a
/// value; where the key is `key`, the value must be a `usize` and becomes the
/// size in force. Other keys are collected. The first malformed line ends the
/// reading, with the lines before it in effect.
pub fn apply_conf(text: &str, key: &str, queue_size: usize) -> (res: ConfReport)
    ensures
        res.queue_size == conf_outcome(lines(text@), key@, queue_size).0,
        strings_view(res.unknown_keys@) == conf_outcome(lines(text@), key@, queue_size).1,
        res.error == conf_outcome(lines(text@), key@, queue_size).2,
{
    let n = text.unicode_len();
    let key_string = String::from_str(key);
    let ghost total = conf_outcome(lines(text@), key@, queue_size);
    let mut size = queue_size;
    let mut unknown: Vec<String> = Vec::new();
    let mut i: usize = 0;
    while i < n
        invariant
            n == text@.len(),
            key_string@ == key@,
            i <= n,
            total == conf_outcome(lines(text@), key@, queue_size),
            total.0 == conf_outcome(lines_from(text@, i as int), key@, size).0,
            total.2 == conf_outcome(lines_from(text@, i as int), key@, size).2,
            total.1 == strings_view(unknown@) + conf_outcome(lines_from(text@, i as int), key@, size).1,
        decreases n - i,
    {
        let mut e = i;
        while e < n && text.get_char(e) != '\n'
            invariant
                n == text@.len(),
                i <= e <= n,
                first_from(text@, i as int, '\n') == first_from(text@, e as int, '\n'),
            decreases n - e,
        {
            e = e + 1;
        }
        let ghost rest = lines_from(text@, e + 1);
        assert(lines_from(text@, i as int) == seq![text@.subrange(i as int, e as int)] + rest);
        assert(lines_from(text@, i as int).drop_first() =~= rest);
        let line = text.substring_char(i, e);
        match split_line(line) {
            None => {
                return ConfReport { queue_size: size, unknown_keys: unknown, error: Some(ConfError::MissingField) };
            },
            Some((k, v)) => {
                if k == key_string {
                    match parse_usize(v.as_str()) {
                        Some(value) => {
                            size = value;
                        },
                        None => {
                            assert(strings_view(unknown@) =~= strings_view(unknown@) + seq![]);
                            return ConfReport { queue_size: size, unknown_keys: unknown, error: Some(ConfError::BadNumber) };
                        },
                    }
                } else {
                    let ghost old_unknown = unknown@;
                    unknown.push(k);
                    assert(strings_view(unknown@) =~= strings_view(old_unknown) + seq![k@]);
                }
            },
        }
        if e < n {
            i = e + 1;
        } else {
            assert(lines_from(text@, e + 1) =~= lines_from(text@, n as int));
            i = n;
        }
    }
    assert(lines_from(text@, i as int) =~= Seq::<Seq<char>>::empty());
    assert(strings_view(unknown@) =~= strings_view(unknown@) + Seq::<Seq<char>>::empty());
    ConfReport { queue_size: size, unknown_keys: unknown, error: None }
}

} // verus!

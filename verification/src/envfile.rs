//! Parsing of the dotenv-style environment file: lines of `KEY=VALUE`,
//! surrounding whitespace ignored, optional surrounding quotes stripped
//! from the value, `#`-prefixed comment lines and blank lines skipped.
//! A later line for the same key overrides an earlier one. Reading the
//! file is the caller's business; loading it is best-effort and its
//! absence is not an error.

use vstd::prelude::*;
use crate::resolve::{EnvSnapshot, lookup, trim, trim_chars};
use crate::text::str_chars;
use crate::parse::copy_range;

verus! {

/// Position of the first `c` at or after `i`.
pub open spec fn find_at(s: Seq<char>, i: int, c: char) -> Option<int>
    decreases s.len() - i,
{
    if !(0 <= i < s.len()) {
        None
    } else if s[i] == c {
        Some(i)
    } else {
        find_at(s, i + 1, c)
    }
}

/// First position at or after `i` not holding `c`.
pub open spec fn skip_leading(s: Seq<char>, i: int, c: char) -> int
    decreases s.len() - i,
{
    if 0 <= i < s.len() && s[i] == c {
        skip_leading(s, i + 1, c)
    } else {
        i
    }
}

/// End index of the text once trailing copies of `c` are dropped.
pub open spec fn skip_trailing(s: Seq<char>, j: int, c: char) -> int
    decreases j,
{
    if 0 < j <= s.len() && s[j - 1] == c {
        skip_trailing(s, j - 1, c)
    } else {
        j
    }
}

/// The text with every leading and trailing copy of `c` dropped.
pub open spec fn strip_edges(s: Seq<char>, c: char) -> Seq<char> {
    let lo = skip_leading(s, 0, c);
    let hi = skip_trailing(s, s.len() as int, c);
    if 0 <= lo <= hi <= s.len() {
        s.subrange(lo, hi)
    } else {
        Seq::empty()
    }
}

/// The binding one line carries, if any: blank lines and `#` comments
/// carry none; otherwise the part before the first `=` is the key
/// (trimmed) and the part after it is the value (trimmed, then quotes
/// stripped). A line without `=` carries none.
pub open spec fn line_entry(line: Seq<char>) -> Option<(Seq<char>, Seq<char>)> {
    let t = trim(line);
    if t.len() == 0 {
        None
    } else if t[0] == '#' {
        None
    } else {
        match find_at(t, 0, '=') {
            None => None,
            Some(e) => {
                if 0 <= e <= t.len() {
                    let key = trim(t.subrange(0, e));
                    let raw = trim(t.subrange(e + 1, t.len() as int));
                    Some((key, strip_edges(strip_edges(raw, '"'), '\'')))
                } else {
                    None
                }
            },
        }
    }
}

/// Every binding in the file from position `i` on, in order, one line at
/// a time.
pub open spec fn spec_env_entries(s: Seq<char>, i: int) -> Seq<(Seq<char>, Seq<char>)>
    decreases s.len() - i,
{
    if !(0 <= i <= s.len()) {
        Seq::empty()
    } else {
        let j = match find_at(s, i, '\n') {
            Some(j) => j,
            None => s.len() as int,
        };
        if !(i <= j <= s.len()) {
            Seq::empty()
        } else {
            let line = s.subrange(i, j);
            let rest = if j + 1 <= s.len() {
                spec_env_entries(s, j + 1)
            } else {
                Seq::empty()
            };
            match line_entry(line) {
                None => rest,
                Some(ent) => seq![ent] + rest,
            }
        }
    }
}

fn find_at_exec(s: &Vec<char>, start: usize, c: char) -> (r: Option<usize>)
    requires
        start <= s@.len(),
    ensures
        (match (r, find_at(s@, start as int, c)) {
            (None, None) => true,
            (Some(a), Some(b)) => a as int == b && start <= a && a < s@.len(),
            _ => false,
        }),
{
    let mut i = start;
    while i < s.len()
        invariant
            start <= i <= s@.len(),
            find_at(s@, start as int, c) == find_at(s@, i as int, c),
        decreases s@.len() - i,
    {
        if s[i] == c {
            return Some(i);
        }
        i = i + 1;
    }
    None
}

fn skip_leading_exec(s: &Vec<char>, c: char) -> (r: usize)
    ensures
        r as int == skip_leading(s@, 0, c),
        r <= s@.len(),
{
    let mut i: usize = 0;
    while i < s.len()
        invariant
            i <= s@.len(),
            skip_leading(s@, 0, c) == skip_leading(s@, i as int, c),
        decreases s@.len() - i,
    {
        if s[i] != c {
            return i;
        }
        i = i + 1;
    }
    i
}

fn skip_trailing_exec(s: &Vec<char>, c: char) -> (r: usize)
    ensures
        r as int == skip_trailing(s@, s@.len() as int, c),
        r <= s@.len(),
{
    let mut j = s.len();
    while j > 0
        invariant
            j <= s@.len(),
            skip_trailing(s@, s@.len() as int, c) == skip_trailing(s@, j as int, c),
        decreases j,
    {
        if s[j - 1] != c {
            return j;
        }
        j = j - 1;
    }
    j
}

fn strip_edges_exec(s: &Vec<char>, c: char) -> (r: Vec<char>)
    ensures
        r@ == strip_edges(s@, c),
{
    let lo = skip_leading_exec(s, c);
    let hi = skip_trailing_exec(s, c);
    if lo <= hi {
        copy_range(s, lo, hi)
    } else {
        Vec::new()
    }
}

fn line_entry_exec(line: &Vec<char>) -> (r: Option<(Vec<char>, Vec<char>)>)
    ensures
        (match (r, line_entry(line@)) {
            (None, None) => true,
            (Some((k, v)), Some((sk, sv))) => k@ == sk && v@ == sv,
            _ => false,
        }),
{
    let t = trim_chars(line);
    if t.len() == 0 {
        return None;
    }
    if t[0] == '#' {
        return None;
    }
    match find_at_exec(&t, 0, '=') {
        None => None,
        Some(e) => {
            let before = copy_range(&t, 0, e);
            let key = trim_chars(&before);
            let after = copy_range(&t, e + 1, t.len());
            let raw = trim_chars(&after);
            let unquoted = strip_edges_exec(&raw, '"');
            let value = strip_edges_exec(&unquoted, '\'');
            Some((key, value))
        },
    }
}

/// Reads every binding in the file content into the snapshot, prepending
/// each in turn: the snapshot then holds the file's bindings newest-first,
/// in front of whatever it already held. Lookups take the first match, so
/// a later line for the same key overrides an earlier one, and every file
/// binding takes precedence over entries the caller appends afterwards
/// (the process environment).
pub fn load_env_file(content: &str, env: &mut EnvSnapshot)
    ensures
        final(env)@ == spec_env_entries(content@, 0).reverse() + old(env)@,
{
    let s = str_chars(content);
    let mut i: usize = 0;
    let ghost mut done: Seq<(Seq<char>, Seq<char>)> = Seq::empty();
    proof {
        assert(done + spec_env_entries(s@, 0) =~= spec_env_entries(s@, 0));
        assert(done.reverse() + old(env)@ =~= old(env)@);
    }
    loop
        invariant
            i <= s@.len(),
            s@ == content@,
            spec_env_entries(s@, 0) == done + spec_env_entries(s@, i as int),
            env@ == done.reverse() + old(env)@,
        decreases s@.len() - i + 1,
    {
        let ghost prev_done = done;
        let ghost prev_i = i as int;
        let j = match find_at_exec(&s, i, '\n') {
            Some(j) => j,
            None => s.len(),
        };
        let line = copy_range(&s, i, j);
        match line_entry_exec(&line) {
            None => {
            },
            Some((k, v)) => {
                proof {
                    done = done + seq![(k@, v@)];
                    assert(done.reverse() =~= seq![(k@, v@)] + prev_done.reverse());
                }
                env.add_entry_front(k, v);
            },
        }
        if j >= s.len() {
            proof {
                assert(spec_env_entries(s@, s@.len() as int).len() == 0) by {
                    assert(find_at(s@, s@.len() as int, '\n') is None);
                }
                assert(spec_env_entries(s@, prev_i) =~= spec_env_entries(s@, prev_i)
                    + spec_env_entries(s@, j as int + 1));
                assert(spec_env_entries(s@, 0) =~= done + Seq::<(
                    Seq<char>,
                    Seq<char>,
                )>::empty());
                assert(spec_env_entries(s@, 0) =~= done);
            }
            return ;
        }
        i = j + 1;
        proof {
            assert(prev_done + spec_env_entries(s@, prev_i) =~= done + spec_env_entries(
                s@,
                i as int,
            ));
        }
    }
}

/// Law: within one file a later line for a key overrides an earlier one.
/// The snapshot holds file bindings newest-first and lookups take the
/// first match, so the binding of the file's last line stands in front of
/// every earlier binding of the same name and is the one lookups see.
pub proof fn lemma_later_line_wins(
    entries: Seq<(Seq<char>, Seq<char>)>,
    rest: Seq<(Seq<char>, Seq<char>)>,
)
    requires
        entries.len() > 0,
    ensures
        lookup(entries.reverse() + rest, entries.last().0) == Some(entries.last().1),
{
    let whole = entries.reverse() + rest;
    assert(whole[0] == entries.last());
}

} // verus!

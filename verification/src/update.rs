//! The computational side of the template update: forming the
//! cache-busting fetch address from the current time, and the weak
//! validation of fetched template content. The fetch itself and the atomic
//! write are the caller's business.

use vstd::prelude::*;
use crate::num::{dec_text, u64_text};
use crate::text::{str_chars, chars_string};

verus! {

/// The cache-busting suffix for a fetch at the given time (seconds).
pub open spec fn cache_buster(ts: nat) -> Seq<char> {
    seq!['?', 't', '='] + dec_text(ts)
}

/// The fetch address: the source address with the cache-busting query
/// parameter appended.
pub fn with_cache_buster(url: &str, ts: u64) -> (r: String)
    ensures
        r@ == url@ + cache_buster(ts as nat),
{
    let mut out = str_chars(url);
    out.push('?');
    out.push('t');
    out.push('=');
    let mut digits = u64_text(ts);
    out.append(&mut digits);
    proof {
        assert(out@ =~= url@ + cache_buster(ts as nat));
    }
    chars_string(&out)
}

/// The marker whose presence marks fetched content as a plausible
/// configuration template.
pub open spec fn config_marker() -> Seq<char> {
    seq!['i', 'n', 'b', 'o', 'u', 'n', 'd', 's']
}

/// The pattern occurs somewhere in the text.
pub open spec fn contains_seq(s: Seq<char>, pat: Seq<char>) -> bool {
    exists|i: int|
        0 <= i && i + pat.len() <= s.len() && #[trigger] s.subrange(i, i + pat.len() as int)
            == pat
}

fn match_at(s: &Vec<char>, pat: &Vec<char>, i: usize) -> (r: bool)
    requires
        i + pat@.len() <= s@.len(),
    ensures
        r == (s@.subrange(i as int, i as int + pat@.len() as int) == pat@),
{
    let n = s.len();
    let mut p: usize = 0;
    while p < pat.len()
        invariant
            p <= pat@.len(),
            i + pat@.len() <= s@.len(),
            n == s@.len(),
            forall|q: int| 0 <= q < p ==> s@[i + q] == pat@[q],
        decreases pat@.len() - p,
    {
        if s[i + p] != pat[p] {
            proof {
                assert(s@.subrange(i as int, i as int + pat@.len() as int)[p as int] == s@[i
                    + p]);
            }
            return false;
        }
        p = p + 1;
    }
    proof {
        assert(s@.subrange(i as int, i as int + pat@.len() as int) =~= pat@);
    }
    true
}

fn contains_chars(s: &Vec<char>, pat: &Vec<char>) -> (r: bool)
    requires
        pat@.len() >= 1,
    ensures
        r == contains_seq(s@, pat@),
{
    if pat.len() > s.len() {
        proof {
            assert(!contains_seq(s@, pat@));
        }
        return false;
    }
    let last = s.len() - pat.len();
    let mut i: usize = 0;
    while i <= last
        invariant
            last == s@.len() - pat@.len(),
            pat@.len() >= 1,
            s@.len() <= usize::MAX,
            i <= last + 1,
            forall|j: int|
                0 <= j < i ==> #[trigger] s@.subrange(j, j + pat@.len() as int) != pat@,
        decreases last + 1 - i,
    {
        if match_at(s, pat, i) {
            proof {
                assert(contains_seq(s@, pat@)) by {
                    assert(0 <= i as int && i as int + pat@.len() <= s@.len() && s@.subrange(
                        i as int,
                        i as int + pat@.len() as int,
                    ) == pat@);
                }
            }
            return true;
        }
        i = i + 1;
    }
    proof {
        assert forall|j: int| !(0 <= j && j + pat@.len() <= s@.len() && #[trigger] s@.subrange(
            j,
            j + pat@.len() as int,
        ) == pat@) by {
            if 0 <= j && j + pat@.len() <= s@.len() {
                assert(j < i);
            }
        }
    }
    false
}

/// The weak heuristic on fetched template content: it must hold the
/// expected marker substring before it is written over the destination.
pub fn template_looks_valid(s: &str) -> (r: bool)
    ensures
        r == contains_seq(s@, config_marker()),
{
    let cs = str_chars(s);
    let mut pat: Vec<char> = Vec::new();
    pat.push('i');
    pat.push('n');
    pat.push('b');
    pat.push('o');
    pat.push('u');
    pat.push('n');
    pat.push('d');
    pat.push('s');
    proof {
        assert(pat@ =~= config_marker());
    }
    contains_chars(&cs, &pat)
}

} // verus!

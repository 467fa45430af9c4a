//! Decimal text: formatting the persisted process id (and the
//! cache-busting timestamp), and reading a process id back from record
//! text.

use vstd::prelude::*;
use crate::parse::is_digit;
use crate::resolve::trim;
use crate::resolve::trim_chars;
use crate::text::{str_chars, chars_string};

verus! {

/// The decimal digit character for a value below ten.
pub open spec fn dec_digit(d: int) -> char {
    (48 + d) as char
}

/// The decimal text of a number, most significant digit first.
pub open spec fn dec_text(n: nat) -> Seq<char>
    decreases n,
{
    if n < 10 {
        seq![dec_digit(n as int)]
    } else {
        dec_text(n / 10) + seq![dec_digit((n % 10) as int)]
    }
}

fn dec_digit_exec(d: u64) -> (r: char)
    requires
        d < 10,
    ensures
        r == dec_digit(d as int),
{
    if d == 0 {
        '0'
    } else if d == 1 {
        '1'
    } else if d == 2 {
        '2'
    } else if d == 3 {
        '3'
    } else if d == 4 {
        '4'
    } else if d == 5 {
        '5'
    } else if d == 6 {
        '6'
    } else if d == 7 {
        '7'
    } else if d == 8 {
        '8'
    } else {
        '9'
    }
}

/// The decimal text of a number.
pub fn u64_text(n: u64) -> (r: Vec<char>)
    ensures
        r@ == dec_text(n as nat),
    decreases n,
{
    if n < 10 {
        let mut v: Vec<char> = Vec::new();
        v.push(dec_digit_exec(n));
        proof {
            assert(v@ =~= dec_text(n as nat));
        }
        v
    } else {
        let mut v = u64_text(n / 10);
        v.push(dec_digit_exec(n % 10));
        proof {
            assert(v@ =~= dec_text((n / 10) as nat) + seq![dec_digit((n % 10) as int)]);
        }
        v
    }
}

/// The record's content for a spawned process: its decimal id as plain
/// text, nothing more.
pub fn pid_record_text(pid: u32) -> (r: String)
    ensures
        r@ == dec_text(pid as nat),
{
    let v = u64_text(pid as u64);
    chars_string(&v)
}

/// Ten to the given power.
pub open spec fn pow10(n: nat) -> int
    decreases n,
{
    if n == 0 {
        1
    } else {
        10 * pow10((n - 1) as nat)
    }
}

/// The value of a digit string, most significant digit first.
pub open spec fn dec_val(s: Seq<char>) -> int
    decreases s.len(),
{
    if s.len() == 0 {
        0
    } else {
        dec_val(s.drop_last()) * 10 + (s.last() as int - 48)
    }
}

/// Every character is a decimal digit.
pub open spec fn all_digits(s: Seq<char>) -> bool {
    forall|k: int| 0 <= k < s.len() ==> is_digit(s[k])
}

/// The process id read from record text: surrounding whitespace ignored;
/// what is left must be plain decimal digits — at most ten of them, with a
/// value that fits — and nothing else.
pub open spec fn spec_parse_pid(s: Seq<char>) -> Option<i32> {
    let t = trim(s);
    if 1 <= t.len() <= 10 && all_digits(t) && dec_val(t) <= i32::MAX as int {
        Some(dec_val(t) as i32)
    } else {
        None
    }
}

proof fn lemma_pow10_pos(n: nat)
    ensures
        pow10(n) >= 1,
    decreases n,
{
    if n > 0 {
        lemma_pow10_pos((n - 1) as nat);
    }
}

proof fn lemma_pow10_le(a: nat, b: nat)
    requires
        a <= b,
    ensures
        pow10(a) <= pow10(b),
    decreases b,
{
    if a < b {
        lemma_pow10_le(a, (b - 1) as nat);
        lemma_pow10_pos((b - 1) as nat);
    }
}

proof fn lemma_dec_val_nonneg(s: Seq<char>)
    requires
        all_digits(s),
    ensures
        0 <= dec_val(s),
    decreases s.len(),
{
    if s.len() > 0 {
        assert(all_digits(s.drop_last())) by {
            assert(forall|k: int|
                0 <= k < s.len() - 1 ==> s.drop_last()[k] == s[k] && is_digit(s[k]));
        }
        lemma_dec_val_nonneg(s.drop_last());
        assert(is_digit(s[s.len() - 1]));
    }
}

/// Reads a process id from record text.
pub fn parse_pid(s: &str) -> (r: Option<i32>)
    ensures
        r == spec_parse_pid(s@),
{
    let cs = str_chars(s);
    let t = trim_chars(&cs);
    if t.len() == 0 || t.len() > 10 {
        return None;
    }
    let mut acc: u64 = 0;
    let mut i: usize = 0;
    proof {
        assert(t@.subrange(0, 0) =~= Seq::<char>::empty());
        lemma_pow10_pos(0);
    }
    while i < t.len()
        invariant
            t@ == trim(s@),
            i <= t@.len() <= 10,
            all_digits(t@.subrange(0, i as int)),
            (acc as int) == dec_val(t@.subrange(0, i as int)),
            (acc as int) < pow10(i as nat),
        decreases t@.len() - i,
    {
        let c = t[i];
        if !('0' <= c && c <= '9') {
            proof {
                assert(!is_digit(t@[i as int]));
                assert(!all_digits(t@)) by {
                    assert(0 <= i < t@.len() && !is_digit(t@[i as int]));
                }
            }
            return None;
        }
        let d = (c as u32) as u64 - 48;
        proof {
            lemma_pow10_le(i as nat, 9);
            reveal_with_fuel(pow10, 11);
            assert(pow10(9) == 1000000000);
            assert(acc * 10 + d < pow10((i + 1) as nat));
        }
        acc = acc * 10 + d;
        proof {
            assert(t@.subrange(0, i as int + 1).drop_last() =~= t@.subrange(0, i as int));
            assert(t@.subrange(0, i as int + 1).last() == t@[i as int]);
            assert(all_digits(t@.subrange(0, i as int + 1))) by {
                assert(forall|k: int|
                    0 <= k < i + 1 ==> t@.subrange(0, i as int + 1)[k] == t@[k]);
            }
        }
        i = i + 1;
    }
    proof {
        assert(t@.subrange(0, i as int) =~= t@);
    }
    if acc <= 2147483647u64 {
        Some(acc as i32)
    } else {
        None
    }
}

} // verus!

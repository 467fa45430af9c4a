//! Removal of `//` line comments and `/* ... */` block comments from raw
//! template text, respecting quoted-string boundaries: a comment opener that
//! stands inside a quoted string is ordinary content and is copied verbatim.
//!
//! The pass is a single left-to-right scan with two pieces of state: whether
//! the scan stands inside a quoted string, and whether the previous character
//! was an unconsumed escape. An unterminated block comment silently consumes
//! the rest of the input; that is a defined edge case, not an error.

use vstd::prelude::*;
use crate::text::{chars_string, str_chars};

verus! {

/// Index of the newline that ends a line comment whose body starts at `i`
/// (the newline itself is not part of the comment), or the input's length
/// when the comment runs to the end of the input.
pub open spec fn line_comment_end(s: Seq<char>, i: nat) -> nat
    decreases s.len() - i,
{
    if i >= s.len() {
        s.len()
    } else if s[i as int] == '\n' {
        i
    } else {
        line_comment_end(s, i + 1)
    }
}

/// Index just past the `*/` that closes a block comment whose body starts at
/// `i`, or the input's length when the comment is unterminated.
pub open spec fn block_comment_end(s: Seq<char>, i: nat) -> nat
    decreases s.len() - i,
{
    if i >= s.len() {
        s.len()
    } else if s[i as int] == '*' && i + 1 < s.len() && s[i as int + 1] == '/' {
        i + 2
    } else {
        block_comment_end(s, i + 1)
    }
}

/// What the scan emits from position `i` onward while outside any quoted
/// string. The inner `i < j <= s.len()` guards only rule recursion
/// termination in; they always hold (see `lemma_line_comment_end`,
/// `lemma_block_comment_end`).
pub open spec fn strip_norm(s: Seq<char>, i: nat) -> Seq<char>
    decreases s.len() - i,
{
    if i >= s.len() {
        Seq::empty()
    } else {
        let c = s[i as int];
        if c == '/' && i + 1 < s.len() && s[i as int + 1] == '/' {
            let j = line_comment_end(s, i + 2);
            if i < j <= s.len() {
                strip_norm(s, j)
            } else {
                Seq::empty()
            }
        } else if c == '/' && i + 1 < s.len() && s[i as int + 1] == '*' {
            let j = block_comment_end(s, i + 2);
            if i < j <= s.len() {
                strip_norm(s, j)
            } else {
                Seq::empty()
            }
        } else if c == '"' {
            seq!['"'] + strip_quote(s, i + 1, false)
        } else {
            seq![c] + strip_norm(s, i + 1)
        }
    }
}

/// What the scan emits from position `i` onward while inside a quoted string;
/// `esc` says that the previous character was an unconsumed backslash. Every
/// character is copied verbatim.
pub open spec fn strip_quote(s: Seq<char>, i: nat, esc: bool) -> Seq<char>
    decreases s.len() - i,
{
    if i >= s.len() {
        Seq::empty()
    } else {
        let c = s[i as int];
        if esc {
            seq![c] + strip_quote(s, i + 1, false)
        } else if c == '\\' {
            seq![c] + strip_quote(s, i + 1, true)
        } else if c == '"' {
            seq![c] + strip_norm(s, i + 1)
        } else {
            seq![c] + strip_quote(s, i + 1, false)
        }
    }
}

/// The comment-stripped form of a whole input.
pub open spec fn spec_strip(s: Seq<char>) -> Seq<char> {
    strip_norm(s, 0)
}

/// Holds when no `//` or `/*` opener stands outside a quoted string from
/// position `i` onward (scanning in normal mode).
pub open spec fn comment_free_norm(s: Seq<char>, i: nat) -> bool
    decreases s.len() - i,
{
    if i >= s.len() {
        true
    } else {
        let c = s[i as int];
        if c == '/' && i + 1 < s.len() && (s[i as int + 1] == '/' || s[i as int + 1] == '*') {
            false
        } else if c == '"' {
            comment_free_quote(s, i + 1, false)
        } else {
            comment_free_norm(s, i + 1)
        }
    }
}

/// As `comment_free_norm`, scanning from inside a quoted string.
pub open spec fn comment_free_quote(s: Seq<char>, i: nat, esc: bool) -> bool
    decreases s.len() - i,
{
    if i >= s.len() {
        true
    } else {
        let c = s[i as int];
        if esc {
            comment_free_quote(s, i + 1, false)
        } else if c == '\\' {
            comment_free_quote(s, i + 1, true)
        } else if c == '"' {
            comment_free_norm(s, i + 1)
        } else {
            comment_free_quote(s, i + 1, false)
        }
    }
}

/// The input holds no comment at all.
pub open spec fn comment_free(s: Seq<char>) -> bool {
    comment_free_norm(s, 0)
}

proof fn lemma_strip_norm_clean(s: Seq<char>, i: nat)
    requires
        i <= s.len(),
        comment_free_norm(s, i),
    ensures
        strip_norm(s, i) == s.subrange(i as int, s.len() as int),
    decreases s.len() - i,
{
    if i >= s.len() {
        assert(strip_norm(s, i) =~= s.subrange(i as int, s.len() as int));
    } else {
        let c = s[i as int];
        if c == '"' {
            lemma_strip_quote_clean(s, i + 1, false);
        } else {
            lemma_strip_norm_clean(s, i + 1);
        }
        assert(strip_norm(s, i) =~= s.subrange(i as int, s.len() as int));
    }
}

proof fn lemma_strip_quote_clean(s: Seq<char>, i: nat, esc: bool)
    requires
        i <= s.len(),
        comment_free_quote(s, i, esc),
    ensures
        strip_quote(s, i, esc) == s.subrange(i as int, s.len() as int),
    decreases s.len() - i,
{
    if i >= s.len() {
        assert(strip_quote(s, i, esc) =~= s.subrange(i as int, s.len() as int));
    } else {
        let c = s[i as int];
        if esc {
            lemma_strip_quote_clean(s, i + 1, false);
        } else if c == '\\' {
            lemma_strip_quote_clean(s, i + 1, true);
        } else if c == '"' {
            lemma_strip_norm_clean(s, i + 1);
        } else {
            lemma_strip_quote_clean(s, i + 1, false);
        }
        assert(strip_quote(s, i, esc) =~= s.subrange(i as int, s.len() as int));
    }
}

/// Law: comment stripping is a fixed point on comment-free input — an input
/// with no comments outside quoted strings comes back unchanged.
pub proof fn lemma_strip_fixed_point(s: Seq<char>)
    requires
        comment_free(s),
    ensures
        spec_strip(s) == s,
{
    lemma_strip_norm_clean(s, 0);
    assert(s.subrange(0, s.len() as int) =~= s);
}

/// Index just past the quote that closes a quoted string whose content starts
/// at `i`, or the input's length when the string is unterminated.
pub open spec fn quote_end(s: Seq<char>, i: nat, esc: bool) -> nat
    decreases s.len() - i,
{
    if i >= s.len() {
        s.len()
    } else if esc {
        quote_end(s, i + 1, false)
    } else if s[i as int] == '\\' {
        quote_end(s, i + 1, true)
    } else if s[i as int] == '"' {
        i + 1
    } else {
        quote_end(s, i + 1, false)
    }
}

pub proof fn lemma_quote_end_bounds(s: Seq<char>, i: nat, esc: bool)
    requires
        i <= s.len(),
    ensures
        i <= quote_end(s, i, esc) <= s.len(),
    decreases s.len() - i,
{
    if i < s.len() {
        if esc {
            lemma_quote_end_bounds(s, i + 1, false);
        } else if s[i as int] == '\\' {
            lemma_quote_end_bounds(s, i + 1, true);
        } else if s[i as int] != '"' {
            lemma_quote_end_bounds(s, i + 1, false);
        }
    }
}

/// Law: quoted-string content — including substrings that look like `//` or
/// `/*` — is copied verbatim: from a position inside a quoted string the scan
/// emits every character up to and including the closing quote unchanged, and
/// resumes normal scanning after it.
pub proof fn lemma_quote_verbatim(s: Seq<char>, i: nat, esc: bool)
    requires
        i <= s.len(),
    ensures
        strip_quote(s, i, esc) == s.subrange(i as int, quote_end(s, i, esc) as int)
            + strip_norm(s, quote_end(s, i, esc)),
    decreases s.len() - i,
{
    lemma_quote_end_bounds(s, i, esc);
    if i >= s.len() {
        assert(strip_quote(s, i, esc) =~= s.subrange(i as int, quote_end(s, i, esc) as int)
            + strip_norm(s, quote_end(s, i, esc)));
    } else {
        let c = s[i as int];
        let qe = quote_end(s, i, esc);
        if !esc && c == '"' {
            assert(strip_quote(s, i, esc) =~= s.subrange(i as int, qe as int) + strip_norm(
                s,
                qe,
            ));
        } else {
            if esc {
                lemma_quote_verbatim(s, i + 1, false);
            } else if c == '\\' {
                lemma_quote_verbatim(s, i + 1, true);
            } else {
                lemma_quote_verbatim(s, i + 1, false);
            }
            assert(qe >= i + 1) by {
                lemma_quote_end_bounds(s, i + 1, esc_after(s, i, esc));
            }
            assert(s.subrange(i as int, qe as int) =~= seq![c] + s.subrange(
                i as int + 1,
                qe as int,
            ));
            assert(strip_quote(s, i, esc) =~= s.subrange(i as int, qe as int) + strip_norm(
                s,
                qe,
            ));
        }
    }
}

/// The escape flag after one in-quote scan step at a non-closing position.
spec fn esc_after(s: Seq<char>, i: nat, esc: bool) -> bool {
    !esc && s[i as int] == '\\'
}

pub proof fn lemma_line_comment_end(s: Seq<char>, i: nat)
    requires
        i <= s.len(),
    ensures
        i <= line_comment_end(s, i) <= s.len(),
    decreases s.len() - i,
{
    if i < s.len() && s[i as int] != '\n' {
        lemma_line_comment_end(s, i + 1);
    }
}

pub proof fn lemma_block_comment_end(s: Seq<char>, i: nat)
    requires
        i <= s.len(),
    ensures
        i <= block_comment_end(s, i) <= s.len(),
    decreases s.len() - i,
{
    if i < s.len() && !(s[i as int] == '*' && i + 1 < s.len() && s[i as int + 1] == '/') {
        lemma_block_comment_end(s, i + 1);
    }
}

fn line_comment_end_exec(s: &Vec<char>, start: usize) -> (r: usize)
    requires
        start <= s@.len(),
    ensures
        r == line_comment_end(s@, start as nat),
        start <= r <= s@.len(),
{
    let mut i = start;
    while i < s.len()
        invariant
            start <= i <= s@.len(),
            line_comment_end(s@, start as nat) == line_comment_end(s@, i as nat),
        decreases s@.len() - i,
    {
        if s[i] == '\n' {
            return i;
        }
        i = i + 1;
    }
    i
}

fn block_comment_end_exec(s: &Vec<char>, start: usize) -> (r: usize)
    requires
        start <= s@.len(),
    ensures
        r == block_comment_end(s@, start as nat),
        start <= r <= s@.len(),
{
    let mut i = start;
    while i < s.len()
        invariant
            start <= i <= s@.len(),
            block_comment_end(s@, start as nat) == block_comment_end(s@, i as nat),
        decreases s@.len() - i,
    {
        if s[i] == '*' && i + 1 < s.len() && s[i + 1] == '/' {
            return i + 2;
        }
        i = i + 1;
    }
    i
}

/// One scan step state: outside any quoted string, or inside one with the
/// escape flag.
enum StripMode {
    Norm,
    Quote { esc: bool },
}

/// What the scan still owes from position `i` in the given mode.
spec fn strip_rest(s: Seq<char>, i: nat, mode: StripMode) -> Seq<char> {
    match mode {
        StripMode::Norm => strip_norm(s, i),
        StripMode::Quote { esc } => strip_quote(s, i, esc),
    }
}

/// Strips `//` line comments and `/* ... */` block comments from the input,
/// copying quoted-string content verbatim.
pub fn strip_comments(input: &str) -> (r: String)
    ensures
        r@ == spec_strip(input@),
{
    let s = str_chars(input);
    let mut out: Vec<char> = Vec::new();
    let mut i: usize = 0;
    let mut mode = StripMode::Norm;
    while i < s.len()
        invariant
            i <= s@.len(),
            out@ + strip_rest(s@, i as nat, mode) == strip_norm(s@, 0),
            s@ == input@,
        decreases s@.len() - i,
    {
        let ghost prev_i = i as nat;
        let ghost prev_mode = mode;
        let ghost prev_out = out@;
        let c = s[i];
        match mode {
            StripMode::Norm => {
                if c == '/' && i + 1 < s.len() && s[i + 1] == '/' {
                    proof {
                        lemma_line_comment_end(s@, i as nat + 2);
                    }
                    i = line_comment_end_exec(&s, i + 2);
                } else if c == '/' && i + 1 < s.len() && s[i + 1] == '*' {
                    proof {
                        lemma_block_comment_end(s@, i as nat + 2);
                    }
                    i = block_comment_end_exec(&s, i + 2);
                } else {
                    out.push(c);
                    if c == '"' {
                        mode = StripMode::Quote { esc: false };
                    }
                    i = i + 1;
                }
            },
            StripMode::Quote { esc } => {
                out.push(c);
                if esc {
                    mode = StripMode::Quote { esc: false };
                } else if c == '\\' {
                    mode = StripMode::Quote { esc: true };
                } else if c == '"' {
                    mode = StripMode::Norm;
                } else {
                    mode = StripMode::Quote { esc: false };
                }
                i = i + 1;
            },
        }
        proof {
            assert(prev_out + strip_rest(s@, prev_i, prev_mode) =~= out@ + strip_rest(
                s@,
                i as nat,
                mode,
            ));
        }
    }
    proof {
        assert(out@ + strip_rest(s@, i as nat, mode) =~= out@);
    }
    chars_string(&out)
}

} // verus!

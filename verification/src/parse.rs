//! A parser for the JSON-like document language that templates and looked-up
//! environment values are written in: objects, arrays, strings with the usual
//! escapes, numbers (kept as their literal token text), `true`, `false`,
//! `null`, separated by optional whitespace.
//!
//! The specification functions below define the grammar; the executable
//! parser is proved to return exactly what they say. Positions travel with
//! every partial result: a parse function consumes input from its start
//! position and reports the position just past what it consumed. The inner
//! `j > i` guards only rule recursion termination in; a successful partial
//! parse always moves forward.

use vstd::prelude::*;
use crate::json::{Json, JsonV, json_view, json_view_items, json_view_members,
    lemma_view_items_cons, lemma_view_members_cons};
use crate::text::{char_from_u32, str_chars};

verus! {

pub open spec fn is_ws(c: char) -> bool {
    c == ' ' || c == '\t' || c == '\n' || c == '\r'
}

pub open spec fn is_digit(c: char) -> bool {
    '0' <= c && c <= '9'
}

/// First position at or after `i` holding a non-whitespace character.
pub open spec fn skip_ws(s: Seq<char>, i: int) -> int
    decreases s.len() - i,
{
    if 0 <= i < s.len() && is_ws(s[i]) {
        skip_ws(s, i + 1)
    } else {
        i
    }
}

/// First position at or after `i` holding a non-digit character.
pub open spec fn skip_digits(s: Seq<char>, i: int) -> int
    decreases s.len() - i,
{
    if 0 <= i < s.len() && is_digit(s[i]) {
        skip_digits(s, i + 1)
    } else {
        i
    }
}

/// End position of a number token starting at `i`: an optional minus sign,
/// an integer part without leading zeros, an optional fraction, an optional
/// exponent. `None` when no well-formed number starts at `i`.
pub open spec fn num_end(s: Seq<char>, i: int) -> Option<int> {
    if !(0 <= i < s.len()) {
        None
    } else {
        let j = if s[i] == '-' {
            i + 1
        } else {
            i
        };
        if !(j < s.len() && is_digit(s[j])) {
            None
        } else {
            let k = if s[j] == '0' {
                j + 1
            } else {
                skip_digits(s, j)
            };
            match frac_end(s, k) {
                None => None,
                Some(f) => exp_end(s, f),
            }
        }
    }
}

/// End position of the optional fraction part starting at `k`.
pub open spec fn frac_end(s: Seq<char>, k: int) -> Option<int> {
    if 0 <= k < s.len() && s[k] == '.' {
        let d = skip_digits(s, k + 1);
        if d == k + 1 {
            None
        } else {
            Some(d)
        }
    } else {
        Some(k)
    }
}

/// End position of the optional exponent part starting at `f`.
pub open spec fn exp_end(s: Seq<char>, f: int) -> Option<int> {
    if 0 <= f < s.len() && (s[f] == 'e' || s[f] == 'E') {
        let g = if f + 1 < s.len() && (s[f + 1] == '+' || s[f + 1] == '-') {
            f + 2
        } else {
            f + 1
        };
        let d = skip_digits(s, g);
        if d == g {
            None
        } else {
            Some(d)
        }
    } else {
        Some(f)
    }
}

/// The numeric value of a hexadecimal digit.
pub open spec fn hex_val(c: char) -> Option<u32> {
    if '0' <= c && c <= '9' {
        Some((((c as u32) - ('0' as u32)) as u32))
    } else if 'a' <= c && c <= 'f' {
        Some((((c as u32) - ('a' as u32) + 10) as u32))
    } else if 'A' <= c && c <= 'F' {
        Some((((c as u32) - ('A' as u32) + 10) as u32))
    } else {
        None
    }
}

/// The code unit written by the four hexadecimal digits at `i .. i + 4`.
pub open spec fn hex4(s: Seq<char>, i: int) -> Option<u32> {
    if 0 <= i && i + 4 <= s.len() {
        match (hex_val(s[i]), hex_val(s[i + 1]), hex_val(s[i + 2]), hex_val(s[i + 3])) {
            (Some(a), Some(b), Some(c), Some(d)) => Some(
                ((a * 4096 + b * 256 + c * 16 + d) as u32),
            ),
            _ => None,
        }
    } else {
        None
    }
}

/// The character written by the escape whose body starts at `i` (just past
/// the backslash), with the position just past it. A `\u` escape carrying a
/// high surrogate must be followed by a `\u` escape carrying a low
/// surrogate; a lone surrogate is rejected.
pub open spec fn esc_char(s: Seq<char>, i: int) -> Option<(char, int)> {
    if !(0 <= i < s.len()) {
        None
    } else {
        let c = s[i];
        if c == '"' {
            Some(('"', i + 1))
        } else if c == '\\' {
            Some(('\\', i + 1))
        } else if c == '/' {
            Some(('/', i + 1))
        } else if c == 'b' {
            Some(('\u{8}', i + 1))
        } else if c == 'f' {
            Some(('\u{c}', i + 1))
        } else if c == 'n' {
            Some(('\n', i + 1))
        } else if c == 'r' {
            Some(('\r', i + 1))
        } else if c == 't' {
            Some(('\t', i + 1))
        } else if c == 'u' {
            match hex4(s, i + 1) {
                None => None,
                Some(hi) => {
                    if 0xD800 <= hi && hi <= 0xDBFF {
                        if i + 7 <= s.len() && s[i + 5] == '\\' && s[i + 6] == 'u' {
                            match hex4(s, i + 7) {
                                None => None,
                                Some(lo) => {
                                    if 0xDC00 <= lo && lo <= 0xDFFF {
                                        Some(
                                            (
                                                ((0x10000 + (hi - 0xD800) * 0x400 + (lo
                                                    - 0xDC00)) as u32) as char,
                                                i + 11,
                                            ),
                                        )
                                    } else {
                                        None
                                    }
                                },
                            }
                        } else {
                            None
                        }
                    } else if 0xDC00 <= hi && hi <= 0xDFFF {
                        None
                    } else {
                        Some((hi as char, i + 5))
                    }
                },
            }
        } else {
            None
        }
    }
}

/// The decoded content of a string literal whose content starts at `i`, with
/// the position just past the closing quote. Raw control characters are
/// rejected; an unterminated literal fails.
pub open spec fn p_chars(s: Seq<char>, i: int) -> Option<(Seq<char>, int)>
    decreases s.len() - i,
{
    if !(0 <= i < s.len()) {
        None
    } else {
        let c = s[i];
        if c == '"' {
            Some((Seq::empty(), i + 1))
        } else if c == '\\' {
            match esc_char(s, i + 1) {
                None => None,
                Some((ec, j)) => {
                    if i < j <= s.len() {
                        match p_chars(s, j) {
                            None => None,
                            Some((rest, k)) => Some((seq![ec] + rest, k)),
                        }
                    } else {
                        None
                    }
                },
            }
        } else if (c as u32) < 32 {
            None
        } else {
            match p_chars(s, i + 1) {
                None => None,
                Some((rest, k)) => Some((seq![c] + rest, k)),
            }
        }
    }
}

/// A value starting exactly at `i`, with the position just past it.
pub open spec fn p_value(s: Seq<char>, i: int) -> Option<(JsonV, int)>
    decreases s.len() - i, 0int,
{
    if !(0 <= i < s.len()) {
        None
    } else {
        let c = s[i];
        if c == '"' {
            match p_chars(s, i + 1) {
                None => None,
                Some((text, j)) => Some((JsonV::Str(text), j)),
            }
        } else if c == '[' {
            let j = skip_ws(s, i + 1);
            if j < s.len() && s[j] == ']' {
                Some((JsonV::Arr(Seq::empty()), j + 1))
            } else if i < j <= s.len() {
                match p_items(s, j) {
                    None => None,
                    Some((items, k)) => Some((JsonV::Arr(items), k)),
                }
            } else {
                None
            }
        } else if c == '{' {
            let j = skip_ws(s, i + 1);
            if j < s.len() && s[j] == '}' {
                Some((JsonV::Obj(Seq::empty()), j + 1))
            } else if i < j <= s.len() {
                match p_members(s, j) {
                    None => None,
                    Some((members, k)) => Some((JsonV::Obj(members), k)),
                }
            } else {
                None
            }
        } else if c == 't' {
            if i + 4 <= s.len() && s[i + 1] == 'r' && s[i + 2] == 'u' && s[i + 3] == 'e' {
                Some((JsonV::Bool(true), i + 4))
            } else {
                None
            }
        } else if c == 'f' {
            if i + 5 <= s.len() && s[i + 1] == 'a' && s[i + 2] == 'l' && s[i + 3] == 's' && s[i
                + 4] == 'e' {
                Some((JsonV::Bool(false), i + 5))
            } else {
                None
            }
        } else if c == 'n' {
            if i + 4 <= s.len() && s[i + 1] == 'u' && s[i + 2] == 'l' && s[i + 3] == 'l' {
                Some((JsonV::Null, i + 4))
            } else {
                None
            }
        } else if c == '-' || is_digit(c) {
            match num_end(s, i) {
                None => None,
                Some(e) => Some((JsonV::Num(s.subrange(i, e)), e)),
            }
        } else {
            None
        }
    }
}

/// The elements of a non-empty array body whose first element starts exactly
/// at `i`, with the position just past the closing bracket.
pub open spec fn p_items(s: Seq<char>, i: int) -> Option<(Seq<JsonV>, int)>
    decreases s.len() - i, 1int,
{
    match p_value(s, i) {
        None => None,
        Some((v, j)) => {
            let w = skip_ws(s, j);
            if !(0 <= w < s.len()) {
                None
            } else if s[w] == ']' {
                Some((seq![v], w + 1))
            } else if s[w] == ',' {
                let n = skip_ws(s, w + 1);
                if i < n <= s.len() {
                    match p_items(s, n) {
                        None => None,
                        Some((rest, k)) => Some((seq![v] + rest, k)),
                    }
                } else {
                    None
                }
            } else {
                None
            }
        },
    }
}

/// The members of a non-empty object body whose first key starts exactly at
/// `i`, with the position just past the closing brace. Keys are kept in
/// order and are not deduplicated.
pub open spec fn p_members(s: Seq<char>, i: int) -> Option<(Seq<(Seq<char>, JsonV)>, int)>
    decreases s.len() - i, 1int,
{
    if !(0 <= i < s.len() && s[i] == '"') {
        None
    } else {
        match p_chars(s, i + 1) {
            None => None,
            Some((key, j)) => {
                let w = skip_ws(s, j);
                if !(0 <= w < s.len() && s[w] == ':') {
                    None
                } else {
                    let x = skip_ws(s, w + 1);
                    if i < x <= s.len() {
                        match p_value(s, x) {
                            None => None,
                            Some((v, k)) => {
                                let y = skip_ws(s, k);
                                if !(0 <= y < s.len()) {
                                    None
                                } else if s[y] == '}' {
                                    Some((seq![(key, v)], y + 1))
                                } else if s[y] == ',' {
                                    let n = skip_ws(s, y + 1);
                                    if i < n <= s.len() {
                                        match p_members(s, n) {
                                            None => None,
                                            Some((rest, k2)) => Some(
                                                (seq![(key, v)] + rest, k2),
                                            ),
                                        }
                                    } else {
                                        None
                                    }
                                } else {
                                    None
                                }
                            },
                        }
                    } else {
                        None
                    }
                }
            },
        }
    }
}

/// The document written by the whole input: one value, surrounded by
/// optional whitespace, reaching exactly to the end of the input.
pub open spec fn spec_parse(s: Seq<char>) -> Option<JsonV> {
    match p_value(s, skip_ws(s, 0)) {
        None => None,
        Some((v, j)) => {
            if skip_ws(s, j) == s.len() {
                Some(v)
            } else {
                None
            }
        },
    }
}

pub(crate) fn skip_ws_exec(s: &Vec<char>, start: usize) -> (r: usize)
    requires
        start <= s@.len(),
    ensures
        r as int == skip_ws(s@, start as int),
        start <= r <= s@.len(),
    decreases s@.len() - start,
{
    let mut i = start;
    while i < s.len()
        invariant
            start <= i <= s@.len(),
            skip_ws(s@, start as int) == skip_ws(s@, i as int),
        decreases s@.len() - i,
    {
        if !(s[i] == ' ' || s[i] == '\t' || s[i] == '\n' || s[i] == '\r') {
            return i;
        }
        i = i + 1;
    }
    i
}

fn skip_digits_exec(s: &Vec<char>, start: usize) -> (r: usize)
    requires
        start <= s@.len(),
    ensures
        r as int == skip_digits(s@, start as int),
        start <= r <= s@.len(),
    decreases s@.len() - start,
{
    let mut i = start;
    while i < s.len()
        invariant
            start <= i <= s@.len(),
            skip_digits(s@, start as int) == skip_digits(s@, i as int),
        decreases s@.len() - i,
    {
        if !('0' <= s[i] && s[i] <= '9') {
            return i;
        }
        i = i + 1;
    }
    i
}

pub proof fn lemma_skip_digits_bounds(s: Seq<char>, i: int)
    requires
        0 <= i <= s.len(),
    ensures
        i <= skip_digits(s, i) <= s.len(),
    decreases s.len() - i,
{
    if i < s.len() && is_digit(s[i]) {
        lemma_skip_digits_bounds(s, i + 1);
    }
}

fn num_end_exec(s: &Vec<char>, i: usize) -> (r: Option<usize>)
    requires
        i <= s@.len(),
    ensures
        (match (r, num_end(s@, i as int)) {
            (None, None) => true,
            (Some(a), Some(b)) => a as int == b && i < a <= s@.len(),
            _ => false,
        }),
{
    if i >= s.len() {
        return None;
    }
    let j = if s[i] == '-' {
        i + 1
    } else {
        i
    };
    if !(j < s.len() && '0' <= s[j] && s[j] <= '9') {
        return None;
    }
    let k = if s[j] == '0' {
        j + 1
    } else {
        proof {
            lemma_skip_digits_bounds(s@, j as int + 1);
        }
        skip_digits_exec(s, j)
    };
    let f = if k < s.len() && s[k] == '.' {
        let d = skip_digits_exec(s, k + 1);
        if d == k + 1 {
            return None;
        }
        d
    } else {
        k
    };
    if f < s.len() && (s[f] == 'e' || s[f] == 'E') {
        let g = if f + 1 < s.len() && (s[f + 1] == '+' || s[f + 1] == '-') {
            f + 2
        } else {
            f + 1
        };
        let d = skip_digits_exec(s, g);
        if d == g {
            None
        } else {
            Some(d)
        }
    } else {
        Some(f)
    }
}

fn hex_val_exec(c: char) -> (r: Option<u32>)
    ensures
        r == hex_val(c),
        r matches Some(v) ==> v < 16,
{
    if '0' <= c && c <= '9' {
        Some((c as u32) - ('0' as u32))
    } else if 'a' <= c && c <= 'f' {
        Some((c as u32) - ('a' as u32) + 10)
    } else if 'A' <= c && c <= 'F' {
        Some((c as u32) - ('A' as u32) + 10)
    } else {
        None
    }
}

fn hex4_exec(s: &Vec<char>, i: usize) -> (r: Option<u32>)
    requires
        i <= s@.len(),
    ensures
        r == hex4(s@, i as int),
        r matches Some(v) ==> v < 0x10000,
{
    if s.len() - i < 4 {
        return None;
    }
    let a = hex_val_exec(s[i]);
    let b = hex_val_exec(s[i + 1]);
    let c = hex_val_exec(s[i + 2]);
    let d = hex_val_exec(s[i + 3]);
    match (a, b, c, d) {
        (Some(a), Some(b), Some(c), Some(d)) => Some(a * 4096 + b * 256 + c * 16 + d),
        _ => None,
    }
}

fn esc_char_exec(s: &Vec<char>, i: usize) -> (r: Option<(char, usize)>)
    requires
        i <= s@.len(),
    ensures
        (match (r, esc_char(s@, i as int)) {
            (None, None) => true,
            (Some((c0, j)), Some((c1, j1))) => c0 == c1 && j as int == j1 && i < j <= s@.len(),
            _ => false,
        }),
{
    if i >= s.len() {
        return None;
    }
    let c = s[i];
    if c == '"' {
        Some(('"', i + 1))
    } else if c == '\\' {
        Some(('\\', i + 1))
    } else if c == '/' {
        Some(('/', i + 1))
    } else if c == 'b' {
        Some(('\u{8}', i + 1))
    } else if c == 'f' {
        Some(('\u{c}', i + 1))
    } else if c == 'n' {
        Some(('\n', i + 1))
    } else if c == 'r' {
        Some(('\r', i + 1))
    } else if c == 't' {
        Some(('\t', i + 1))
    } else if c == 'u' {
        match hex4_exec(s, i + 1) {
            None => None,
            Some(hi) => {
                if 0xD800 <= hi && hi <= 0xDBFF {
                    if s.len() - i >= 7 && s[i + 5] == '\\' && s[i + 6] == 'u' {
                        match hex4_exec(s, i + 7) {
                            None => None,
                            Some(lo) => {
                                if 0xDC00 <= lo && lo <= 0xDFFF {
                                    let cp = 0x10000 + (hi - 0xD800) * 0x400 + (lo - 0xDC00);
                                    Some((char_from_u32(cp).unwrap(), i + 11))
                                } else {
                                    None
                                }
                            },
                        }
                    } else {
                        None
                    }
                } else if 0xDC00 <= hi && hi <= 0xDFFF {
                    None
                } else {
                    Some((char_from_u32(hi).unwrap(), i + 5))
                }
            },
        }
    } else {
        None
    }
}

fn p_chars_exec(s: &Vec<char>, i: usize) -> (r: Option<(Vec<char>, usize)>)
    requires
        i <= s@.len(),
    ensures
        (match (r, p_chars(s@, i as int)) {
            (None, None) => true,
            (Some((cv, k)), Some((sv, sk))) => cv@ == sv && k as int == sk && i < k <= s@.len(),
            _ => false,
        }),
    decreases s@.len() - i,
{
    if i >= s.len() {
        return None;
    }
    let c = s[i];
    if c == '"' {
        Some((Vec::new(), i + 1))
    } else if c == '\\' {
        match esc_char_exec(s, i + 1) {
            None => None,
            Some((ec, j)) => {
                if j > i {
                    match p_chars_exec(s, j) {
                        None => None,
                        Some((rest, k)) => {
                            let mut out: Vec<char> = Vec::new();
                            out.push(ec);
                            let mut tail = rest;
                            out.append(&mut tail);
                            proof {
                                assert(out@ =~= seq![ec] + p_chars(s@, j as int)->Some_0.0);
                            }
                            Some((out, k))
                        },
                    }
                } else {
                    None
                }
            },
        }
    } else if (c as u32) < 32 {
        None
    } else {
        match p_chars_exec(s, i + 1) {
            None => None,
            Some((rest, k)) => {
                let mut out: Vec<char> = Vec::new();
                out.push(c);
                let mut tail = rest;
                out.append(&mut tail);
                proof {
                    assert(out@ =~= seq![c] + p_chars(s@, i as int + 1)->Some_0.0);
                }
                Some((out, k))
            },
        }
    }
}

pub(crate) fn copy_range(s: &Vec<char>, lo: usize, hi: usize) -> (r: Vec<char>)
    requires
        lo <= hi <= s@.len(),
    ensures
        r@ == s@.subrange(lo as int, hi as int),
{
    let mut out: Vec<char> = Vec::new();
    let mut i = lo;
    while i < hi
        invariant
            lo <= i <= hi <= s@.len(),
            out@ == s@.subrange(lo as int, i as int),
        decreases hi - i,
    {
        out.push(s[i]);
        proof {
            assert(out@ =~= s@.subrange(lo as int, i as int + 1));
        }
        i = i + 1;
    }
    out
}

fn p_value_exec(s: &Vec<char>, i: usize) -> (r: Option<(Json, usize)>)
    requires
        i <= s@.len(),
    ensures
        (match (r, p_value(s@, i as int)) {
            (None, None) => true,
            (Some((j, k)), Some((v, sk))) => j@ == v && k as int == sk && i < k <= s@.len(),
            _ => false,
        }),
    decreases s@.len() - i, 0int,
{
    if i >= s.len() {
        return None;
    }
    let c = s[i];
    if c == '"' {
        match p_chars_exec(s, i + 1) {
            None => None,
            Some((text, j)) => Some((Json::Str(text), j)),
        }
    } else if c == '[' {
        let j = skip_ws_exec(s, i + 1);
        if j < s.len() && s[j] == ']' {
            Some((Json::Arr(Vec::new()), j + 1))
        } else if j > i {
            match p_items_exec(s, j) {
                None => None,
                Some((items, k)) => Some((Json::Arr(items), k)),
            }
        } else {
            None
        }
    } else if c == '{' {
        let j = skip_ws_exec(s, i + 1);
        if j < s.len() && s[j] == '}' {
            Some((Json::Obj(Vec::new()), j + 1))
        } else if j > i {
            match p_members_exec(s, j) {
                None => None,
                Some((members, k)) => Some((Json::Obj(members), k)),
            }
        } else {
            None
        }
    } else if c == 't' {
        if s.len() - i >= 4 && s[i + 1] == 'r' && s[i + 2] == 'u' && s[i + 3] == 'e' {
            Some((Json::Bool(true), i + 4))
        } else {
            None
        }
    } else if c == 'f' {
        if s.len() - i >= 5 && s[i + 1] == 'a' && s[i + 2] == 'l' && s[i + 3] == 's' && s[i + 4]
            == 'e' {
            Some((Json::Bool(false), i + 5))
        } else {
            None
        }
    } else if c == 'n' {
        if s.len() - i >= 4 && s[i + 1] == 'u' && s[i + 2] == 'l' && s[i + 3] == 'l' {
            Some((Json::Null, i + 4))
        } else {
            None
        }
    } else if c == '-' || ('0' <= c && c <= '9') {
        match num_end_exec(s, i) {
            None => None,
            Some(e) => Some((Json::Num(copy_range(s, i, e)), e)),
        }
    } else {
        None
    }
}

fn p_items_exec(s: &Vec<char>, i: usize) -> (r: Option<(Vec<Json>, usize)>)
    requires
        i <= s@.len(),
    ensures
        (match (r, p_items(s@, i as int)) {
            (None, None) => true,
            (Some((vs, k)), Some((ss, sk))) => json_view_items(vs, 0) == ss && k as int == sk && i
                < k <= s@.len(),
            _ => false,
        }),
    decreases s@.len() - i, 1int,
{
    match p_value_exec(s, i) {
        None => None,
        Some((v, j)) => {
            let w = skip_ws_exec(s, j);
            if w >= s.len() {
                None
            } else if s[w] == ']' {
                let mut out: Vec<Json> = Vec::new();
                out.push(v);
                proof {
                    reveal_with_fuel(json_view_items, 3);
                    assert(json_view_items(out, 0) =~= seq![json_view(v)]);
                }
                Some((out, w + 1))
            } else if s[w] == ',' {
                let n = skip_ws_exec(s, w + 1);
                if n > i {
                    match p_items_exec(s, n) {
                        None => None,
                        Some((rest, k)) => {
                            let ghost grest = rest;
                            let mut out: Vec<Json> = Vec::new();
                            out.push(v);
                            let mut tail = rest;
                            out.append(&mut tail);
                            proof {
                                lemma_view_items_cons(out, v, grest);
                            }
                            Some((out, k))
                        },
                    }
                } else {
                    None
                }
            } else {
                None
            }
        },
    }
}

fn p_members_exec(s: &Vec<char>, i: usize) -> (r: Option<(Vec<(Vec<char>, Json)>, usize)>)
    requires
        i <= s@.len(),
    ensures
        (match (r, p_members(s@, i as int)) {
            (None, None) => true,
            (Some((ms, k)), Some((ss, sk))) => json_view_members(ms, 0) == ss && k as int == sk
                && i < k <= s@.len(),
            _ => false,
        }),
    decreases s@.len() - i, 1int,
{
    if !(i < s.len() && s[i] == '"') {
        return None;
    }
    match p_chars_exec(s, i + 1) {
        None => None,
        Some((key, j)) => {
            let w = skip_ws_exec(s, j);
            if !(w < s.len() && s[w] == ':') {
                return None;
            }
            let x = skip_ws_exec(s, w + 1);
            if !(x > i) {
                return None;
            }
            match p_value_exec(s, x) {
                None => None,
                Some((v, k)) => {
                    let y = skip_ws_exec(s, k);
                    if y >= s.len() {
                        None
                    } else if s[y] == '}' {
                        let ghost gkey = key;
                        let ghost gv = v;
                        let mut out: Vec<(Vec<char>, Json)> = Vec::new();
                        out.push((key, v));
                        proof {
                            reveal_with_fuel(json_view_members, 3);
                            assert(json_view_members(out, 0) =~= seq![(gkey@, json_view(gv))]);
                        }
                        Some((out, y + 1))
                    } else if s[y] == ',' {
                        let n = skip_ws_exec(s, y + 1);
                        if n > i {
                            match p_members_exec(s, n) {
                                None => None,
                                Some((rest, k2)) => {
                                    let ghost gkey = key;
                                    let ghost gv = v;
                                    let ghost grest = rest;
                                    let mut out: Vec<(Vec<char>, Json)> = Vec::new();
                                    out.push((key, v));
                                    let mut tail = rest;
                                    out.append(&mut tail);
                                    proof {
                                        lemma_view_members_cons(out, (gkey, gv), grest);
                                    }
                                    Some((out, k2))
                                },
                            }
                        } else {
                            None
                        }
                    } else {
                        None
                    }
                },
            }
        },
    }
}

/// Parses the whole input as one JSON-like document; returns exactly what the
/// grammar (`spec_parse`) says, and `None` exactly when the input is
/// malformed.
pub fn parse_json(text: &str) -> (r: Option<Json>)
    ensures
        (match (r, spec_parse(text@)) {
            (None, None) => true,
            (Some(j), Some(v)) => j@ == v,
            _ => false,
        }),
{
    let s = str_chars(text);
    parse_chars(&s)
}

/// As `parse_json`, on a text already split into characters (a looked-up
/// environment value, say).
pub fn parse_chars(s: &Vec<char>) -> (r: Option<Json>)
    ensures
        (match (r, spec_parse(s@)) {
            (None, None) => true,
            (Some(j), Some(v)) => j@ == v,
            _ => false,
        }),
{
    let i = skip_ws_exec(s, 0);
    match p_value_exec(s, i) {
        None => None,
        Some((j, k)) => {
            let e = skip_ws_exec(s, k);
            if e == s.len() {
                Some(j)
            } else {
                None
            }
        },
    }
}

} // verus!

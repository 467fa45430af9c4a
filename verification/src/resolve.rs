//! The template-resolution engine: given a parsed document tree and an
//! immutable environment snapshot, produce the resolved document.
//!
//! Two substitution forms exist. A *structural* placeholder is a string
//! value equal, after trimming, to `{{NAME}}`; its replacement is the
//! looked-up value parsed as a JSON-like document. An *interpolated*
//! placeholder is a `${NAME}` occurrence inside an otherwise ordinary
//! string; its replacement is the looked-up raw text. Structural
//! substitution is strict (a value that fails to parse aborts the render);
//! interpolation is lenient (an absent value becomes the empty string).
//!
//! Two deliberate bounds, stated here because they are part of the
//! contract: structural substitution carries a depth budget (`MAX_DEPTH`)
//! so that a cyclic placeholder chain is a `TooDeep` error rather than
//! divergence; and an interpolated placeholder's name may consist of ASCII
//! letters, digits and underscores (`is_name_char`) — the practical
//! character set of environment-variable names. Whitespace, for trimming,
//! is space, tab, carriage return and line feed.

use vstd::prelude::*;
use crate::json::{Json, JsonV, json_view, json_view_items, json_view_members,
    lemma_view_items_cons, lemma_view_members_cons, lemma_view_items_index,
    lemma_view_members_index, lemma_view_items_concat};
use crate::parse::{is_ws, is_digit, skip_ws, spec_parse, skip_ws_exec, copy_range, parse_chars};
use crate::text::{str_chars, chars_string};

verus! {

/// An immutable snapshot of environment variables, captured once before a
/// render and never re-queried while it runs. Lookups find the first entry
/// with the given name.
pub struct EnvSnapshot {
    entries: Vec<(Vec<char>, Vec<char>)>,
}

impl View for EnvSnapshot {
    type V = Seq<(Seq<char>, Seq<char>)>;

    closed spec fn view(&self) -> Seq<(Seq<char>, Seq<char>)> {
        Seq::new(self.entries@.len(), |i: int| (self.entries@[i].0@, self.entries@[i].1@))
    }
}

/// The value bound to `name`: the first entry that carries it.
pub open spec fn lookup(env: Seq<(Seq<char>, Seq<char>)>, name: Seq<char>) -> Option<Seq<char>>
    decreases env.len(),
{
    if env.len() == 0 {
        None
    } else if env[0].0 == name {
        Some(env[0].1)
    } else {
        lookup(env.drop_first(), name)
    }
}

impl EnvSnapshot {
    /// The empty snapshot.
    pub fn new() -> (r: EnvSnapshot)
        ensures
            r@ == Seq::<(Seq<char>, Seq<char>)>::empty(),
    {
        let r = EnvSnapshot { entries: Vec::new() };
        proof {
            assert(r@ =~= Seq::<(Seq<char>, Seq<char>)>::empty());
        }
        r
    }

    /// Appends one binding.
    pub fn add(&mut self, name: &str, value: &str)
        ensures
            final(self)@ == old(self)@ + seq![(name@, value@)],
    {
        self.entries.push((str_chars(name), str_chars(value)));
        proof {
            assert(self@ =~= old(self)@ + seq![(name@, value@)]);
        }
    }

    /// Prepends one binding given as texts: it shadows every existing
    /// binding of the same name, since lookups take the first match.
    pub fn add_entry_front(&mut self, name: Vec<char>, value: Vec<char>)
        ensures
            final(self)@ == seq![(name@, value@)] + old(self)@,
    {
        self.entries.insert(0, (name, value));
        proof {
            assert(self@ =~= seq![(name@, value@)] + old(self)@);
        }
    }

    /// Looks the name up: the first entry that carries it, if any.
    pub fn get(&self, name: &Vec<char>) -> (r: Option<Vec<char>>)
        ensures
            (match (r, lookup(self@, name@)) {
                (None, None) => true,
                (Some(v), Some(sv)) => v@ == sv,
                _ => false,
            }),
    {
        let mut i: usize = 0;
        proof {
            assert(self@.skip(0) =~= self@);
        }
        while i < self.entries.len()
            invariant
                i <= self.entries@.len(),
                lookup(self@, name@) == lookup(self@.skip(i as int), name@),
        decreases self.entries@.len() - i,
        {
            if chars_eq(&self.entries[i].0, name) {
                proof {
                    assert(self@.skip(i as int)[0] == (self.entries@[i as int].0@,
                        self.entries@[i as int].1@));
                }
                return Some(clone_chars(&self.entries[i].1));
            }
            proof {
                assert(self@.skip(i as int)[0].0 == self.entries@[i as int].0@);
                assert(self@.skip(i as int).drop_first() =~= self@.skip(i as int + 1));
            }
            i = i + 1;
        }
        proof {
            assert(self@.skip(i as int).len() == 0);
        }
        None
    }
}

/// Character-for-character equality of two texts.
pub fn chars_eq(a: &Vec<char>, b: &Vec<char>) -> (r: bool)
    ensures
        r == (a@ == b@),
{
    if a.len() != b.len() {
        return false;
    }
    let mut i: usize = 0;
    while i < a.len()
        invariant
            i <= a@.len(),
            a@.len() == b@.len(),
            forall|k: int| 0 <= k < i ==> a@[k] == b@[k],
        decreases a@.len() - i,
    {
        if a[i] != b[i] {
            return false;
        }
        i = i + 1;
    }
    proof {
        assert(a@ =~= b@);
    }
    true
}

/// A copy of a text.
pub fn clone_chars(v: &Vec<char>) -> (r: Vec<char>)
    ensures
        r@ == v@,
{
    let mut out: Vec<char> = Vec::new();
    let mut i: usize = 0;
    while i < v.len()
        invariant
            i <= v@.len(),
            out@ == v@.subrange(0, i as int),
        decreases v@.len() - i,
    {
        out.push(v[i]);
        proof {
            assert(out@ =~= v@.subrange(0, i as int + 1));
        }
        i = i + 1;
    }
    proof {
        assert(out@ =~= v@);
    }
    out
}

/// End index of the text once trailing whitespace is dropped.
pub open spec fn trim_end_idx(s: Seq<char>, j: int) -> int
    decreases j,
{
    if 0 < j <= s.len() && is_ws(s[j - 1]) {
        trim_end_idx(s, j - 1)
    } else {
        j
    }
}

/// The text with surrounding whitespace dropped.
pub open spec fn trim(s: Seq<char>) -> Seq<char> {
    let lo = skip_ws(s, 0);
    let hi = trim_end_idx(s, s.len() as int);
    if 0 <= lo <= hi <= s.len() {
        s.subrange(lo, hi)
    } else {
        Seq::empty()
    }
}

/// The name carried by a structural placeholder: the whole string, after
/// trimming, must be `{{NAME}}`; the name itself is trimmed too.
pub open spec fn structural_name(s: Seq<char>) -> Option<Seq<char>> {
    let t = trim(s);
    if t.len() >= 4 && t[0] == '{' && t[1] == '{' && t[t.len() - 1] == '}' && t[t.len() - 2]
        == '}' {
        Some(trim(t.subrange(2, t.len() - 2)))
    } else {
        None
    }
}

fn trim_end_idx_exec(s: &Vec<char>, from: usize) -> (r: usize)
    requires
        from <= s@.len(),
    ensures
        r as int == trim_end_idx(s@, from as int),
        r <= from,
    decreases from,
{
    let mut j = from;
    while j > 0
        invariant
            j <= from <= s@.len(),
            trim_end_idx(s@, from as int) == trim_end_idx(s@, j as int),
        decreases j,
    {
        let c = s[j - 1];
        if !(c == ' ' || c == '\t' || c == '\n' || c == '\r') {
            return j;
        }
        j = j - 1;
    }
    j
}

/// The text with surrounding whitespace dropped.
pub fn trim_chars(s: &Vec<char>) -> (r: Vec<char>)
    ensures
        r@ == trim(s@),
{
    let lo = skip_ws_exec(s, 0);
    let hi = trim_end_idx_exec(s, s.len());
    if lo <= hi {
        copy_range(s, lo, hi)
    } else {
        Vec::new()
    }
}

/// Recognises a whole-string structural placeholder `{{NAME}}` and hands the
/// (trimmed) name back; `None` on any other string.
pub fn extract_structural_placeholder(s: &str) -> (r: Option<String>)
    ensures
        (match (r, structural_name(s@)) {
            (None, None) => true,
            (Some(n), Some(sn)) => n@ == sn,
            _ => false,
        }),
{
    let cs = str_chars(s);
    match extract_structural_chars(&cs) {
        None => None,
        Some(n) => Some(chars_string(&n)),
    }
}

/// As `extract_structural_placeholder`, on a text.
pub fn extract_structural_chars(s: &Vec<char>) -> (r: Option<Vec<char>>)
    ensures
        (match (r, structural_name(s@)) {
            (None, None) => true,
            (Some(n), Some(sn)) => n@ == sn,
            _ => false,
        }),
{
    let t = trim_chars(s);
    if t.len() >= 4 && t[0] == '{' && t[1] == '{' && t[t.len() - 1] == '}' && t[t.len() - 2]
        == '}' {
        let inner = copy_range(&t, 2, t.len() - 2);
        Some(trim_chars(&inner))
    } else {
        None
    }
}

/// Position of the first `${` opener at or after `i`.
pub open spec fn find_open(s: Seq<char>, i: int) -> Option<int>
    decreases s.len() - i,
{
    if !(0 <= i && i + 2 <= s.len()) {
        None
    } else if s[i] == '$' && s[i + 1] == '{' {
        Some(i)
    } else {
        find_open(s, i + 1)
    }
}

/// Position of the first `}` at or after `i`.
pub open spec fn find_close(s: Seq<char>, i: int) -> Option<int>
    decreases s.len() - i,
{
    if !(0 <= i < s.len()) {
        None
    } else if s[i] == '}' {
        Some(i)
    } else {
        find_close(s, i + 1)
    }
}

/// A character an interpolated placeholder's name may consist of.
pub open spec fn is_name_char(c: char) -> bool {
    is_digit(c) || ('a' <= c && c <= 'z') || ('A' <= c && c <= 'Z') || c == '_'
}

/// Every character of the candidate name is admissible.
pub open spec fn valid_name(n: Seq<char>) -> bool {
    forall|k: int| 0 <= k < n.len() ==> is_name_char(n[k])
}

/// The interpolated form of the string from position `i` on: each
/// well-formed `${NAME}` whose name is admissible is replaced by the raw
/// looked-up value (present) or by nothing (absent); a malformed occurrence
/// is left verbatim; the scan resumes after the replacement, never
/// re-scanning substituted text, so the scan terminates. An opener with no
/// closing brace after it leaves the rest verbatim.
pub open spec fn spec_interp(s: Seq<char>, env: Seq<(Seq<char>, Seq<char>)>, i: int) -> Seq<char>
    decreases s.len() - i,
{
    if !(0 <= i <= s.len()) {
        Seq::empty()
    } else {
        match find_open(s, i) {
            None => s.subrange(i, s.len() as int),
            Some(j) => {
                if !(i <= j && j + 2 <= s.len()) {
                    s.subrange(i, s.len() as int)
                } else {
                    match find_close(s, j + 2) {
                        None => s.subrange(i, s.len() as int),
                        Some(k) => {
                            if !(j + 2 <= k < s.len()) {
                                s.subrange(i, s.len() as int)
                            } else {
                                let name = s.subrange(j + 2, k);
                                if valid_name(name) {
                                    match lookup(env, name) {
                                        Some(v) => s.subrange(i, j) + v + spec_interp(
                                            s,
                                            env,
                                            k + 1,
                                        ),
                                        None => s.subrange(i, j) + spec_interp(s, env, k + 1),
                                    }
                                } else {
                                    s.subrange(i, k + 1) + spec_interp(s, env, k + 1)
                                }
                            }
                        },
                    }
                }
            },
        }
    }
}

fn find_open_exec(s: &Vec<char>, start: usize) -> (r: Option<usize>)
    requires
        start <= s@.len(),
    ensures
        (match (r, find_open(s@, start as int)) {
            (None, None) => true,
            (Some(a), Some(b)) => a as int == b && start <= a && a + 2 <= s@.len(),
            _ => false,
        }),
{
    let mut i = start;
    while i < s.len() && s.len() - i >= 2
        invariant
            start <= i,
            i <= s@.len(),
            find_open(s@, start as int) == find_open(s@, i as int),
        decreases s@.len() - i,
    {
        if s[i] == '$' && s[i + 1] == '{' {
            return Some(i);
        }
        i = i + 1;
    }
    None
}

fn find_close_exec(s: &Vec<char>, start: usize) -> (r: Option<usize>)
    requires
        start <= s@.len(),
    ensures
        (match (r, find_close(s@, start as int)) {
            (None, None) => true,
            (Some(a), Some(b)) => a as int == b && start <= a && a < s@.len(),
            _ => false,
        }),
{
    let mut i = start;
    while i < s.len()
        invariant
            start <= i <= s@.len(),
            find_close(s@, start as int) == find_close(s@, i as int),
        decreases s@.len() - i,
    {
        if s[i] == '}' {
            return Some(i);
        }
        i = i + 1;
    }
    None
}

fn valid_name_exec(n: &Vec<char>) -> (r: bool)
    ensures
        r == valid_name(n@),
{
    let mut i: usize = 0;
    while i < n.len()
        invariant
            i <= n@.len(),
            forall|k: int| 0 <= k < i ==> is_name_char(n@[k]),
        decreases n@.len() - i,
    {
        let c = n[i];
        if !(('0' <= c && c <= '9') || ('a' <= c && c <= 'z') || ('A' <= c && c <= 'Z') || c
            == '_') {
            return false;
        }
        i = i + 1;
    }
    true
}

fn append_range(out: &mut Vec<char>, s: &Vec<char>, lo: usize, hi: usize)
    requires
        lo <= hi <= s@.len(),
    ensures
        final(out)@ == old(out)@ + s@.subrange(lo as int, hi as int),
{
    let mut i = lo;
    while i < hi
        invariant
            lo <= i <= hi <= s@.len(),
            out@ == old(out)@ + s@.subrange(lo as int, i as int),
        decreases hi - i,
    {
        out.push(s[i]);
        proof {
            assert(out@ =~= old(out)@ + s@.subrange(lo as int, i as int + 1));
        }
        i = i + 1;
    }
}

/// Interpolates every well-formed `${NAME}` occurrence in the text against
/// the snapshot: a present value replaces it with the raw string, an absent
/// one with the empty string (and a warning is gathered); malformed
/// occurrences stay verbatim.
pub fn interpolate_chars(s: &Vec<char>, env: &EnvSnapshot, warns: &mut Vec<Warning>) -> (r: Vec<
    char,
>)
    ensures
        r@ == spec_interp(s@, env@, 0),
        warns_view(*final(warns)) == warns_view(*old(warns)) + interp_warns(s@, env@, 0),
{
    let mut out: Vec<char> = Vec::new();
    let mut i: usize = 0;
    while i < s.len()
        invariant
            i <= s@.len(),
            out@ + spec_interp(s@, env@, i as int) == spec_interp(s@, env@, 0),
            warns_view(*warns) + interp_warns(s@, env@, i as int) == warns_view(*old(warns))
                + interp_warns(s@, env@, 0),
        decreases s@.len() - i,
    {
        let ghost prev_out = out@;
        let ghost prev_warns = warns_view(*warns);
        let ghost prev_i = i as int;
        match find_open_exec(s, i) {
            None => {
                append_range(&mut out, s, i, s.len());
                proof {
                    assert(out@ =~= prev_out + spec_interp(s@, env@, prev_i));
                    assert(warns_view(*warns) =~= warns_view(*warns) + interp_warns(
                        s@,
                        env@,
                        prev_i,
                    ));
                }
                return out;
            },
            Some(j) => {
                match find_close_exec(s, j + 2) {
                    None => {
                        append_range(&mut out, s, i, s.len());
                        proof {
                            assert(out@ =~= prev_out + spec_interp(s@, env@, prev_i));
                            assert(warns_view(*warns) =~= warns_view(*warns) + interp_warns(
                                s@,
                                env@,
                                prev_i,
                            ));
                        }
                        return out;
                    },
                    Some(k) => {
                        let name = copy_range(s, j + 2, k);
                        if valid_name_exec(&name) {
                            match env.get(&name) {
                                Some(v) => {
                                    append_range(&mut out, s, i, j);
                                    append_range(&mut out, &v, 0, v.len());
                                    proof {
                                        assert(v@.subrange(0, v@.len() as int) =~= v@);
                                        assert(out@ =~= prev_out + (s@.subrange(
                                            prev_i,
                                            j as int,
                                        ) + v@));
                                    }
                                },
                                None => {
                                    append_range(&mut out, s, i, j);
                                    let ghost gname = name@;
                                    warns.push(Warning::AbsentName(name));
                                    proof {
                                        assert(warns_view(*warns) =~= prev_warns + seq![
                                            WarningV::AbsentName(gname),
                                        ]);
                                    }
                                },
                            }
                        } else {
                            append_range(&mut out, s, i, k + 1);
                        }
                        i = k + 1;
                        proof {
                            assert(prev_out + spec_interp(s@, env@, prev_i) =~= out@
                                + spec_interp(s@, env@, i as int));
                            assert(prev_warns + interp_warns(s@, env@, prev_i)
                                =~= warns_view(*warns) + interp_warns(s@, env@, i as int));
                        }
                    },
                }
            },
        }
    }
    proof {
        assert(spec_interp(s@, env@, i as int) =~= Seq::<char>::empty());
        assert(out@ =~= spec_interp(s@, env@, 0));
        assert(warns_view(*warns) =~= warns_view(*warns) + interp_warns(s@, env@, i as int));
    }
    out
}

/// Why a render was aborted.
#[derive(Debug, PartialEq, Eq)]
pub enum ResolveErr {
    /// The named variable's value failed to parse as a JSON-like document.
    /// Structural substitution is strict: this aborts the whole render.
    BadEnvJson(Vec<char>),
    /// Structural substitutions nested deeper than the resolution depth
    /// bound (a cyclic placeholder chain, in practice).
    TooDeep,
}

/// The mathematical form of `ResolveErr`.
pub enum ResolveErrV {
    BadEnvJson(Seq<char>),
    TooDeep,
}

impl View for ResolveErr {
    type V = ResolveErrV;

    open spec fn view(&self) -> ResolveErrV {
        match self {
            ResolveErr::BadEnvJson(n) => ResolveErrV::BadEnvJson(n@),
            ResolveErr::TooDeep => ResolveErrV::TooDeep,
        }
    }
}

/// What the snapshot holds for a structural placeholder's name: nothing
/// usable (absent name, or an empty/whitespace value), a value that fails
/// to parse, or the parsed document.
pub enum EnvDoc {
    Absent,
    Bad,
    Parsed(JsonV),
}

/// The looked-up, parsed form of the named variable's value.
pub open spec fn env_doc(env: Seq<(Seq<char>, Seq<char>)>, name: Seq<char>) -> EnvDoc {
    match lookup(env, name) {
        None => EnvDoc::Absent,
        Some(val) => {
            if trim(val).len() == 0 {
                EnvDoc::Absent
            } else {
                match spec_parse(val) {
                    None => EnvDoc::Bad,
                    Some(v) => EnvDoc::Parsed(v),
                }
            }
        },
    }
}

/// How many structural substitutions may nest before the render is
/// aborted: a cyclic placeholder chain would otherwise never terminate.
/// Any chain of placeholder-within-placeholder values deeper than this
/// bound — far beyond any sane configuration — is a `TooDeep` error.
pub const MAX_DEPTH: u32 = 1024;

/// The resolved form of one value. Strings that are structural placeholders
/// are replaced by their parsed value, itself resolved (with one level of
/// depth budget spent); other strings are interpolated; numbers, booleans
/// and null come back unchanged; arrays and objects are resolved element by
/// element.
pub open spec fn resolve_val(v: JsonV, env: Seq<(Seq<char>, Seq<char>)>, fuel: nat) -> Result<
    JsonV,
    ResolveErrV,
>
    decreases fuel, v, 0int, 0int,
{
    match v {
        JsonV::Null => Ok(v),
        JsonV::Bool(b) => Ok(v),
        JsonV::Num(t) => Ok(v),
        JsonV::Str(s) => match structural_name(s) {
            Some(name) => match env_doc(env, name) {
                EnvDoc::Absent => Ok(JsonV::Str(s)),
                EnvDoc::Bad => Err(ResolveErrV::BadEnvJson(name)),
                EnvDoc::Parsed(w) => {
                    if fuel > 0 {
                        resolve_val(w, env, (fuel - 1) as nat)
                    } else {
                        Err(ResolveErrV::TooDeep)
                    }
                },
            },
            None => Ok(JsonV::Str(spec_interp(s, env, 0))),
        },
        JsonV::Arr(items) => match resolve_items(items, env, fuel, 0) {
            Ok(rs) => Ok(JsonV::Arr(rs)),
            Err(e) => Err(e),
        },
        JsonV::Obj(members) => match resolve_members(members, env, fuel, 0) {
            Ok(ms) => Ok(JsonV::Obj(ms)),
            Err(e) => Err(e),
        },
    }
}

/// The resolved elements of an array from index `k` on. An element that is
/// a structural placeholder is special: an absent value drops the element;
/// a value that parses to an array is spliced — its elements, each
/// independently resolved, stand in the element's place (one level
/// flattened); any other parsed value stands there as a single element.
pub open spec fn resolve_items(
    items: Seq<JsonV>,
    env: Seq<(Seq<char>, Seq<char>)>,
    fuel: nat,
    k: int,
) -> Result<Seq<JsonV>, ResolveErrV>
    decreases fuel, items, items.len() - k, 1int,
{
    if !(0 <= k < items.len()) {
        Ok(Seq::empty())
    } else {
        match items[k] {
            JsonV::Str(s) => match structural_name(s) {
                Some(name) => match env_doc(env, name) {
                    EnvDoc::Absent => resolve_items(items, env, fuel, k + 1),
                    EnvDoc::Bad => Err(ResolveErrV::BadEnvJson(name)),
                    EnvDoc::Parsed(w) => {
                        if fuel > 0 {
                            match resolve_spliced(w, env, (fuel - 1) as nat) {
                                Ok(ws) => match resolve_items(items, env, fuel, k + 1) {
                                    Ok(rest) => Ok(ws + rest),
                                    Err(e) => Err(e),
                                },
                                Err(e) => Err(e),
                            }
                        } else {
                            Err(ResolveErrV::TooDeep)
                        }
                    },
                },
                None => match resolve_val(items[k], env, fuel) {
                    Ok(rv) => match resolve_items(items, env, fuel, k + 1) {
                        Ok(rest) => Ok(seq![rv] + rest),
                        Err(e) => Err(e),
                    },
                    Err(e) => Err(e),
                },
            },
            _ => match resolve_val(items[k], env, fuel) {
                Ok(rv) => match resolve_items(items, env, fuel, k + 1) {
                    Ok(rest) => Ok(seq![rv] + rest),
                    Err(e) => Err(e),
                },
                Err(e) => Err(e),
            },
        }
    }
}

/// What a structural placeholder in array position contributes: a parsed
/// array is flattened one level (each element independently resolved); any
/// other parsed value contributes itself, resolved, as one element.
pub open spec fn resolve_spliced(w: JsonV, env: Seq<(Seq<char>, Seq<char>)>, fuel: nat) -> Result<
    Seq<JsonV>,
    ResolveErrV,
>
    decreases fuel, w, 0int, 2int,
{
    match w {
        JsonV::Arr(inner) => resolve_items(inner, env, fuel, 0),
        _ => match resolve_val(w, env, fuel) {
            Ok(rw) => Ok(seq![rw]),
            Err(e) => Err(e),
        },
    }
}

/// The resolved members of an object from index `k` on: values resolved
/// recursively, keys and order unchanged.
pub open spec fn resolve_members(
    members: Seq<(Seq<char>, JsonV)>,
    env: Seq<(Seq<char>, Seq<char>)>,
    fuel: nat,
    k: int,
) -> Result<Seq<(Seq<char>, JsonV)>, ResolveErrV>
    decreases fuel, members, members.len() - k, 1int,
{
    if !(0 <= k < members.len()) {
        Ok(Seq::empty())
    } else {
        match resolve_val(members[k].1, env, fuel) {
            Ok(rv) => match resolve_members(members, env, fuel, k + 1) {
                Ok(rest) => Ok(seq![(members[k].0, rv)] + rest),
                Err(e) => Err(e),
            },
            Err(e) => Err(e),
        }
    }
}

/// The fully resolved form of a document, with the full depth budget.
pub open spec fn spec_resolve(v: JsonV, env: Seq<(Seq<char>, Seq<char>)>) -> Result<
    JsonV,
    ResolveErrV,
> {
    resolve_val(v, env, MAX_DEPTH as nat)
}

/// A recoverable oddity met during resolution. The render goes on (or, for
/// an abort, the warnings gathered up to that point stand), but no
/// degradation is silent: the caller reports each of these.
#[derive(Debug, PartialEq, Eq)]
pub enum Warning {
    /// A structural placeholder in array position had no usable value; the
    /// element was dropped.
    DroppedElement(Vec<char>),
    /// A structural placeholder in scalar position had no usable value;
    /// the literal placeholder text was kept.
    KeptLiteral(Vec<char>),
    /// An interpolated placeholder's name was absent; the empty string
    /// stood in for it.
    AbsentName(Vec<char>),
}

/// The mathematical form of `Warning`.
pub enum WarningV {
    DroppedElement(Seq<char>),
    KeptLiteral(Seq<char>),
    AbsentName(Seq<char>),
}

impl View for Warning {
    type V = WarningV;

    open spec fn view(&self) -> WarningV {
        match self {
            Warning::DroppedElement(n) => WarningV::DroppedElement(n@),
            Warning::KeptLiteral(n) => WarningV::KeptLiteral(n@),
            Warning::AbsentName(n) => WarningV::AbsentName(n@),
        }
    }
}

/// The views of gathered warnings, in order.
pub open spec fn warns_view(w: Vec<Warning>) -> Seq<WarningV> {
    Seq::new(w@.len(), |i: int| w@[i]@)
}

/// The warnings the interpolation scan emits from position `i` on: one
/// `AbsentName` for each well-formed occurrence whose name is unbound.
pub open spec fn interp_warns(s: Seq<char>, env: Seq<(Seq<char>, Seq<char>)>, i: int) -> Seq<
    WarningV,
>
    decreases s.len() - i,
{
    if !(0 <= i <= s.len()) {
        Seq::empty()
    } else {
        match find_open(s, i) {
            None => Seq::empty(),
            Some(j) => {
                if !(i <= j && j + 2 <= s.len()) {
                    Seq::empty()
                } else {
                    match find_close(s, j + 2) {
                        None => Seq::empty(),
                        Some(k) => {
                            if !(j + 2 <= k < s.len()) {
                                Seq::empty()
                            } else {
                                let name = s.subrange(j + 2, k);
                                if valid_name(name) {
                                    match lookup(env, name) {
                                        Some(v) => interp_warns(s, env, k + 1),
                                        None => seq![WarningV::AbsentName(name)]
                                            + interp_warns(s, env, k + 1),
                                    }
                                } else {
                                    interp_warns(s, env, k + 1)
                                }
                            }
                        },
                    }
                }
            },
        }
    }
}

/// The warnings resolution of one value emits, in the order the resolver
/// meets them; an abort cuts the stream where it happened.
pub open spec fn warn_val(v: JsonV, env: Seq<(Seq<char>, Seq<char>)>, fuel: nat) -> Seq<
    WarningV,
>
    decreases fuel, v, 0int, 0int,
{
    match v {
        JsonV::Str(s) => match structural_name(s) {
            Some(name) => match env_doc(env, name) {
                EnvDoc::Absent => seq![WarningV::KeptLiteral(name)],
                EnvDoc::Bad => Seq::empty(),
                EnvDoc::Parsed(w) => {
                    if fuel > 0 {
                        warn_val(w, env, (fuel - 1) as nat)
                    } else {
                        Seq::empty()
                    }
                },
            },
            None => interp_warns(s, env, 0),
        },
        JsonV::Arr(items) => warn_items(items, env, fuel, 0),
        JsonV::Obj(members) => warn_members(members, env, fuel, 0),
        _ => Seq::empty(),
    }
}

/// As `warn_val`, over the elements from index `k` on.
pub open spec fn warn_items(
    items: Seq<JsonV>,
    env: Seq<(Seq<char>, Seq<char>)>,
    fuel: nat,
    k: int,
) -> Seq<WarningV>
    decreases fuel, items, items.len() - k, 1int,
{
    if !(0 <= k < items.len()) {
        Seq::empty()
    } else {
        match items[k] {
            JsonV::Str(s) => match structural_name(s) {
                Some(name) => match env_doc(env, name) {
                    EnvDoc::Absent => seq![WarningV::DroppedElement(name)] + warn_items(
                        items,
                        env,
                        fuel,
                        k + 1,
                    ),
                    EnvDoc::Bad => Seq::empty(),
                    EnvDoc::Parsed(w) => {
                        if fuel > 0 {
                            warn_spliced(w, env, (fuel - 1) as nat) + (
                            if resolve_spliced(w, env, (fuel - 1) as nat) is Ok {
                                warn_items(items, env, fuel, k + 1)
                            } else {
                                Seq::empty()
                            })
                        } else {
                            Seq::empty()
                        }
                    },
                },
                None => warn_val(items[k], env, fuel) + (
                if resolve_val(items[k], env, fuel) is Ok {
                    warn_items(items, env, fuel, k + 1)
                } else {
                    Seq::empty()
                }),
            },
            _ => warn_val(items[k], env, fuel) + (
            if resolve_val(items[k], env, fuel) is Ok {
                warn_items(items, env, fuel, k + 1)
            } else {
                Seq::empty()
            }),
        }
    }
}

/// As `warn_val`, for a structural placeholder's parsed value in array
/// position.
pub open spec fn warn_spliced(w: JsonV, env: Seq<(Seq<char>, Seq<char>)>, fuel: nat) -> Seq<
    WarningV,
>
    decreases fuel, w, 0int, 2int,
{
    match w {
        JsonV::Arr(inner) => warn_items(inner, env, fuel, 0),
        _ => warn_val(w, env, fuel),
    }
}

/// As `warn_val`, over the member values from index `k` on.
pub open spec fn warn_members(
    members: Seq<(Seq<char>, JsonV)>,
    env: Seq<(Seq<char>, Seq<char>)>,
    fuel: nat,
    k: int,
) -> Seq<WarningV>
    decreases fuel, members, members.len() - k, 1int,
{
    if !(0 <= k < members.len()) {
        Seq::empty()
    } else {
        warn_val(members[k].1, env, fuel) + (
        if resolve_val(members[k].1, env, fuel) is Ok {
            warn_members(members, env, fuel, k + 1)
        } else {
            Seq::empty()
        })
    }
}

/// The warnings one whole resolution emits.
pub open spec fn spec_warnings(v: JsonV, env: Seq<(Seq<char>, Seq<char>)>) -> Seq<WarningV> {
    warn_val(v, env, MAX_DEPTH as nat)
}

/// As `interpolate_chars`, from string to string; any warnings are
/// dropped (callers that report them use `interpolate_chars`).
pub fn interpolate_string(s: &str, env: &EnvSnapshot) -> (r: String)
    ensures
        r@ == spec_interp(s@, env@, 0),
{
    let cs = str_chars(s);
    let mut warns: Vec<Warning> = Vec::new();
    let out = interpolate_chars(&cs, env, &mut warns);
    chars_string(&out)
}

/// The executable form of `EnvDoc`.
enum EnvDocExec {
    Absent,
    Bad,
    Parsed(Json),
}

/// Looks a structural placeholder's name up and parses the value.
fn env_doc_exec(env: &EnvSnapshot, name: &Vec<char>) -> (r: EnvDocExec)
    ensures
        (match (r, env_doc(env@, name@)) {
            (EnvDocExec::Absent, EnvDoc::Absent) => true,
            (EnvDocExec::Bad, EnvDoc::Bad) => true,
            (EnvDocExec::Parsed(j), EnvDoc::Parsed(w)) => j@ == w,
            _ => false,
        }),
{
    match env.get(name) {
        None => EnvDocExec::Absent,
        Some(val) => {
            let t = trim_chars(&val);
            if t.len() == 0 {
                EnvDocExec::Absent
            } else {
                match parse_chars(&val) {
                    None => EnvDocExec::Bad,
                    Some(j) => EnvDocExec::Parsed(j),
                }
            }
        },
    }
}

/// Resolves one value against the snapshot, with `fuel` structural
/// substitutions of depth budget left, gathering the warnings the pass
/// emits.
pub fn resolve_value(v: &Json, env: &EnvSnapshot, fuel: u32, warns: &mut Vec<Warning>) -> (r:
    Result<Json, ResolveErr>)
    ensures
        (match (r, resolve_val(v@, env@, fuel as nat)) {
            (Ok(j), Ok(w)) => j@ == w,
            (Err(e), Err(ev)) => e@ == ev,
            _ => false,
        }),
        warns_view(*final(warns)) == warns_view(*old(warns)) + warn_val(v@, env@, fuel as nat),
    decreases fuel, v, 0int, 0int,
{
    let ghost base = warns_view(*warns);
    match v {
        Json::Null => {
            proof {
                assert(warns_view(*warns) =~= base + warn_val(v@, env@, fuel as nat));
            }
            Ok(Json::Null)
        },
        Json::Bool(b) => {
            proof {
                assert(warns_view(*warns) =~= base + warn_val(v@, env@, fuel as nat));
            }
            Ok(Json::Bool(*b))
        },
        Json::Num(t) => {
            proof {
                assert(warns_view(*warns) =~= base + warn_val(v@, env@, fuel as nat));
            }
            Ok(Json::Num(clone_chars(t)))
        },
        Json::Str(s) => {
            match extract_structural_chars(s) {
                Some(name) => {
                    match env_doc_exec(env, &name) {
                        EnvDocExec::Absent => {
                            let ghost gname = name@;
                            warns.push(Warning::KeptLiteral(name));
                            proof {
                                assert(warns_view(*warns) =~= base + seq![
                                    WarningV::KeptLiteral(gname),
                                ]);
                            }
                            Ok(Json::Str(clone_chars(s)))
                        },
                        EnvDocExec::Bad => {
                            proof {
                                assert(warns_view(*warns) =~= base + warn_val(
                                    v@,
                                    env@,
                                    fuel as nat,
                                ));
                            }
                            Err(ResolveErr::BadEnvJson(name))
                        },
                        EnvDocExec::Parsed(w) => {
                            if fuel > 0 {
                                resolve_value(&w, env, fuel - 1, warns)
                            } else {
                                proof {
                                    assert(warns_view(*warns) =~= base + warn_val(
                                        v@,
                                        env@,
                                        fuel as nat,
                                    ));
                                }
                                Err(ResolveErr::TooDeep)
                            }
                        },
                    }
                },
                None => Ok(Json::Str(interpolate_chars(s, env, warns))),
            }
        },
        Json::Arr(items) => {
            match resolve_items_exec(items, env, fuel, 0, warns) {
                Ok(rs) => Ok(Json::Arr(rs)),
                Err(e) => Err(e),
            }
        },
        Json::Obj(members) => {
            match resolve_members_exec(members, env, fuel, 0, warns) {
                Ok(ms) => Ok(Json::Obj(ms)),
                Err(e) => Err(e),
            }
        },
    }
}

fn resolve_items_exec(
    items: &Vec<Json>,
    env: &EnvSnapshot,
    fuel: u32,
    k: usize,
    warns: &mut Vec<Warning>,
) -> (r: Result<Vec<Json>, ResolveErr>)
    requires
        k <= items@.len(),
    ensures
        (match (r, resolve_items(json_view_items(*items, 0), env@, fuel as nat, k as int)) {
            (Ok(out), Ok(ss)) => json_view_items(out, 0) == ss,
            (Err(e), Err(ev)) => e@ == ev,
            _ => false,
        }),
        warns_view(*final(warns)) == warns_view(*old(warns)) + warn_items(
            json_view_items(*items, 0),
            env@,
            fuel as nat,
            k as int,
        ),
    decreases fuel, items, items@.len() - k, 1int,
{
    let ghost sv = json_view_items(*items, 0);
    let ghost base = warns_view(*warns);
    proof {
        lemma_view_items_index(*items, 0);
    }
    if k >= items.len() {
        proof {
            assert(warns_view(*warns) =~= base + warn_items(sv, env@, fuel as nat, k as int));
        }
        return Ok(Vec::new());
    }
    let elem = &items[k];
    let mut splice: Option<Vec<Json>> = None;
    match elem {
        Json::Str(s) => {
            match extract_structural_chars(s) {
                Some(name) => {
                    match env_doc_exec(env, &name) {
                        EnvDocExec::Absent => {
                            let ghost gname = name@;
                            warns.push(Warning::DroppedElement(name));
                            proof {
                                assert(warns_view(*warns) =~= base + seq![
                                    WarningV::DroppedElement(gname),
                                ]);
                            }
                            let r = resolve_items_exec(items, env, fuel, k + 1, warns);
                            proof {
                                assert(warns_view(*warns) =~= base + warn_items(
                                    sv,
                                    env@,
                                    fuel as nat,
                                    k as int,
                                ));
                            }
                            return r;
                        },
                        EnvDocExec::Bad => {
                            proof {
                                assert(warns_view(*warns) =~= base + warn_items(
                                    sv,
                                    env@,
                                    fuel as nat,
                                    k as int,
                                ));
                            }
                            return Err(ResolveErr::BadEnvJson(name));
                        },
                        EnvDocExec::Parsed(w) => {
                            if fuel > 0 {
                                match resolve_spliced_exec(&w, env, fuel - 1, warns) {
                                    Ok(ws) => {
                                        splice = Some(ws);
                                    },
                                    Err(e) => {
                                        proof {
                                            assert(warns_view(*warns) =~= base + warn_items(
                                                sv,
                                                env@,
                                                fuel as nat,
                                                k as int,
                                            ));
                                        }
                                        return Err(e);
                                    },
                                }
                            } else {
                                proof {
                                    assert(warns_view(*warns) =~= base + warn_items(
                                        sv,
                                        env@,
                                        fuel as nat,
                                        k as int,
                                    ));
                                }
                                return Err(ResolveErr::TooDeep);
                            }
                        },
                    }
                },
                None => {
                },
            }
        },
        _ => {
        },
    }
    match splice {
        Some(ws) => {
            match resolve_items_exec(items, env, fuel, k + 1, warns) {
                Ok(rest) => {
                    let ghost gws = ws;
                    let ghost grest = rest;
                    let mut out = ws;
                    let mut tail = rest;
                    out.append(&mut tail);
                    proof {
                        lemma_view_items_concat(out, gws, grest);
                        assert(warns_view(*warns) =~= base + warn_items(
                            sv,
                            env@,
                            fuel as nat,
                            k as int,
                        ));
                    }
                    Ok(out)
                },
                Err(e) => {
                    proof {
                        assert(warns_view(*warns) =~= base + warn_items(
                            sv,
                            env@,
                            fuel as nat,
                            k as int,
                        ));
                    }
                    Err(e)
                },
            }
        },
        None => {
            match resolve_value(elem, env, fuel, warns) {
                Ok(rv) => {
                    match resolve_items_exec(items, env, fuel, k + 1, warns) {
                        Ok(rest) => {
                            let ghost grv = rv;
                            let ghost grest = rest;
                            let mut out: Vec<Json> = Vec::new();
                            out.push(rv);
                            let mut tail = rest;
                            out.append(&mut tail);
                            proof {
                                lemma_view_items_cons(out, grv, grest);
                                assert(warns_view(*warns) =~= base + warn_items(
                                    sv,
                                    env@,
                                    fuel as nat,
                                    k as int,
                                ));
                            }
                            Ok(out)
                        },
                        Err(e) => {
                            proof {
                                assert(warns_view(*warns) =~= base + warn_items(
                                    sv,
                                    env@,
                                    fuel as nat,
                                    k as int,
                                ));
                            }
                            Err(e)
                        },
                    }
                },
                Err(e) => {
                    proof {
                        assert(warns_view(*warns) =~= base + warn_items(
                            sv,
                            env@,
                            fuel as nat,
                            k as int,
                        ));
                    }
                    Err(e)
                },
            }
        },
    }
}

fn resolve_spliced_exec(
    w: &Json,
    env: &EnvSnapshot,
    fuel: u32,
    warns: &mut Vec<Warning>,
) -> (r: Result<Vec<Json>, ResolveErr>)
    ensures
        (match (r, resolve_spliced(w@, env@, fuel as nat)) {
            (Ok(out), Ok(ws)) => json_view_items(out, 0) == ws,
            (Err(e), Err(ev)) => e@ == ev,
            _ => false,
        }),
        warns_view(*final(warns)) == warns_view(*old(warns)) + warn_spliced(
            w@,
            env@,
            fuel as nat,
        ),
    decreases fuel, w, 0int, 2int,
{
    match w {
        Json::Arr(inner) => resolve_items_exec(inner, env, fuel, 0, warns),
        _ => {
            match resolve_value(w, env, fuel, warns) {
                Ok(rw) => {
                    let ghost grw = rw;
                    let mut out: Vec<Json> = Vec::new();
                    out.push(rw);
                    proof {
                        reveal_with_fuel(json_view_items, 3);
                        assert(json_view_items(out, 0) =~= seq![json_view(grw)]);
                    }
                    Ok(out)
                },
                Err(e) => Err(e),
            }
        },
    }
}

fn resolve_members_exec(
    members: &Vec<(Vec<char>, Json)>,
    env: &EnvSnapshot,
    fuel: u32,
    k: usize,
    warns: &mut Vec<Warning>,
) -> (r: Result<Vec<(Vec<char>, Json)>, ResolveErr>)
    requires
        k <= members@.len(),
    ensures
        (match (r, resolve_members(json_view_members(*members, 0), env@, fuel as nat, k as int)) {
            (Ok(out), Ok(ss)) => json_view_members(out, 0) == ss,
            (Err(e), Err(ev)) => e@ == ev,
            _ => false,
        }),
        warns_view(*final(warns)) == warns_view(*old(warns)) + warn_members(
            json_view_members(*members, 0),
            env@,
            fuel as nat,
            k as int,
        ),
    decreases fuel, members, members@.len() - k, 1int,
{
    let ghost sv = json_view_members(*members, 0);
    let ghost base = warns_view(*warns);
    proof {
        lemma_view_members_index(*members, 0);
    }
    if k >= members.len() {
        proof {
            assert(warns_view(*warns) =~= base + warn_members(sv, env@, fuel as nat, k as int));
        }
        return Ok(Vec::new());
    }
    let key = clone_chars(&members[k].0);
    match resolve_value(&members[k].1, env, fuel, warns) {
        Ok(rv) => {
            match resolve_members_exec(members, env, fuel, k + 1, warns) {
                Ok(rest) => {
                    let ghost gkey = key;
                    let ghost grv = rv;
                    let ghost grest = rest;
                    let mut out: Vec<(Vec<char>, Json)> = Vec::new();
                    out.push((key, rv));
                    let mut tail = rest;
                    out.append(&mut tail);
                    proof {
                        lemma_view_members_cons(out, (gkey, grv), grest);
                        assert(warns_view(*warns) =~= base + warn_members(
                            sv,
                            env@,
                            fuel as nat,
                            k as int,
                        ));
                    }
                    Ok(out)
                },
                Err(e) => {
                    proof {
                        assert(warns_view(*warns) =~= base + warn_members(
                            sv,
                            env@,
                            fuel as nat,
                            k as int,
                        ));
                    }
                    Err(e)
                },
            }
        },
        Err(e) => {
            proof {
                assert(warns_view(*warns) =~= base + warn_members(
                    sv,
                    env@,
                    fuel as nat,
                    k as int,
                ));
            }
            Err(e)
        },
    }
}

/// Resolves a whole document against the snapshot, with the full depth
/// budget; any warnings are dropped (callers that report them use
/// `process_value_report`).
pub fn process_value(v: &Json, env: &EnvSnapshot) -> (r: Result<Json, ResolveErr>)
    ensures
        (match (r, spec_resolve(v@, env@)) {
            (Ok(j), Ok(w)) => j@ == w,
            (Err(e), Err(ev)) => e@ == ev,
            _ => false,
        }),
{
    let mut warns: Vec<Warning> = Vec::new();
    resolve_value(v, env, MAX_DEPTH, &mut warns)
}

/// As `process_value`, also gathering the warnings the pass emits — a
/// dropped array element, a kept literal placeholder, an absent
/// interpolation name — so that the caller reports each: no degradation
/// is silent.
pub fn process_value_report(v: &Json, env: &EnvSnapshot, warns: &mut Vec<Warning>) -> (r: Result<
    Json,
    ResolveErr,
>)
    ensures
        (match (r, spec_resolve(v@, env@)) {
            (Ok(j), Ok(w)) => j@ == w,
            (Err(e), Err(ev)) => e@ == ev,
            _ => false,
        }),
        warns_view(*final(warns)) == warns_view(*old(warns)) + spec_warnings(v@, env@),
{
    resolve_value(v, env, MAX_DEPTH, warns)
}

/// Every `${` opener in the string is malformed: no closing brace follows
/// it, or the text up to the first closing brace is not an admissible
/// name. The scan leaves every such occurrence verbatim.
pub open spec fn interp_inert(s: Seq<char>) -> bool {
    forall|j: int|
        #![trigger find_close(s, j + 2)]
        0 <= j && j + 2 <= s.len() && s[j] == '$' && s[j + 1] == '{' ==> (match find_close(
            s,
            j + 2,
        ) {
            None => true,
            Some(k) => !valid_name(s.subrange(j + 2, k)),
        })
}

/// No string anywhere in the document is a structural placeholder or holds
/// a well-formed `${NAME}` occurrence: nothing remains for resolution to
/// change. A malformed `${` opener may stay — it is left verbatim.
pub open spec fn placeholder_free(v: JsonV) -> bool
    decreases v, 0int, 0int,
{
    match v {
        JsonV::Null => true,
        JsonV::Bool(b) => true,
        JsonV::Num(t) => true,
        JsonV::Str(s) => structural_name(s) is None && interp_inert(s),
        JsonV::Arr(items) => placeholder_free_items(items, 0),
        JsonV::Obj(members) => placeholder_free_members(members, 0),
    }
}

/// As `placeholder_free`, over the elements from index `k` on.
pub open spec fn placeholder_free_items(items: Seq<JsonV>, k: int) -> bool
    decreases items, items.len() - k, 1int,
{
    if !(0 <= k < items.len()) {
        true
    } else {
        placeholder_free(items[k]) && placeholder_free_items(items, k + 1)
    }
}

/// As `placeholder_free`, over the member values from index `k` on.
pub open spec fn placeholder_free_members(members: Seq<(Seq<char>, JsonV)>, k: int) -> bool
    decreases members, members.len() - k, 1int,
{
    if !(0 <= k < members.len()) {
        true
    } else {
        placeholder_free(members[k].1) && placeholder_free_members(members, k + 1)
    }
}

proof fn lemma_find_open_props(s: Seq<char>, i: int)
    requires
        0 <= i,
    ensures
        (match find_open(s, i) {
            None => true,
            Some(j) => i <= j && j + 2 <= s.len() && s[j] == '$' && s[j + 1] == '{',
        }),
    decreases s.len() - i,
{
    if 0 <= i && i + 2 <= s.len() && !(s[i] == '$' && s[i + 1] == '{') {
        lemma_find_open_props(s, i + 1);
    }
}

proof fn lemma_find_close_props(s: Seq<char>, i: int)
    requires
        0 <= i,
    ensures
        (match find_close(s, i) {
            None => true,
            Some(k) => i <= k && k < s.len() && s[k] == '}',
        }),
    decreases s.len() - i,
{
    if 0 <= i && i < s.len() && s[i] != '}' {
        lemma_find_close_props(s, i + 1);
    }
}

/// Law: a string whose every `${` opener is malformed is left verbatim by
/// interpolation, whatever the snapshot holds.
pub proof fn lemma_interp_inert(s: Seq<char>, env: Seq<(Seq<char>, Seq<char>)>, i: int)
    requires
        0 <= i <= s.len(),
        interp_inert(s),
    ensures
        spec_interp(s, env, i) == s.subrange(i, s.len() as int),
    decreases s.len() - i,
{
    lemma_find_open_props(s, i);
    match find_open(s, i) {
        None => {},
        Some(j) => {
            lemma_find_close_props(s, j + 2);
            match find_close(s, j + 2) {
                None => {},
                Some(k) => {
                    assert(!valid_name(s.subrange(j + 2, k)));
                    lemma_interp_inert(s, env, k + 1);
                    assert(s.subrange(i, k + 1) + s.subrange(k + 1, s.len() as int)
                        =~= s.subrange(i, s.len() as int));
                },
            }
        },
    }
}

/// Law: resolving an already-fully-resolved document — one with no
/// remaining placeholders — is a no-op, whatever the snapshot and whatever
/// depth budget is left.
pub proof fn lemma_resolve_no_op(v: JsonV, env: Seq<(Seq<char>, Seq<char>)>, fuel: nat)
    requires
        placeholder_free(v),
    ensures
        resolve_val(v, env, fuel) == Ok::<JsonV, ResolveErrV>(v),
    decreases v, 0int, 0int,
{
    match v {
        JsonV::Str(s) => {
            lemma_interp_inert(s, env, 0);
            assert(s.subrange(0, s.len() as int) =~= s);
        },
        JsonV::Arr(items) => {
            lemma_resolve_items_no_op(items, env, fuel, 0);
            assert(items.skip(0) =~= items);
        },
        JsonV::Obj(members) => {
            lemma_resolve_members_no_op(members, env, fuel, 0);
            assert(members.skip(0) =~= members);
        },
        _ => {},
    }
}

proof fn lemma_resolve_items_no_op(
    items: Seq<JsonV>,
    env: Seq<(Seq<char>, Seq<char>)>,
    fuel: nat,
    k: int,
)
    requires
        0 <= k <= items.len(),
        placeholder_free_items(items, k),
    ensures
        resolve_items(items, env, fuel, k) == Ok::<Seq<JsonV>, ResolveErrV>(items.skip(k)),
    decreases items, items.len() - k, 1int,
{
    if k < items.len() {
        lemma_resolve_no_op(items[k], env, fuel);
        lemma_resolve_items_no_op(items, env, fuel, k + 1);
        assert(resolve_val(items[k], env, fuel) == Ok::<JsonV, ResolveErrV>(items[k]));
        assert(resolve_items(items, env, fuel, k + 1) == Ok::<Seq<JsonV>, ResolveErrV>(
            items.skip(k + 1)));
        match items[k] {
            JsonV::Str(s0) => {
                assert(placeholder_free(items[k]));
                assert(items[k] == JsonV::Str(s0));
                assert(placeholder_free(JsonV::Str(s0)));
                assert(structural_name(s0) is None);
                assert(resolve_items(items, env, fuel, k) == Ok::<Seq<JsonV>, ResolveErrV>(
                    seq![items[k]] + items.skip(k + 1)));
            },
            _ => {
                assert(resolve_items(items, env, fuel, k) == Ok::<Seq<JsonV>, ResolveErrV>(
                    seq![items[k]] + items.skip(k + 1)));
            },
        }
        assert(seq![items[k]] + items.skip(k + 1) =~= items.skip(k));
    } else {
        assert(items.skip(k) =~= Seq::<JsonV>::empty());
    }
}

proof fn lemma_resolve_members_no_op(
    members: Seq<(Seq<char>, JsonV)>,
    env: Seq<(Seq<char>, Seq<char>)>,
    fuel: nat,
    k: int,
)
    requires
        0 <= k <= members.len(),
        placeholder_free_members(members, k),
    ensures
        resolve_members(members, env, fuel, k) == Ok::<Seq<(Seq<char>, JsonV)>, ResolveErrV>(
            members.skip(k),
        ),
    decreases members, members.len() - k, 1int,
{
    reveal_with_fuel(resolve_members, 2);
    if k < members.len() {
        lemma_resolve_no_op(members[k].1, env, fuel);
        lemma_resolve_members_no_op(members, env, fuel, k + 1);
        assert((members[k].0, members[k].1) == members[k]);
        assert(seq![members[k]] + members.skip(k + 1) =~= members.skip(k));
    } else {
        assert(members.skip(k) =~= Seq::<(Seq<char>, JsonV)>::empty());
    }
}

/// Law: a structural placeholder whose value is JSON-array text, standing
/// as the sole element of an array, is spliced — the array resolves to the
/// looked-up array's elements, each independently resolved, in their
/// original order, flattened exactly one level.
pub proof fn lemma_array_splice(
    s: Seq<char>,
    name: Seq<char>,
    inner: Seq<JsonV>,
    env: Seq<(Seq<char>, Seq<char>)>,
    fuel: nat,
)
    requires
        structural_name(s) == Some(name),
        env_doc(env, name) == EnvDoc::Parsed(JsonV::Arr(inner)),
        fuel >= 1,
    ensures
        resolve_val(JsonV::Arr(seq![JsonV::Str(s)]), env, fuel) == (match resolve_items(
            inner,
            env,
            (fuel - 1) as nat,
            0,
        ) {
            Ok(ri) => Ok::<JsonV, ResolveErrV>(JsonV::Arr(ri)),
            Err(e) => Err(e),
        }),
{
    reveal_with_fuel(resolve_items, 3);
    let items = seq![JsonV::Str(s)];
    assert(items[0] == JsonV::Str(s));
    assert(items.len() == 1);
    assert(resolve_items(items, env, fuel, 1) == Ok::<Seq<JsonV>, ResolveErrV>(Seq::empty()));
    assert(resolve_spliced(JsonV::Arr(inner), env, (fuel - 1) as nat) == resolve_items(
        inner,
        env,
        (fuel - 1) as nat,
        0,
    ));
    match resolve_items(inner, env, (fuel - 1) as nat, 0) {
        Ok(ri) => {
            assert(resolve_items(items, env, fuel, 0) == Ok::<Seq<JsonV>, ResolveErrV>(
                ri + Seq::empty(),
            ));
            assert(ri + Seq::<JsonV>::empty() =~= ri);
            assert(resolve_val(JsonV::Arr(items), env, fuel) == Ok::<JsonV, ResolveErrV>(
                JsonV::Arr(ri),
            ));
        },
        Err(e) => {
            assert(resolve_items(items, env, fuel, 0) == Err::<Seq<JsonV>, ResolveErrV>(e));
            assert(resolve_val(JsonV::Arr(items), env, fuel) == Err::<JsonV, ResolveErrV>(e));
        },
    }
}

/// Law: the same placeholder standing as a whole-string scalar value is
/// substituted in place — the parsed value (resolved with one level of
/// depth budget spent) stands where the string stood, never flattened,
/// whether or not it is an array.
pub proof fn lemma_scalar_substitution(
    s: Seq<char>,
    name: Seq<char>,
    w: JsonV,
    env: Seq<(Seq<char>, Seq<char>)>,
    fuel: nat,
)
    requires
        structural_name(s) == Some(name),
        env_doc(env, name) == EnvDoc::Parsed(w),
        fuel >= 1,
    ensures
        resolve_val(JsonV::Str(s), env, fuel) == resolve_val(w, env, (fuel - 1) as nat),
{
}

/// Law: a missing structural placeholder in array position drops its
/// element — resolution of the array simply continues past it, so the
/// array shrinks by one. In particular a sole such element leaves the
/// empty array.
pub proof fn lemma_array_missing_drops(
    items: Seq<JsonV>,
    k: int,
    s: Seq<char>,
    name: Seq<char>,
    env: Seq<(Seq<char>, Seq<char>)>,
    fuel: nat,
)
    requires
        0 <= k < items.len(),
        items[k] == JsonV::Str(s),
        structural_name(s) == Some(name),
        env_doc(env, name) == EnvDoc::Absent,
    ensures
        resolve_items(items, env, fuel, k) == resolve_items(items, env, fuel, k + 1),
        resolve_val(JsonV::Arr(seq![JsonV::Str(s)]), env, fuel) == Ok::<JsonV, ResolveErrV>(
            JsonV::Arr(Seq::empty()),
        ),
{
    reveal_with_fuel(resolve_items, 3);
    let sole = seq![JsonV::Str(s)];
    assert(sole[0] == JsonV::Str(s));
    assert(sole.len() == 1);
    assert(items[k] == JsonV::Str(s));
    assert(resolve_items(sole, env, fuel, 1) == Ok::<Seq<JsonV>, ResolveErrV>(Seq::empty()));
    assert(resolve_items(sole, env, fuel, 0) == resolve_items(sole, env, fuel, 1));
    assert(resolve_val(JsonV::Arr(sole), env, fuel) == Ok::<JsonV, ResolveErrV>(
        JsonV::Arr(Seq::empty()),
    ));
}

/// Law: the same missing placeholder in scalar position keeps the literal
/// placeholder text unchanged. This asymmetry with the array case is
/// deliberate (optionally-omitted array entries) and is preserved exactly.
pub proof fn lemma_scalar_missing_keeps(
    s: Seq<char>,
    name: Seq<char>,
    env: Seq<(Seq<char>, Seq<char>)>,
    fuel: nat,
)
    requires
        structural_name(s) == Some(name),
        env_doc(env, name) == EnvDoc::Absent,
    ensures
        resolve_val(JsonV::Str(s), env, fuel) == Ok::<JsonV, ResolveErrV>(JsonV::Str(s)),
{
}

proof fn lemma_find_close_none(s: Seq<char>, i: int)
    requires
        0 <= i,
        forall|k: int| i <= k < s.len() ==> s[k] != '}',
    ensures
        find_close(s, i) is None,
    decreases s.len() - i,
{
    if i < s.len() {
        lemma_find_close_none(s, i + 1);
    }
}

proof fn lemma_find_close_at(s: Seq<char>, i: int, j: int)
    requires
        0 <= i <= j < s.len(),
        s[j] == '}',
        forall|k: int| i <= k < j ==> s[k] != '}',
    ensures
        find_close(s, i) == Some(j),
    decreases j - i,
{
    if i < j {
        lemma_find_close_at(s, i + 1, j);
    }
}

/// Law: a well-formed `${NAME}` whose name is bound in the snapshot is
/// replaced by the raw looked-up string.
pub proof fn lemma_interp_present(
    name: Seq<char>,
    v: Seq<char>,
    env: Seq<(Seq<char>, Seq<char>)>,
)
    requires
        valid_name(name),
        lookup(env, name) == Some(v),
    ensures
        spec_interp(seq!['$', '{'] + name + seq!['}'], env, 0) == v,
{
    let s = seq!['$', '{'] + name + seq!['}'];
    let j = 0int;
    let k = name.len() + 2;
    assert(s[0] == '$' && s[1] == '{');
    assert(s[k as int] == '}');
    assert forall|p: int| 2 <= p < k implies s[p] != '}' by {
        assert(s[p] == name[p - 2]);
        assert(is_name_char(name[p - 2]));
    }
    lemma_find_close_at(s, 2, k as int);
    assert(s.subrange(2, k as int) =~= name);
    assert(spec_interp(s, env, k as int + 1) =~= Seq::<char>::empty());
    assert(s.subrange(0, 0) + v + spec_interp(s, env, k as int + 1) =~= v);
}

/// Law: a well-formed `${NAME}` whose name is absent from the snapshot is
/// replaced by the empty string.
pub proof fn lemma_interp_absent(name: Seq<char>, env: Seq<(Seq<char>, Seq<char>)>)
    requires
        valid_name(name),
        lookup(env, name) is None,
    ensures
        spec_interp(seq!['$', '{'] + name + seq!['}'], env, 0) == Seq::<char>::empty(),
{
    let s = seq!['$', '{'] + name + seq!['}'];
    let k = name.len() + 2;
    assert(s[0] == '$' && s[1] == '{');
    assert(s[k as int] == '}');
    assert forall|p: int| 2 <= p < k implies s[p] != '}' by {
        assert(s[p] == name[p - 2]);
        assert(is_name_char(name[p - 2]));
    }
    lemma_find_close_at(s, 2, k as int);
    assert(s.subrange(2, k as int) =~= name);
    assert(spec_interp(s, env, k as int + 1) =~= Seq::<char>::empty());
    assert(s.subrange(0, 0) + spec_interp(s, env, k as int + 1) =~= Seq::<char>::empty());
}

/// Law: a `${` opener with no closing brace anywhere after it is left
/// verbatim — the scan, being a total function of the input, stops rather
/// than looping.
pub proof fn lemma_interp_unclosed(s: Seq<char>, env: Seq<(Seq<char>, Seq<char>)>)
    requires
        s.len() >= 2,
        s[0] == '$',
        s[1] == '{',
        forall|k: int| 2 <= k < s.len() ==> s[k] != '}',
    ensures
        spec_interp(s, env, 0) == s,
{
    lemma_find_close_none(s, 2);
    assert(spec_interp(s, env, 0) =~= s);
}

} // verus!

//! Serialisation of a document tree back to JSON text: the inverse of the
//! parser, writing strings with the usual escapes, numbers as their kept
//! literal tokens, and members and elements in their preserved order.

use vstd::prelude::*;
use crate::json::{Json, JsonV, json_view, json_view_items, json_view_members,
    lemma_view_items_index, lemma_view_members_index};
use crate::resolve::clone_chars;
use crate::text::chars_string;

verus! {

/// The lower-case hexadecimal digit for a value below sixteen.
pub open spec fn hex_digit(d: u32) -> char {
    if d < 10 {
        (('0' as u32) + d) as char
    } else {
        (('a' as u32) + (d - 10) as u32) as char
    }
}

/// What one string character serialises to: itself, or an escape.
pub open spec fn esc_of(c: char) -> Seq<char> {
    if c == '"' {
        seq!['\\', '"']
    } else if c == '\\' {
        seq!['\\', '\\']
    } else if c == '\n' {
        seq!['\\', 'n']
    } else if c == '\r' {
        seq!['\\', 'r']
    } else if c == '\t' {
        seq!['\\', 't']
    } else if c == '\u{8}' {
        seq!['\\', 'b']
    } else if c == '\u{c}' {
        seq!['\\', 'f']
    } else if (c as u32) < 32 {
        seq!['\\', 'u', '0', '0', hex_digit((c as u32) / 16), hex_digit((c as u32) % 16)]
    } else {
        seq![c]
    }
}

/// The serialised content of a string, from index `k` on.
pub open spec fn ser_str(s: Seq<char>, k: int) -> Seq<char>
    decreases s.len() - k,
{
    if !(0 <= k < s.len()) {
        Seq::empty()
    } else {
        esc_of(s[k]) + ser_str(s, k + 1)
    }
}

/// The serialised text of one value.
pub open spec fn ser_val(v: JsonV) -> Seq<char>
    decreases v, 0int, 0int,
{
    match v {
        JsonV::Null => seq!['n', 'u', 'l', 'l'],
        JsonV::Bool(b) => if b {
            seq!['t', 'r', 'u', 'e']
        } else {
            seq!['f', 'a', 'l', 's', 'e']
        },
        JsonV::Num(t) => t,
        JsonV::Str(s) => seq!['"'] + ser_str(s, 0) + seq!['"'],
        JsonV::Arr(items) => seq!['['] + ser_items(items, 0) + seq![']'],
        JsonV::Obj(members) => seq!['{'] + ser_members(members, 0) + seq!['}'],
    }
}

/// The comma-separated serialised elements from index `k` on.
pub open spec fn ser_items(items: Seq<JsonV>, k: int) -> Seq<char>
    decreases items, items.len() - k, 1int,
{
    if !(0 <= k < items.len()) {
        Seq::empty()
    } else if k + 1 < items.len() {
        ser_val(items[k]) + seq![','] + ser_items(items, k + 1)
    } else {
        ser_val(items[k])
    }
}

/// The comma-separated serialised members from index `k` on.
pub open spec fn ser_members(members: Seq<(Seq<char>, JsonV)>, k: int) -> Seq<char>
    decreases members, members.len() - k, 1int,
{
    if !(0 <= k < members.len()) {
        Seq::empty()
    } else if k + 1 < members.len() {
        seq!['"'] + ser_str(members[k].0, 0) + seq!['"', ':'] + ser_val(members[k].1)
            + seq![','] + ser_members(members, k + 1)
    } else {
        seq!['"'] + ser_str(members[k].0, 0) + seq!['"', ':'] + ser_val(members[k].1)
    }
}

/// The serialised text of a whole document.
pub open spec fn spec_ser(v: JsonV) -> Seq<char> {
    ser_val(v)
}

fn hex_digit_exec(d: u32) -> (r: char)
    requires
        d < 16,
    ensures
        r == hex_digit(d),
{
    if d == 0 {
        '0'
    } else if d == 1 {
        '1'
    } else if d == 2 {
        '2'
    } else if d == 3 {
        '3'
    } else if d == 4 {
        '4'
    } else if d == 5 {
        '5'
    } else if d == 6 {
        '6'
    } else if d == 7 {
        '7'
    } else if d == 8 {
        '8'
    } else if d == 9 {
        '9'
    } else if d == 10 {
        'a'
    } else if d == 11 {
        'b'
    } else if d == 12 {
        'c'
    } else if d == 13 {
        'd'
    } else if d == 14 {
        'e'
    } else {
        'f'
    }
}

fn esc_push(c: char, out: &mut Vec<char>)
    ensures
        final(out)@ == old(out)@ + esc_of(c),
{
    let ghost base = out@;
    if c == '"' {
        out.push('\\');
        out.push('"');
    } else if c == '\\' {
        out.push('\\');
        out.push('\\');
    } else if c == '\n' {
        out.push('\\');
        out.push('n');
    } else if c == '\r' {
        out.push('\\');
        out.push('r');
    } else if c == '\t' {
        out.push('\\');
        out.push('t');
    } else if c == '\u{8}' {
        out.push('\\');
        out.push('b');
    } else if c == '\u{c}' {
        out.push('\\');
        out.push('f');
    } else if (c as u32) < 32 {
        out.push('\\');
        out.push('u');
        out.push('0');
        out.push('0');
        out.push(hex_digit_exec((c as u32) / 16));
        out.push(hex_digit_exec((c as u32) % 16));
    } else {
        out.push(c);
    }
    proof {
        assert(out@ =~= base + esc_of(c));
    }
}

fn ser_str_into(s: &Vec<char>, out: &mut Vec<char>)
    ensures
        final(out)@ == old(out)@ + ser_str(s@, 0),
{
    let mut k: usize = 0;
    while k < s.len()
        invariant
            k <= s@.len(),
            out@ + ser_str(s@, k as int) == old(out)@ + ser_str(s@, 0),
        decreases s@.len() - k,
    {
        let ghost prev = out@;
        esc_push(s[k], out);
        proof {
            assert(prev + ser_str(s@, k as int) =~= out@ + ser_str(s@, k as int + 1));
        }
        k = k + 1;
    }
    proof {
        assert(out@ =~= out@ + ser_str(s@, s@.len() as int));
    }
}

fn ser_into(v: &Json, out: &mut Vec<char>)
    ensures
        final(out)@ == old(out)@ + ser_val(v@),
    decreases v, 0int, 0int,
{
    let ghost base = out@;
    match v {
        Json::Null => {
            out.push('n');
            out.push('u');
            out.push('l');
            out.push('l');
            proof {
                assert(out@ =~= base + ser_val(v@));
            }
        },
        Json::Bool(b) => {
            if *b {
                out.push('t');
                out.push('r');
                out.push('u');
                out.push('e');
            } else {
                out.push('f');
                out.push('a');
                out.push('l');
                out.push('s');
                out.push('e');
            }
            proof {
                assert(out@ =~= base + ser_val(v@));
            }
        },
        Json::Num(t) => {
            let mut k: usize = 0;
            while k < t.len()
                invariant
                    k <= t@.len(),
                    out@ == base + t@.subrange(0, k as int),
                decreases t@.len() - k,
            {
                out.push(t[k]);
                proof {
                    assert(out@ =~= base + t@.subrange(0, k as int + 1));
                }
                k = k + 1;
            }
            proof {
                assert(out@ =~= base + ser_val(v@));
            }
        },
        Json::Str(s) => {
            out.push('"');
            ser_str_into(s, out);
            out.push('"');
            proof {
                assert(out@ =~= base + ser_val(v@));
            }
        },
        Json::Arr(items) => {
            out.push('[');
            ser_items_into(items, 0, out);
            out.push(']');
            proof {
                assert(out@ =~= base + ser_val(v@));
            }
        },
        Json::Obj(members) => {
            out.push('{');
            ser_members_into(members, 0, out);
            out.push('}');
            proof {
                assert(out@ =~= base + ser_val(v@));
            }
        },
    }
}

fn ser_items_into(items: &Vec<Json>, k: usize, out: &mut Vec<char>)
    requires
        k <= items@.len(),
    ensures
        final(out)@ == old(out)@ + ser_items(json_view_items(*items, 0), k as int),
    decreases items, items@.len() - k, 1int,
{
    proof {
        lemma_view_items_index(*items, 0);
    }
    if k >= items.len() {
        return ;
    }
    let ghost base = out@;
    ser_into(&items[k], out);
    if k + 1 < items.len() {
        out.push(',');
        let ghost mid = out@;
        ser_items_into(items, k + 1, out);
        proof {
            assert(out@ =~= base + ser_items(json_view_items(*items, 0), k as int));
        }
    } else {
        proof {
            assert(out@ =~= base + ser_items(json_view_items(*items, 0), k as int));
        }
    }
}

fn ser_members_into(members: &Vec<(Vec<char>, Json)>, k: usize, out: &mut Vec<char>)
    requires
        k <= members@.len(),
    ensures
        final(out)@ == old(out)@ + ser_members(json_view_members(*members, 0), k as int),
    decreases members, members@.len() - k, 1int,
{
    proof {
        lemma_view_members_index(*members, 0);
    }
    if k >= members.len() {
        return ;
    }
    let ghost base = out@;
    out.push('"');
    ser_str_into(&members[k].0, out);
    out.push('"');
    out.push(':');
    ser_into(&members[k].1, out);
    if k + 1 < members.len() {
        out.push(',');
        ser_members_into(members, k + 1, out);
        proof {
            assert(out@ =~= base + ser_members(json_view_members(*members, 0), k as int));
        }
    } else {
        proof {
            assert(out@ =~= base + ser_members(json_view_members(*members, 0), k as int));
        }
    }
}

/// Serialises a document to JSON text: exactly what `spec_ser` says.
pub fn to_text(v: &Json) -> (r: String)
    ensures
        r@ == spec_ser(v@),
{
    let mut out: Vec<char> = Vec::new();
    ser_into(v, &mut out);
    chars_string(&out)
}

/// Two spaces for each nesting level.
pub open spec fn indent(d: nat) -> Seq<char>
    decreases d,
{
    if d == 0 {
        Seq::empty()
    } else {
        indent((d - 1) as nat) + seq![' ', ' ']
    }
}

/// The pretty-printed text of one value at nesting depth `d`: scalars as
/// in the compact form; a non-empty array or object opens its bracket,
/// puts each element on its own deeper-indented line, and closes the
/// bracket on a line of its own.
pub open spec fn ser_val_pretty(v: JsonV, d: nat) -> Seq<char>
    decreases v, 0int, 0int,
{
    match v {
        JsonV::Arr(items) => {
            if items.len() == 0 {
                seq!['[', ']']
            } else {
                seq!['[', '\n'] + ser_items_pretty(items, 0, d + 1) + seq!['\n'] + indent(d)
                    + seq![']']
            }
        },
        JsonV::Obj(members) => {
            if members.len() == 0 {
                seq!['{', '}']
            } else {
                seq!['{', '\n'] + ser_members_pretty(members, 0, d + 1) + seq!['\n'] + indent(
                    d,
                ) + seq!['}']
            }
        },
        _ => ser_val(v),
    }
}

/// The pretty-printed elements from index `k` on, one per line.
pub open spec fn ser_items_pretty(items: Seq<JsonV>, k: int, d: nat) -> Seq<char>
    decreases items, items.len() - k, 1int,
{
    if !(0 <= k < items.len()) {
        Seq::empty()
    } else if k + 1 < items.len() {
        indent(d) + ser_val_pretty(items[k], d) + seq![',', '\n'] + ser_items_pretty(
            items,
            k + 1,
            d,
        )
    } else {
        indent(d) + ser_val_pretty(items[k], d)
    }
}

/// The pretty-printed members from index `k` on, one per line.
pub open spec fn ser_members_pretty(members: Seq<(Seq<char>, JsonV)>, k: int, d: nat) -> Seq<
    char,
>
    decreases members, members.len() - k, 1int,
{
    if !(0 <= k < members.len()) {
        Seq::empty()
    } else if k + 1 < members.len() {
        indent(d) + seq!['"'] + ser_str(members[k].0, 0) + seq!['"', ':', ' ']
            + ser_val_pretty(members[k].1, d) + seq![',', '\n'] + ser_members_pretty(
            members,
            k + 1,
            d,
        )
    } else {
        indent(d) + seq!['"'] + ser_str(members[k].0, 0) + seq!['"', ':', ' ']
            + ser_val_pretty(members[k].1, d)
    }
}

/// The pretty-printed text of a whole document.
pub open spec fn spec_ser_pretty(v: JsonV) -> Seq<char> {
    ser_val_pretty(v, 0)
}

fn deeper_pad(pad: &Vec<char>, Ghost(d): Ghost<nat>) -> (r: Vec<char>)
    requires
        pad@ == indent(d),
    ensures
        r@ == indent(d + 1),
{
    let mut r = clone_chars(pad);
    r.push(' ');
    r.push(' ');
    proof {
        assert(r@ =~= indent(d + 1));
    }
    r
}

fn push_pad(pad: &Vec<char>, out: &mut Vec<char>)
    ensures
        final(out)@ == old(out)@ + pad@,
{
    let mut copy = clone_chars(pad);
    out.append(&mut copy);
}

fn ser_into_pretty(v: &Json, pad: &Vec<char>, Ghost(d): Ghost<nat>, out: &mut Vec<char>)
    requires
        pad@ == indent(d),
    ensures
        final(out)@ == old(out)@ + ser_val_pretty(v@, d),
    decreases v, 0int, 0int,
{
    let ghost base = out@;
    match v {
        Json::Arr(items) => {
            if items.len() == 0 {
                out.push('[');
                out.push(']');
                proof {
                    assert(out@ =~= base + ser_val_pretty(v@, d));
                }
            } else {
                out.push('[');
                out.push('\n');
                let deeper = deeper_pad(pad, Ghost(d));
                ser_items_pretty_into(items, 0, &deeper, Ghost(d + 1), out);
                out.push('\n');
                push_pad(pad, out);
                out.push(']');
                proof {
                    lemma_view_items_index(*items, 0);
                    assert(out@ =~= base + ser_val_pretty(v@, d));
                }
            }
        },
        Json::Obj(members) => {
            if members.len() == 0 {
                out.push('{');
                out.push('}');
                proof {
                    assert(out@ =~= base + ser_val_pretty(v@, d));
                }
            } else {
                out.push('{');
                out.push('\n');
                let deeper = deeper_pad(pad, Ghost(d));
                ser_members_pretty_into(members, 0, &deeper, Ghost(d + 1), out);
                out.push('\n');
                push_pad(pad, out);
                out.push('}');
                proof {
                    lemma_view_members_index(*members, 0);
                    assert(out@ =~= base + ser_val_pretty(v@, d));
                }
            }
        },
        _ => {
            ser_into(v, out);
            proof {
                assert(out@ =~= base + ser_val_pretty(v@, d));
            }
        },
    }
}

fn ser_items_pretty_into(
    items: &Vec<Json>,
    k: usize,
    pad: &Vec<char>,
    Ghost(d): Ghost<nat>,
    out: &mut Vec<char>,
)
    requires
        k <= items@.len(),
        pad@ == indent(d),
    ensures
        final(out)@ == old(out)@ + ser_items_pretty(json_view_items(*items, 0), k as int, d),
    decreases items, items@.len() - k, 1int,
{
    proof {
        lemma_view_items_index(*items, 0);
    }
    if k >= items.len() {
        return ;
    }
    let ghost base = out@;
    push_pad(pad, out);
    ser_into_pretty(&items[k], pad, Ghost(d), out);
    if k + 1 < items.len() {
        out.push(',');
        out.push('\n');
        ser_items_pretty_into(items, k + 1, pad, Ghost(d), out);
        proof {
            assert(out@ =~= base + ser_items_pretty(json_view_items(*items, 0), k as int, d));
        }
    } else {
        proof {
            assert(out@ =~= base + ser_items_pretty(json_view_items(*items, 0), k as int, d));
        }
    }
}

fn ser_members_pretty_into(
    members: &Vec<(Vec<char>, Json)>,
    k: usize,
    pad: &Vec<char>,
    Ghost(d): Ghost<nat>,
    out: &mut Vec<char>,
)
    requires
        k <= members@.len(),
        pad@ == indent(d),
    ensures
        final(out)@ == old(out)@ + ser_members_pretty(
            json_view_members(*members, 0),
            k as int,
            d,
        ),
    decreases members, members@.len() - k, 1int,
{
    proof {
        lemma_view_members_index(*members, 0);
    }
    if k >= members.len() {
        return ;
    }
    let ghost base = out@;
    push_pad(pad, out);
    out.push('"');
    ser_str_into(&members[k].0, out);
    out.push('"');
    out.push(':');
    out.push(' ');
    ser_into_pretty(&members[k].1, pad, Ghost(d), out);
    if k + 1 < members.len() {
        out.push(',');
        out.push('\n');
        ser_members_pretty_into(members, k + 1, pad, Ghost(d), out);
        proof {
            assert(out@ =~= base + ser_members_pretty(
                json_view_members(*members, 0),
                k as int,
                d,
            ));
        }
    } else {
        proof {
            assert(out@ =~= base + ser_members_pretty(
                json_view_members(*members, 0),
                k as int,
                d,
            ));
        }
    }
}

/// Serialises a document to pretty-printed JSON text (two-space indent):
/// exactly what `spec_ser_pretty` says.
pub fn to_text_pretty(v: &Json) -> (r: String)
    ensures
        r@ == spec_ser_pretty(v@),
{
    let mut out: Vec<char> = Vec::new();
    let pad: Vec<char> = Vec::new();
    proof {
        assert(pad@ =~= indent(0));
    }
    ser_into_pretty(v, &pad, Ghost(0nat), &mut out);
    chars_string(&out)
}

} // verus!

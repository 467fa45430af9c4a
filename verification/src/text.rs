use vstd::prelude::*;

verus! {

/// Relies on the iterator chain `str::chars().collect()`: it yields the
/// characters of the string, in order, so the resulting vector's view is
/// exactly the string's view.
#[verifier::external_body]
pub fn str_chars(s: &str) -> (r: Vec<char>)
    ensures
        r@ == s@,
{
    s.chars().collect()
}

/// Relies on the iterator chain `slice::iter().collect()` for `String`: the
/// built string holds exactly the given characters, in order.
#[verifier::external_body]
pub fn chars_string(v: &Vec<char>) -> (r: String)
    ensures
        r@ == v@,
{
    v.iter().collect()
}

/// Relies on char::from_u32: it returns `Some` exactly on Unicode scalar
/// values, and then the returned character is that code point.
#[verifier::external_body]
pub fn char_from_u32(cp: u32) -> (r: Option<char>)
    ensures
        (cp < 0xD800 || (0xE000 <= cp && cp <= 0x10FFFF)) ==> r == Some(cp as char),
        !(cp < 0xD800 || (0xE000 <= cp && cp <= 0x10FFFF)) ==> r is None,
{
    char::from_u32(cp)
}

} // verus!

//! Trusted declarations for the few pieces of the standard library that the
//! library needs and that vstd does not specify.

use vstd::prelude::*;

verus! {

/// Relies on `String::push`: appends the given character to the end of the
/// string.
#[verifier::external_body]
pub fn push_char(s: &mut String, c: char)
    ensures
        final(s)@ == old(s)@.push(c),
{
    s.push(c);
}

/// Relies on `char::from_u32`: returns `Some` exactly for valid Unicode
/// scalar values (below the surrogate range or between it and 0x10FFFF),
/// and the returned character has the given code.
#[verifier::external_body]
pub fn char_from_u32(u: u32) -> (r: Option<char>)
    ensures
        (match r {
            Some(c) => c as u32 == u,
            None => true,
        }),
        r is Some <==> (u < 0xD800 || (0xE000 <= u && u <= 0x10FFFF)),
{
    char::from_u32(u)
}

} // verus!

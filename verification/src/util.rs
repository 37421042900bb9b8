//! Small trusted shims around `std` string operations that vstd does not
//! specify.

use vstd::prelude::*;

verus! {

/// Relies on `String::push`: appends the given character to the end of the
/// string.
#[verifier::external_body]
pub(crate) fn push_char(s: &mut String, c: char)
    ensures
        final(s)@ == old(s)@.push(c),
{
    s.push(c)
}

/// What `char::is_whitespace` returns: a property of the character alone,
/// defined by the Unicode `White_Space` table.
pub uninterp spec fn is_white(c: char) -> bool;

/// Relies on `char::is_whitespace`: the Unicode `White_Space` property of
/// the character, named by [`is_white`].
#[verifier::external_body]
pub(crate) fn char_is_whitespace(c: char) -> (r: bool)
    ensures
        r == is_white(c),
{
    c.is_whitespace()
}

/// Relies on `String::push_str`: appends the given string slice to the end
/// of the string.
#[verifier::external_body]
pub(crate) fn push_str_onto(s: &mut String, piece: &str)
    ensures
        final(s)@ == old(s)@ + piece@,
{
    s.push_str(piece)
}

/// Relies on `char::encode_utf8`: the UTF-8 encoding of the character, which
/// vstd defines mathematically as `encode_scalar` of its code point.
#[verifier::external_body]
pub(crate) fn encode_char(c: char) -> (r: Vec<u8>)
    ensures
        r@ == vstd::utf8::encode_scalar(c as u32),
{
    let mut buf = [0u8; 4];
    let s = c.encode_utf8(&mut buf);
    s.as_bytes().to_vec()
}

/// Relies on `char::from_u32`: `Some` exactly on Unicode scalar values (all
/// code points except the surrogate range), carrying that very value.
#[verifier::external_body]
pub(crate) fn char_from_u32(v: u32) -> (r: Option<char>)
    ensures
        (r is Some) <==> (v <= 0x10FFFF && !(0xD800 <= v <= 0xDFFF)),
        r is Some ==> r->0 as u32 == v,
{
    char::from_u32(v)
}

} // verus!

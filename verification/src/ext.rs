use vstd::prelude::*;

verus! {

/// Relies on std's String::push: appends the given character to the end of
/// the string, and does nothing else to it.
pub assume_specification[ String::push ](s: &mut String, ch: char)
    ensures
        final(s)@ == old(s)@.push(ch),
;

/// Relies on std's char::from_u32: `Some` exactly for values that are valid
/// Unicode scalar values (not surrogates, not above the Unicode maximum),
/// and then the character with that code point.
pub assume_specification[ char::from_u32 ](u: u32) -> (r: Option<char>)
    ensures
        r is Some <==> (u < 0xD800 || (0xDFFF < u && u <= 0x10FFFF)),
        r is Some ==> r.unwrap() == u as char,
;

} // verus!

//! Building strings, delegated to `std`.
use vstd::prelude::*;

verus! {

/// Appends `tail` to `s` with `String::push_str`.
///
/// Trusted: `push_str` appends the given string slice onto the end of the
/// `String`, as its documentation says.
#[verifier::external_body]
pub(crate) fn push_str(s: &mut String, tail: &str)
    ensures
        final(s)@ == old(s)@ + tail@,
{
    s.push_str(tail);
}

/// Appends one character to `s` with `String::push`.
///
/// Trusted: `push` appends the given `char` to the end of the `String`, as its
/// documentation says.
#[verifier::external_body]
pub(crate) fn push_char(s: &mut String, c: char)
    ensures
        final(s)@ == old(s)@.push(c),
{
    s.push(c);
}

} // verus!

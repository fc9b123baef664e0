use vstd::prelude::*;

verus! {

/// Appends one character to a `String` (std `String::push`).
///
/// Trusted: `String::push` appends the character at the end; the contract
/// states exactly that over the character view.
#[verifier::external_body]
pub(crate) fn push_char(s: &mut String, c: char)
    ensures
        final(s)@ == old(s)@.push(c),
{
    s.push(c)
}

} // verus!

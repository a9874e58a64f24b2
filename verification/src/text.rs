//! String concatenation for composed error messages, wrapped because
//! the standard library's append carries no specification here.

use vstd::prelude::*;

verus! {

/// Relies on String::push_str: the result is the base with the tail
/// appended, character for character.
#[verifier::external_body]
pub(crate) fn append_str(base: String, tail: &str) -> (r: String)
    ensures
        r@ == base@ + tail@,
{
    let mut base = base;
    base.push_str(tail);
    base
}

} // verus!

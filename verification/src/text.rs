//! What the library needs of `String` beyond what the verifier's standard
//! library states.

use vstd::prelude::*;

verus! {

/// `String::push` of the standard library appends the character to the end
/// of the string and leaves what was there as it was.
pub assume_specification[ String::push ](s: &mut String, c: char)
    ensures
        final(s)@ == old(s)@.push(c),
;

} // verus!

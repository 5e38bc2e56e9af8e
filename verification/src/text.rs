//! What this library assumes of `String`.

use vstd::prelude::*;

verus! {

/// `String::push` appends the one character `c` to the end of `s` and
/// leaves the characters before it as they were.
pub assume_specification[ String::push ](s: &mut String, c: char)
    ensures
        final(s)@ == old(s)@.push(c),
;

} // verus!

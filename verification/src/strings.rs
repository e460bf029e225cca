//! What the library needs of text: one character appended to a string, and the texts of a
//! list of strings.

use vstd::prelude::*;

verus! {

/// `String::push` of the standard library: appends the character to the end of the string
/// and changes nothing else of it.
pub assume_specification[ String::push ](text: &mut String, ch: char)
    ensures
        final(text)@ == old(text)@.push(ch),
;

/// The texts of a sequence of strings.
pub open spec fn texts(strings: Seq<String>) -> Seq<Seq<char>> {
    Seq::new(strings.len(), |i: int| strings[i]@)
}

} // verus!

//! `String` methods that the library calls and vstd does not specify.

use vstd::prelude::*;

verus! {

/// `String::with_capacity`, which makes an empty string. It panics when the
/// capacity is above `isize::MAX` bytes.
pub assume_specification[ String::with_capacity ](capacity: usize) -> (r: String)
    requires
        capacity <= isize::MAX,
    ensures
        r@ == Seq::<char>::empty(),
;

/// The string that `String::clear` leaves of `s`: the same one, emptied.
pub uninterp spec fn emptied(s: String) -> String;

/// `String::clear`, which removes all contents, and leaves the capacity as it is.
pub assume_specification[ String::clear ](s: &mut String)
    ensures
        *final(s) == emptied(*old(s)),
        final(s)@ == Seq::<char>::empty(),
;

} // verus!

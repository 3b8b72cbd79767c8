//! The messages that wait for the next write, kept in a `SmallVec`.

use smallvec::SmallVec;
use vstd::layout::size_of;
use vstd::prelude::*;

use crate::message::LogMsg;

verus! {

/// How many messages a batch holds without an allocation.
pub const INLINE_MESSAGES: usize = 512;

/// Messages in the order in which they came. The first 512 of them need no
/// allocation.
#[verifier::external_body]
pub struct Batch {
    items: SmallVec<[LogMsg; 512]>,
}

/// The messages of a batch, oldest first.
pub uninterp spec fn batch_items(batch: Batch) -> Seq<LogMsg>;

/// The number of messages that a batch was made for.
pub uninterp spec fn batch_limit(batch: Batch) -> nat;

/// Whether a batch can be made for `len` messages: they need no allocation, or stay
/// within `isize::MAX` bytes.
pub open spec fn fits_in_batch(len: nat) -> bool {
    len <= INLINE_MESSAGES || len * size_of::<LogMsg>() <= isize::MAX
}

impl Batch {
    /// `SmallVec::with_capacity`, which makes an empty vector with room for
    /// `capacity` items. It panics when these are more than it holds inline and
    /// would take more than `isize::MAX` bytes.
    #[verifier::external_body]
    pub(crate) fn with_capacity(capacity: usize) -> (r: Self)
        requires
            fits_in_batch(capacity as nat),
        ensures
            batch_items(r) == Seq::<LogMsg>::empty(),
            batch_limit(r) == capacity,
    {
        Batch { items: SmallVec::with_capacity(capacity) }
    }

    /// `SmallVec::push`, which appends `item`. It allocates, and may panic, only
    /// where the items it was made for and those it holds inline are all there.
    #[verifier::external_body]
    pub(crate) fn push(&mut self, item: LogMsg)
        requires
            batch_items(*old(self)).len() < INLINE_MESSAGES || batch_items(*old(self)).len()
                < batch_limit(*old(self)),
        ensures
            batch_items(*final(self)) == batch_items(*old(self)).push(item),
            batch_limit(*final(self)) == batch_limit(*old(self)),
    {
        self.items.push(item)
    }

    /// `SmallVec::len`, the number of items.
    #[verifier::external_body]
    pub(crate) fn len(&self) -> (r: usize)
        ensures
            r == batch_items(*self).len(),
    {
        self.items.len()
    }

    /// `SmallVec::is_empty`, whether there is no item.
    #[verifier::external_body]
    pub(crate) fn is_empty(&self) -> (r: bool)
        ensures
            r == (batch_items(*self).len() == 0),
    {
        self.items.is_empty()
    }

    /// `SmallVec::drain` over the full range, which removes every item, yields
    /// them from the first to the last, and keeps the room.
    #[verifier::external_body]
    pub(crate) fn drain(&mut self) -> (r: Vec<LogMsg>)
        ensures
            r@ == batch_items(*old(self)),
            batch_items(*final(self)) == Seq::<LogMsg>::empty(),
            batch_limit(*final(self)) == batch_limit(*old(self)),
    {
        self.items.drain(..).collect()
    }
}

} // verus!

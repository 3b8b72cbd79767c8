//! A pool of spare strings, so that logging seldom allocates.
//!
//! Its methods take it exclusively, so that what it holds is known. To share a
//! pool, put it behind a lock.

use crossbeam_queue::SegQueue;
use vstd::prelude::*;

use crate::strings::emptied;

verus! {

/// How many spare strings a pool holds at most, and how many it starts with.
pub const POOL_LIMIT: usize = 1000;

/// The capacity in bytes that a new string is given.
pub const STRING_CAPACITY: usize = 256;

/// Declares `crossbeam_queue::SegQueue`, of which nothing is known but its name
/// below.
#[verifier::external_type_specification]
#[verifier::external_body]
#[verifier::reject_recursive_types(T)]
pub struct ExSegQueue<T>(SegQueue<T>);

/// The strings in a queue, the next to be popped first.
pub uninterp spec fn queued(queue: SegQueue<String>) -> Seq<String>;

/// `SegQueue::new`, which makes an empty queue.
#[verifier::external_body]
fn queue_new() -> (r: SegQueue<String>)
    ensures
        queued(r) == Seq::<String>::empty(),
{
    SegQueue::new()
}

/// `SegQueue::push`, which adds `s` at the tail. The exclusive reference says
/// that no other thread is at the queue.
#[verifier::external_body]
fn queue_push(queue: &mut SegQueue<String>, s: String)
    ensures
        queued(*final(queue)) == queued(*old(queue)).push(s),
{
    queue.push(s)
}

/// `SegQueue::pop`, which takes the string at the head, or gives `None` and
/// changes nothing when the queue is empty. The exclusive reference says that no
/// other thread is at the queue.
#[verifier::external_body]
fn queue_pop(queue: &mut SegQueue<String>) -> (r: Option<String>)
    ensures
        match r {
            Some(s) => {
                &&& queued(*old(queue)).len() > 0
                &&& s == queued(*old(queue))[0]
                &&& queued(*final(queue)) == queued(*old(queue)).drop_first()
            },
            None => {
                &&& queued(*old(queue)).len() == 0
                &&& queued(*final(queue)) == queued(*old(queue))
            },
        },
{
    queue.pop()
}

/// A pool of empty strings to write messages into.
pub struct StringPool {
    queue: SegQueue<String>,
    count: usize,
}

/// The view of a pool is its strings, the longest there first.
impl View for StringPool {
    type V = Seq<String>;

    closed spec fn view(&self) -> Seq<String> {
        queued(self.queue)
    }
}

/// The strings of a pool after `s` was put back: `s` comes last, emptied, unless
/// the pool is full.
pub open spec fn with_spare(spare: Seq<String>, s: String) -> Seq<String> {
    if spare.len() < POOL_LIMIT {
        spare.push(emptied(s))
    } else {
        spare
    }
}

/// The strings of a pool after several were put back, one after the other.
pub open spec fn refilled(spare: Seq<String>, returned: Seq<String>) -> Seq<String>
    decreases returned.len(),
{
    if returned.len() == 0 {
        spare
    } else {
        with_spare(refilled(spare, returned.drop_last()), returned.last())
    }
}

/// The strings of a pool after `n` of them were taken, as far as there were so many.
pub open spec fn without(spare: Seq<String>, n: nat) -> Seq<String> {
    if n <= spare.len() {
        spare.skip(n as int)
    } else {
        Seq::empty()
    }
}

impl StringPool {
    /// The pool holds no more strings than its limit, all of them empty, and is
    /// sound.
    pub open spec fn wf(&self) -> bool {
        &&& self@.len() <= POOL_LIMIT
        &&& forall|i: int| 0 <= i < self@.len() ==> (#[trigger] self@[i])@.len() == 0
        &&& self.sound()
    }

    /// The pool counts its strings right.
    pub closed spec fn sound(&self) -> bool {
        self.count == self@.len()
    }

    /// Makes a full pool.
    pub fn new() -> (r: Self)
        ensures
            r.wf(),
            r@.len() == POOL_LIMIT,
    {
        let mut pool = StringPool { queue: queue_new(), count: 0 };
        let mut i: usize = 0;
        while i < POOL_LIMIT
            invariant
                i <= POOL_LIMIT,
                pool.wf(),
                pool@.len() == i,
            decreases POOL_LIMIT - i,
        {
            queue_push(&mut pool.queue, String::with_capacity(STRING_CAPACITY));
            pool.count = pool.count + 1;
            i = i + 1;
        }
        pool
    }

    /// Takes the string that has been in the pool longest, or makes one when there
    /// is none left. The string is empty either way.
    pub fn get(&mut self) -> (r: String)
        requires
            old(self).wf(),
        ensures
            final(self).wf(),
            r@ == Seq::<char>::empty(),
            old(self)@.len() > 0 ==> r == old(self)@[0],
            final(self)@ == without(old(self)@, 1),
    {
        match queue_pop(&mut self.queue) {
            Some(s) => {
                self.count = self.count - 1;
                s
            },
            None => String::with_capacity(STRING_CAPACITY),
        }
    }

    /// Empties `s` and keeps it, unless the pool is full.
    pub fn put(&mut self, s: String)
        requires
            old(self).wf(),
        ensures
            final(self).wf(),
            final(self)@ == with_spare(old(self)@, s),
    {
        let mut s = s;
        s.clear();
        if self.count < POOL_LIMIT {
            queue_push(&mut self.queue, s);
            self.count = self.count + 1;
        }
    }

    /// Empties each of `returned` and keeps it, unless the pool is full.
    pub fn put_all(&mut self, returned: Vec<String>)
        requires
            old(self).wf(),
        ensures
            final(self).wf(),
            final(self)@ == refilled(old(self)@, returned@),
    {
        let ghost all = returned@;
        for s in it: returned
            invariant
                it.seq() == all,
                self.wf(),
                self@ == refilled(old(self)@, all.take(it.index() as int)),
        {
            self.put(s);
            proof {
                let done = it.index() as int;
                assert(all.take(done + 1).drop_last() == all.take(done));
                assert(all[done] == s);
            }
        }
        assert(all.take(all.len() as int) == all);
    }
}

/// Putting strings back fills a pool up to its limit and never beyond. The strings
/// that were there stay, in their places, and of those put back the first ones
/// follow them, emptied, as many as there is room for.
pub proof fn pools_fill_to_the_limit(spare: Seq<String>, returned: Seq<String>)
    requires
        spare.len() <= POOL_LIMIT,
    ensures
        ({
            let room = POOL_LIMIT - spare.len();
            let kept = if returned.len() <= room {
                returned.len() as int
            } else {
                room
            };
            refilled(spare, returned) == spare + returned.take(kept).map_values(
                |s: String| emptied(s),
            )
        }),
    decreases returned.len(),
{
    let room = POOL_LIMIT - spare.len();
    if returned.len() == 0 {
        assert(spare + returned.take(0).map_values(|s: String| emptied(s)) == spare);
    } else {
        let front = returned.drop_last();
        pools_fill_to_the_limit(spare, front);
        if returned.len() <= room {
            assert(spare + returned.take(returned.len() as int).map_values(|s: String| emptied(s))
                == (spare + front.take(front.len() as int).map_values(
                |s: String| emptied(s),
            )).push(emptied(returned.last())));
        } else {
            assert(front.take(room) == returned.take(room));
        }
    }
}

/// A string that is put back is kept, emptied, behind the others, unless a thousand
/// are there already. Then nothing changes.
pub proof fn spare_strings_are_kept(spare: Seq<String>, s: String)
    ensures
        spare.len() < 1000 ==> {
            &&& with_spare(spare, s).len() == spare.len() + 1
            &&& with_spare(spare, s).take(spare.len() as int) == spare
            &&& with_spare(spare, s)[spare.len() as int] == emptied(s)
        },
        spare.len() >= 1000 ==> with_spare(spare, s) == spare,
{
    assert(spare.push(emptied(s)).take(spare.len() as int) =~= spare);
}

/// Strings that are put back together are put back one after the other.
pub proof fn strings_are_put_back_in_turn(spare: Seq<String>, returned: Seq<String>, s: String)
    ensures
        refilled(spare, returned.push(s)) == with_spare(refilled(spare, returned), s),
        refilled(spare, Seq::empty()) == spare,
{
    assert(returned.push(s).drop_last() =~= returned);
}

/// Strings are taken from the front, and the others stay as they are.
pub proof fn strings_are_taken_from_the_front(spare: Seq<String>, n: nat)
    ensures
        n <= spare.len() ==> without(spare, n).len() == spare.len() - n && forall|i: int|
            0 <= i < spare.len() - n ==> #[trigger] without(spare, n)[i] == spare[i + n],
        n >= spare.len() ==> without(spare, n).len() == 0,
{
}

impl StringPool {
    /// What is known of a pool are the strings in its queue.
    proof fn view_shows_the_queue(&self)
        ensures
            self@ == queued(self.queue),
    {
    }
}

} // verus!

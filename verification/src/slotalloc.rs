//! A pool of slots that are handed out one at a time and come back when
//! their holder is done with them.
//!
//! A request that finds no slot free is answered with `Busy` at once: the
//! pool never blocks. Who cannot go on without a slot asks again after a
//! release.

use vstd::prelude::*;
use crate::error::Error;

verus! {

/// The time of the hand-out behind the one at the time `count`: one more,
/// and 0 behind the largest time that there is.
pub open spec fn next_time(count: u64) -> u64 {
    if count < u64::MAX {
        (count + 1) as u64
    } else {
        0
    }
}

/// What a pool keeps in each slot.
pub trait SlotItem: Sized {
    /// What the pool keeps once for all its slots.
    type Owner;

    /// Called on the item when its holder gives the slot back.
    fn release(&mut self)
    ;
}

/// Names a slot and the time at which it was last handed out. Who held a
/// slot can ask for the same slot again by its token.
#[derive(Clone, Copy, Debug, PartialEq, Eq, Structural)]
pub struct SlotToken {
    /// The pool's count of new hand-outs when the slot was handed out.
    pub time: u64,
    /// The number of the slot.
    pub slot: u32,
}

/// A slot that is handed out, with the item that the pool keeps in it.
pub struct Guard<T> {
    item: T,
    changed: bool,
    token: SlotToken,
}

impl<T> Guard<T> {
    /// The item of the slot.
    pub closed spec fn spec_item(&self) -> T {
        self.item
    }

    /// Whether the slot is another one than the token asked for.
    pub closed spec fn spec_changed(&self) -> bool {
        self.changed
    }

    /// The token by which to ask for this slot again.
    pub closed spec fn spec_token(&self) -> SlotToken {
        self.token
    }

    /// The number of the slot.
    pub open spec fn spec_slot(&self) -> int {
        self.spec_token().slot as int
    }

    /// The item of the slot.
    pub fn item(&self) -> (r: &T)
        ensures
            *r == self.spec_item(),
    {
        &self.item
    }

    /// The item of the slot, for writing. Nothing else of the guard changes.
    pub fn item_mut(&mut self) -> (r: &mut T)
        ensures
            *r == old(self).spec_item(),
            final(self).spec_item() == *final(r),
            final(self).spec_changed() == old(self).spec_changed(),
            final(self).spec_token() == old(self).spec_token(),
    {
        &mut self.item
    }

    /// Returns whether the slot is another one than the token asked for, so
    /// that what the holder had set up in its old slot is not there.
    pub fn changed(&self) -> (r: bool)
        ensures
            r == self.spec_changed(),
    {
        self.changed
    }

    /// Returns the token by which to ask for this slot again.
    pub fn token(&self) -> (r: SlotToken)
        ensures
            r == self.spec_token(),
    {
        self.token
    }

    /// Returns the number of the slot.
    pub fn slot(&self) -> (r: u32)
        ensures
            r == self.spec_slot(),
    {
        self.token.slot
    }
}

struct Slot<T> {
    item: Option<T>,
    get_time: u64,
    drop_time: u64,
}

/// A pool of slots.
pub struct SlotAllocator<T: SlotItem> {
    data: T::Owner,
    slots: Vec<Slot<T>>,
    get_count: u64,
    drop_count: u64,
}

impl<T: SlotItem> SlotAllocator<T> {
    /// The number of slots.
    pub closed spec fn spec_len(&self) -> int {
        self.slots@.len() as int
    }

    /// What the pool keeps once for all its slots.
    pub closed spec fn spec_data(&self) -> T::Owner {
        self.data
    }

    /// Whether slot `i` is free: not handed out.
    pub closed spec fn is_free(&self, i: int) -> bool {
        self.slots@[i].item is Some
    }

    /// The item of the free slot `i`.
    pub closed spec fn spec_item(&self, i: int) -> T {
        self.slots@[i].item->0
    }

    /// The count of new hand-outs when slot `i` was last handed out.
    pub closed spec fn get_time(&self, i: int) -> u64 {
        self.slots@[i].get_time
    }

    /// The count of releases when slot `i` last came back.
    pub closed spec fn drop_time(&self, i: int) -> u64 {
        self.slots@[i].drop_time
    }

    /// How often a slot was handed out that its holder had not asked for by
    /// a valid token.
    pub closed spec fn spec_get_count(&self) -> u64 {
        self.get_count
    }

    /// How often a slot came back, as far as a `u64` counts.
    pub closed spec fn spec_drop_count(&self) -> u64 {
        self.drop_count
    }

    /// The slots have numbers that are `u32`.
    pub open spec fn wf(&self) -> bool {
        self.spec_len() <= u32::MAX
    }

    /// Whether `token` is good for its slot: the slot exists, is free, and
    /// was last handed out at the token's time.
    pub open spec fn token_valid(&self, token: Option<SlotToken>) -> bool {
        match token {
            Some(t) => t.slot < self.spec_len() && self.is_free(t.slot as int) && self.get_time(
                t.slot as int,
            ) == t.time,
            None => false,
        }
    }

    /// Whether slot `i` is the free slot that came back longest ago, the
    /// lowest such slot where several came back at the same time.
    pub open spec fn is_lru(&self, i: int) -> bool {
        &&& 0 <= i < self.spec_len()
        &&& self.is_free(i)
        &&& forall|j: int|
            0 <= j < self.spec_len() && #[trigger] self.is_free(j) ==> self.drop_time(i)
                < self.drop_time(j) || (self.drop_time(i) == self.drop_time(j) && i <= j)
    }

    /// Whether `guard` holds a slot of this pool: the slot exists, is handed
    /// out, and was handed out at the time of the guard's token.
    pub open spec fn holds(&self, guard: Guard<T>) -> bool {
        let s = guard.spec_slot();
        &&& 0 <= s < self.spec_len()
        &&& !self.is_free(s)
        &&& self.get_time(s) == guard.spec_token().time
    }

    /// Whether some slot is free.
    pub open spec fn has_free(&self) -> bool {
        exists|j: int| 0 <= j < self.spec_len() && #[trigger] self.is_free(j)
    }

    /// Whether `post` is `pre` but for slot `s`: every other slot is free or
    /// not as before, with its item and its times.
    pub open spec fn same_but(pre: Self, post: Self, s: int) -> bool {
        &&& post.spec_len() == pre.spec_len()
        &&& post.spec_data() == pre.spec_data()
        &&& forall|j: int|
            0 <= j < pre.spec_len() && j != s ==> {
                &&& (#[trigger] post.is_free(j)) == pre.is_free(j)
                &&& post.spec_item(j) == pre.spec_item(j)
                &&& post.get_time(j) == pre.get_time(j)
                &&& post.drop_time(j) == pre.drop_time(j)
            }
    }

    /// What one request for a slot does: how the pool `post` and the answer
    /// `r` follow from the pool `pre` and the token.
    ///
    /// A valid token gets its own slot back, unchanged. Any other request
    /// gets the free slot that came back longest ago, at a new time. Where
    /// no slot is free, and only there, the answer is `Busy` and nothing
    /// changes.
    pub open spec fn acquired(
        pre: Self,
        post: Self,
        token: Option<SlotToken>,
        r: Result<Guard<T>, Error>,
    ) -> bool {
        &&& post.wf()
        &&& post.spec_drop_count() == pre.spec_drop_count()
        &&& match r {
            Ok(g) => {
                let s = g.spec_slot();
                &&& Self::same_but(pre, post, s)
                &&& 0 <= s < pre.spec_len()
                &&& pre.is_free(s)
                &&& !post.is_free(s)
                &&& g.spec_item() == pre.spec_item(s)
                &&& post.drop_time(s) == pre.drop_time(s)
                &&& post.holds(g)
                &&& if pre.token_valid(token) {
                    &&& g.spec_token() == token->0
                    &&& !g.spec_changed()
                    &&& post.spec_get_count() == pre.spec_get_count()
                } else {
                    &&& g.spec_changed()
                    &&& pre.is_lru(s)
                    &&& post.spec_get_count() == next_time(pre.spec_get_count())
                    &&& g.spec_token().time == post.spec_get_count()
                }
            },
            Err(e) => {
                &&& e == Error::Busy
                &&& !pre.token_valid(token)
                &&& !pre.has_free()
                &&& Self::same_but(pre, post, -1)
                &&& post.spec_get_count() == pre.spec_get_count()
            },
        }
    }

    /// What giving back the slot of `guard` does: how the pool `post` and
    /// the answer `r` follow from the pool `pre`.
    ///
    /// The item goes back into its slot, which is free from then on and
    /// keeps the time of its hand-out, so that its token stays good. A guard
    /// that does not hold a slot of this pool, as `holds` says, is refused
    /// with `InvalidArgument`, and nothing changes.
    pub open spec fn released(pre: Self, post: Self, guard: Guard<T>, r: Result<(), Error>) -> bool {
        let s = guard.spec_slot();
        &&& post.wf()
        &&& post.spec_get_count() == pre.spec_get_count()
        &&& match r {
            Ok(_) => {
                &&& pre.holds(guard)
                &&& Self::same_but(pre, post, s)
                &&& post.is_free(s)
                &&& post.get_time(s) == pre.get_time(s)
                &&& post.spec_drop_count() == (if pre.spec_drop_count() < u64::MAX {
                    (pre.spec_drop_count() + 1) as u64
                } else {
                    u64::MAX
                })
                &&& post.drop_time(s) == post.spec_drop_count()
            },
            Err(e) => {
                &&& e == Error::InvalidArgument
                &&& !pre.holds(guard)
                &&& Self::same_but(pre, post, -1)
                &&& post.spec_drop_count() == pre.spec_drop_count()
            },
        }
    }

    /// Makes a pool of `num_slots` free slots around `data`; the item of
    /// slot `i` is what `constructor` makes of `data` and `i`.
    pub fn new<F: Fn(&T::Owner, u32) -> T>(num_slots: u32, data: T::Owner, constructor: F) -> (r:
        SlotAllocator<T>)
        requires
            forall|i: u32| i < num_slots ==> #[trigger] constructor.requires((&data, i)),
        ensures
            r.wf(),
            r.spec_len() == num_slots,
            r.spec_data() == data,
            r.spec_get_count() == 0,
            r.spec_drop_count() == 0,
            forall|i: int|
                0 <= i < num_slots ==> {
                    &&& #[trigger] r.is_free(i)
                    &&& constructor.ensures((&data, i as u32), r.spec_item(i))
                    &&& r.get_time(i) == 0
                    &&& r.drop_time(i) == 0
                },
    {
        let mut slots: Vec<Slot<T>> = Vec::new();
        let mut i: u32 = 0;
        while i < num_slots
            invariant
                i <= num_slots,
                slots@.len() == i,
                forall|k: u32| k < num_slots ==> #[trigger] constructor.requires((&data, k)),
                forall|k: int|
                    0 <= k < i ==> {
                        &&& (#[trigger] slots@[k]).item is Some
                        &&& constructor.ensures((&data, k as u32), slots@[k].item->0)
                        &&& slots@[k].get_time == 0
                        &&& slots@[k].drop_time == 0
                    },
            decreases num_slots - i,
        {
            let item = constructor(&data, i);
            slots.push(Slot { item: Some(item), get_time: 0, drop_time: 0 });
            i = i + 1;
        }
        SlotAllocator { data, slots, get_count: 0, drop_count: 0 }
    }

    /// Returns the number of slots.
    pub fn len(&self) -> (r: usize)
        ensures
            r == self.spec_len(),
    {
        self.slots.len()
    }

    /// What the pool keeps once for all its slots.
    pub fn data(&self) -> (r: &T::Owner)
        ensures
            *r == self.spec_data(),
    {
        &self.data
    }

    /// What the pool keeps once for all its slots, for writing. The slots
    /// stay as they are.
    pub fn data_mut(&mut self) -> (r: &mut T::Owner)
        ensures
            *r == old(self).spec_data(),
            final(self).spec_data() == *final(r),
            final(self).spec_len() == old(self).spec_len(),
            final(self).spec_get_count() == old(self).spec_get_count(),
            final(self).spec_drop_count() == old(self).spec_drop_count(),
            forall|j: int|
                0 <= j < old(self).spec_len() ==> {
                    &&& (#[trigger] final(self).is_free(j)) == old(self).is_free(j)
                    &&& final(self).spec_item(j) == old(self).spec_item(j)
                    &&& final(self).get_time(j) == old(self).get_time(j)
                    &&& final(self).drop_time(j) == old(self).drop_time(j)
                },
    {
        &mut self.data
    }

    fn find_lru(&self) -> (r: Option<usize>)
        ensures
            match r {
                Some(i) => self.is_lru(i as int),
                None => !self.has_free(),
            },
    {
        let mut best: Option<usize> = None;
        let mut i: usize = 0;
        while i < self.slots.len()
            invariant
                i <= self.slots@.len(),
                match best {
                    Some(b) => {
                        &&& b < i
                        &&& self.is_free(b as int)
                        &&& forall|j: int|
                            0 <= j < i && #[trigger] self.is_free(j) ==> self.drop_time(b as int)
                                < self.drop_time(j) || (self.drop_time(b as int) == self.drop_time(
                                j,
                            ) && b <= j)
                    },
                    None => forall|j: int| 0 <= j < i ==> !#[trigger] self.is_free(j),
                },
            decreases self.slots@.len() - i,
        {
            if self.slots[i].item.is_some() {
                match best {
                    Some(b) => {
                        if self.slots[i].drop_time < self.slots[b].drop_time {
                            best = Some(i);
                        }
                    },
                    None => {
                        best = Some(i);
                    },
                }
            }
            i = i + 1;
        }
        best
    }

    /// Asks for a slot: for the one that `token` names, where the token is
    /// still good, else for any.
    ///
    /// What happens is what `acquired` says.
    pub fn get(&mut self, token: Option<SlotToken>) -> (r: Result<Guard<T>, Error>)
        requires
            old(self).wf(),
        ensures
            Self::acquired(*old(self), *final(self), token, r),
    {
        if let Some(t) = token {
            let s = t.slot as usize;
            if s < self.slots.len() && self.slots[s].item.is_some() && self.slots[s].get_time
                == t.time {
                let entry = &mut self.slots[s];
                let item = entry.item.take().unwrap();
                return Ok(Guard { item, changed: false, token: t });
            }
        }
        let s = match self.find_lru() {
            Some(s) => s,
            None => {
                return Err(Error::Busy);
            },
        };
        self.get_count = if self.get_count < u64::MAX {
            self.get_count + 1
        } else {
            0
        };
        let time = self.get_count;
        let entry = &mut self.slots[s];
        entry.get_time = time;
        let item = entry.item.take().unwrap();
        Ok(Guard { item, changed: true, token: SlotToken { time, slot: s as u32 } })
    }

    /// Gives back the slot of `guard`.
    ///
    /// What happens is what `released` says; the item that goes back into
    /// the slot has been through its `release` hook.
    pub fn release(&mut self, guard: Guard<T>) -> (r: Result<(), Error>)
        requires
            old(self).wf(),
        ensures
            Self::released(*old(self), *final(self), guard, r),
            r is Ok ==> exists|it: &mut T|
                {
                    &&& *it == guard.spec_item()
                    &&& *final(it) == final(self).spec_item(guard.spec_slot())
                    &&& #[trigger] call_ensures(T::release, (it,), ())
                },
    {
        let s = guard.token.slot as usize;
        if s >= self.slots.len() || self.slots[s].item.is_some() || self.slots[s].get_time
            != guard.token.time {
            return Err(Error::InvalidArgument);
        }
        let mut item = guard.item;
        item.release();
        if self.drop_count < u64::MAX {
            self.drop_count = self.drop_count + 1;
        }
        let time = self.drop_count;
        let entry = &mut self.slots[s];
        entry.drop_time = time;
        entry.item = Some(item);
        Ok(())
    }
}

/// A slot that has come back can be had again: who asks for it by the token
/// of the guard that held it gets that very slot, with what it held.
pub proof fn lemma_released_slot_is_allocatable<T: SlotItem>(
    pre: SlotAllocator<T>,
    post: SlotAllocator<T>,
    guard: Guard<T>,
    after: SlotAllocator<T>,
    again: Result<Guard<T>, Error>,
)
    requires
        pre.wf(),
        SlotAllocator::released(pre, post, guard, Ok(())),
        SlotAllocator::acquired(post, after, Some(guard.spec_token()), again),
    ensures
        post.is_free(guard.spec_slot()),
        post.token_valid(Some(guard.spec_token())),
        again is Ok,
        again->Ok_0.spec_slot() == guard.spec_slot(),
        !again->Ok_0.spec_changed(),
        again->Ok_0.spec_item() == post.spec_item(guard.spec_slot()),
        !after.is_free(guard.spec_slot()),
{
}

/// A slot that has come back can be had again by anyone: after a release a
/// request without a token always succeeds. Where every other slot is
/// handed out, it gets the very slot that came back, with what it holds.
pub proof fn lemma_release_makes_room<T: SlotItem>(
    pre: SlotAllocator<T>,
    post: SlotAllocator<T>,
    guard: Guard<T>,
    after: SlotAllocator<T>,
    next: Result<Guard<T>, Error>,
)
    requires
        pre.wf(),
        SlotAllocator::released(pre, post, guard, Ok(())),
        SlotAllocator::acquired(post, after, None, next),
    ensures
        post.has_free(),
        next is Ok,
        !after.is_free(next->Ok_0.spec_slot()),
        (forall|j: int|
            0 <= j < pre.spec_len() && j != guard.spec_slot() ==> !#[trigger] pre.is_free(j))
            ==> next->Ok_0.spec_slot() == guard.spec_slot() && next->Ok_0.spec_item()
            == post.spec_item(guard.spec_slot()),
{
    let s = guard.spec_slot();
    assert(post.is_free(s));
    if forall|j: int| 0 <= j < pre.spec_len() && j != s ==> !#[trigger] pre.is_free(j) {
        let t = next->Ok_0.spec_slot();
        if t != s {
            assert(post.is_free(t));
            assert(pre.is_free(t));
        }
    }
}

/// A guard that a request has made holds its slot until it is released:
/// no request and no release of another guard ends that.
pub proof fn lemma_guard_holds<T: SlotItem>(
    pre: SlotAllocator<T>,
    post: SlotAllocator<T>,
    guard: Guard<T>,
    token: Option<SlotToken>,
    r: Result<Guard<T>, Error>,
    other: Guard<T>,
    released: Result<(), Error>,
)
    requires
        pre.holds(guard),
    ensures
        SlotAllocator::acquired(pre, post, token, r) ==> post.holds(guard),
        SlotAllocator::released(pre, post, other, released) && other.spec_slot()
            != guard.spec_slot() ==> post.holds(guard),
{
    let s = guard.spec_slot();
    if SlotAllocator::acquired(pre, post, token, r) {
        if r is Ok {
            assert(r->Ok_0.spec_slot() != s);
        }
        assert(!post.is_free(s) == !pre.is_free(s));
    }
    if SlotAllocator::released(pre, post, other, released) && other.spec_slot() != s {
        assert(!post.is_free(s) == !pre.is_free(s));
    }
}

/// No slot is handed out twice: of two requests with no release between
/// them, the second never gets the slot of the first.
pub proof fn lemma_no_double_allocation<T: SlotItem>(
    a0: SlotAllocator<T>,
    a1: SlotAllocator<T>,
    a2: SlotAllocator<T>,
    t1: Option<SlotToken>,
    t2: Option<SlotToken>,
    g1: Guard<T>,
    g2: Guard<T>,
)
    requires
        SlotAllocator::acquired(a0, a1, t1, Ok(g1)),
        SlotAllocator::acquired(a1, a2, t2, Ok(g2)),
    ensures
        g1.spec_slot() != g2.spec_slot(),
        !a2.is_free(g1.spec_slot()),
        !a2.is_free(g2.spec_slot()),
{
}

/// A request changes nothing about the slots that are out: a slot that is
/// not free stays so through every request, whoever makes it.
pub proof fn lemma_held_slot_stays_held<T: SlotItem>(
    pre: SlotAllocator<T>,
    post: SlotAllocator<T>,
    token: Option<SlotToken>,
    r: Result<Guard<T>, Error>,
    s: int,
)
    requires
        0 <= s < pre.spec_len(),
        !pre.is_free(s),
        SlotAllocator::acquired(pre, post, token, r),
    ensures
        !post.is_free(s),
        r is Ok ==> r->Ok_0.spec_slot() != s,
{
}

} // verus!

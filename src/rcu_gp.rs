use std::sync::atomic::{AtomicU64, AtomicUsize, Ordering};
use std::sync::Arc;
use vstd::prelude::*;

use crate::grace::grace_elapsed;
use crate::memory::share;
use crate::rcu_qsbr::slot_for_ticket;
use crate::grace::GpCounters;
use crate::grace::GraceStage;
use crate::grace::GracePeriod;
use crate::grace::GraceView;

verus! {

/// The state that every participant of one protected value shares: the
/// grace-period counters and the currently published value.
///
/// A value is represented by a token, the address at which its owner keeps
/// it; the protocol only stores, swaps and compares tokens.
pub struct RcuGPShared {
    thread_counter: AtomicU64,
    counters: GpCounters,
    data_ptr: AtomicUsize,
}

impl RcuGPShared {
    /// Number of participant slots.
    pub closed spec fn capacity(&self) -> nat {
        self.counters.capacity()
    }

    /// Shared state with `count` idle participant slots, publishing `data`.
    pub fn new(count: u32, data: usize) -> (r: Self)
        ensures
            r.capacity() == count,
    {
        RcuGPShared {
            thread_counter: AtomicU64::new(0),
            counters: GpCounters::new(count),
            data_ptr: AtomicUsize::new(data),
        }
    }

    /// The value published at the moment of the call.
    pub fn published(&self) -> usize {
        self.data_ptr.load(Ordering::Acquire)
    }
}

/// A participant's handle: one slot of the shared state, through which it
/// reads and publishes.
pub struct RcuCell {
    thread_id: usize,
    global_info: Arc<RcuGPShared>,
}

impl RcuCell {
    #[verifier::type_invariant]
    closed spec fn inv(&self) -> bool {
        self.thread_id < self.global_info.capacity()
    }

    /// The slot this handle reads through.
    pub closed spec fn slot(&self) -> nat {
        self.thread_id as nat
    }

    /// Number of slots of the shared state behind this handle.
    pub closed spec fn capacity(&self) -> nat {
        self.global_info.capacity()
    }

    /// The slot this handle reads through.
    pub fn thread_id(&self) -> (r: usize)
        ensures
            r == self.slot(),
    {
        self.thread_id
    }

    /// Registers a new participant of `shared`. Slots are handed out in order
    /// and never reused: once all are taken, every further registration
    /// returns `None` and leaves the slots untouched.
    pub fn new(shared: Arc<RcuGPShared>) -> (r: Option<RcuCell>)
        ensures
            r matches Some(h) ==> h.capacity() == shared.capacity() && h.slot() < shared.capacity(),
    {
        let ticket = shared.thread_counter.fetch_add(1, Ordering::SeqCst);
        match slot_for_ticket(ticket, shared.counters.len()) {
            Some(id) => Some(RcuCell { thread_id: id, global_info: shared }),
            None => None,
        }
    }

    /// `num` handles over one shared state publishing `data`, the `i`-th bound
    /// to slot `i`. The state has exactly `num` slots, so no further handle can
    /// be made for it.
    pub fn gen_tokens(num: u32, data: usize) -> (r: Vec<RcuCell>)
        ensures
            r@.len() == num,
            forall|i: int| 0 <= i < num ==> (#[trigger] r@[i]).slot() == i,
            forall|i: int| 0 <= i < num ==> (#[trigger] r@[i]).capacity() == num,
    {
        let shared = Arc::new(RcuGPShared::new(num, data));
        let mut r: Vec<RcuCell> = Vec::new();
        let mut c: u32 = 0;
        while c < num
            invariant
                c <= num,
                shared.capacity() == num,
                r@.len() == c,
                forall|i: int| 0 <= i < c ==> (#[trigger] r@[i]).slot() == i,
                forall|i: int| 0 <= i < c ==> (#[trigger] r@[i]).capacity() == num,
            decreases num - c,
        {
            r.push(RcuCell { thread_id: c as usize, global_info: share(&shared) });
            c = c + 1;
        }
        shared.thread_counter.store(num as u64, Ordering::SeqCst);
        r
    }

    /// Enters a read-side critical section and takes a snapshot of the
    /// published value. Returns `None`, changing nothing, where this slot is
    /// already nested as deep as its counter can record.
    pub fn read(&self) -> (r: Option<RcuGpReadGuard<'_>>)
        ensures
            r matches Some(g) ==> g.owner() == *self,
    {
        proof {
            use_type_invariant(self);
        }
        if !self.global_info.counters.read_lock(self.thread_id) {
            return None;
        }
        let ptr = self.global_info.data_ptr.load(Ordering::Acquire);
        Some(RcuGpReadGuard { inner_lock: self, cas_ptr: ptr })
    }

    /// Publishes `new_data` in place of the current value, which the returned
    /// guard holds as retired until a grace period has elapsed.
    pub fn replace(&self, new_data: usize) -> (r: RcuGpWriteGuard<'_>)
        ensures
            r.owner() == *self,
            r.retired() is Some,
            r.grace()@.stage == GraceStage::Locking,
    {
        RcuGpWriteGuard::new(self, new_data)
    }

    /// Leaves the read-side critical section entered by `read`.
    fn read_unlock(&self) {
        proof {
            use_type_invariant(self);
        }
        self.global_info.counters.read_unlock(self.thread_id);
    }

    /// A grace-period wait over this handle's shared state, not yet started.
    fn start_grace(&self) -> (r: GracePeriod)
        ensures
            r@.stage == GraceStage::Locking,
            r@.slots == self.capacity(),
    {
        GracePeriod::new(&self.global_info.counters)
    }

    /// Advances `gp`, a wait over this handle's shared state, as far as it
    /// goes without blocking; tells whether the grace period has elapsed.
    fn synchronize_step(&self, gp: &mut GracePeriod) -> (done: bool)
        ensures
            final(gp)@.slots == old(gp)@.slots,
            done == (final(gp)@.stage == GraceStage::Finished),
            done ==> grace_elapsed(final(gp)@),
            old(gp)@.stage == GraceStage::Finished ==> final(gp)@ == old(gp)@,
    {
        gp.step(&self.global_info.counters)
    }
}

/// A read-side critical section together with the snapshot taken on entry.
/// It ends when the guard is released.
pub struct RcuGpReadGuard<'a> {
    inner_lock: &'a RcuCell,
    cas_ptr: usize,
}

impl<'a> RcuGpReadGuard<'a> {
    /// The handle the section was entered through.
    pub closed spec fn owner(&self) -> RcuCell {
        *self.inner_lock
    }

    /// The snapshot taken on entry.
    pub closed spec fn snapshot(&self) -> usize {
        self.cas_ptr
    }

    /// The snapshot taken on entry.
    pub fn get(&self) -> (r: usize)
        ensures
            r == self.snapshot(),
    {
        self.cas_ptr
    }

    /// Ends the read-side critical section.
    pub fn release(self) {
        self.inner_lock.read_unlock();
    }
}


/// The outcome of a compare-and-publish.
pub enum CasResult<'a> {
    /// The value was published; the guard holds the one it displaced.
    Guard(RcuGpWriteGuard<'a>),
    /// The published value had changed; the rejected value is handed back.
    Old(usize),
}

/// The writer's side of one publish: it owns the displaced value until a
/// grace period has elapsed.
pub struct RcuGpWriteGuard<'a> {
    inner_lock: &'a RcuCell,
    data: Option<usize>,
    grace: GracePeriod,
}

impl<'a> RcuGpWriteGuard<'a> {
    /// The handle the value was published through.
    pub closed spec fn owner(&self) -> RcuCell {
        *self.inner_lock
    }

    /// The displaced value, until it is taken.
    pub closed spec fn retired(&self) -> Option<usize> {
        self.data
    }

    /// The grace-period wait that guards the displaced value.
    pub closed spec fn grace(&self) -> GracePeriod {
        self.grace
    }

    /// Publishes `new_data` through `lock`, keeping the displaced value.
    pub fn new(lock: &'a RcuCell, new_data: usize) -> (r: Self)
        ensures
            r.owner() == *lock,
            r.retired() is Some,
            r.grace()@.stage == GraceStage::Locking,
    {
        let old = lock.global_info.data_ptr.swap(new_data, Ordering::AcqRel);
        RcuGpWriteGuard { inner_lock: lock, data: Some(old), grace: lock.start_grace() }
    }

    /// Publishes `new_data` only if the published value is still the one that
    /// `rg` took as its snapshot; the read-side section of `rg` ends after
    /// the comparison. On success the guard holds that snapshot as retired; on
    /// failure `new_data` is handed back unchanged.
    pub fn cas(lock: &'a RcuCell, new_data: usize, rg: RcuGpReadGuard<'a>) -> (r: CasResult<'a>)
        ensures
            match r {
                CasResult::Guard(g) => {
                    &&& g.owner() == *lock
                    &&& g.retired() == Some(rg.snapshot())
                    &&& g.grace()@.stage == GraceStage::Locking
                },
                CasResult::Old(v) => v == new_data,
            },
    {
        let expected = rg.cas_ptr;
        let r = lock.global_info.data_ptr.compare_exchange(
            expected,
            new_data,
            Ordering::SeqCst,
            Ordering::SeqCst,
        );
        rg.release();
        match r {
            Ok(_) => CasResult::Guard(
                RcuGpWriteGuard { inner_lock: lock, data: Some(expected), grace: lock.start_grace() },
            ),
            Err(_) => CasResult::Old(new_data),
        }
    }

    /// Advances the grace-period wait as far as it goes without blocking;
    /// tells whether the grace period has elapsed.
    pub fn poll(&mut self) -> (done: bool)
        ensures
            final(self).owner() == old(self).owner(),
            final(self).retired() == old(self).retired(),
            done == (final(self).grace()@.stage == GraceStage::Finished),
            done ==> grace_elapsed(final(self).grace()@),
    {
        self.inner_lock.synchronize_step(&mut self.grace)
    }

    /// Whether the grace period has elapsed.
    pub fn is_grace_elapsed(&self) -> (r: bool)
        ensures
            r == (self.grace()@.stage == GraceStage::Finished),
            r ==> grace_elapsed(self.grace()@),
    {
        self.grace.is_finished()
    }

    /// Takes the displaced value once its grace period has elapsed; `None`
    /// where it was already taken.
    pub fn get_old(&mut self) -> (r: Option<usize>)
        requires
            old(self).grace()@.stage == GraceStage::Finished,
        ensures
            r == old(self).retired(),
            final(self).retired() is None,
            final(self).owner() == old(self).owner(),
            final(self).grace() == old(self).grace(),
    {
        self.data.take()
    }
}


/// The published word after a compare-and-swap of `new` against `expected`
/// on `current`, and whether the swap took place.
pub open spec fn compare_publish(current: usize, expected: usize, new: usize) -> (usize, bool) {
    if current == expected {
        (new, true)
    } else {
        (current, false)
    }
}

/// The outcomes of compare-and-swaps of each of `news` in turn, all against
/// `expected`, starting from `current`.
pub open spec fn compare_publish_all(current: usize, expected: usize, news: Seq<usize>) -> Seq<
    bool,
>
    decreases news.len(),
{
    if news.len() == 0 {
        Seq::empty()
    } else {
        let (next, ok) = compare_publish(current, expected, news[0]);
        seq![ok] + compare_publish_all(next, expected, news.drop_first())
    }
}

/// Once the published word differs from the snapshot that writers compare
/// against, and none of them publishes that snapshot again, every further
/// compare-and-publish is rejected.
pub proof fn lemma_compare_publish_rejected(current: usize, expected: usize, news: Seq<usize>)
    requires
        current != expected,
        forall|i: int| 0 <= i < news.len() ==> news[i] != expected,
    ensures
        compare_publish_all(current, expected, news).len() == news.len(),
        forall|i: int|
            0 <= i < news.len() ==> !#[trigger] compare_publish_all(current, expected, news)[i],
    decreases news.len(),
{
    if news.len() > 0 {
        lemma_compare_publish_rejected(current, expected, news.drop_first());
        let rest = compare_publish_all(current, expected, news.drop_first());
        assert(compare_publish_all(current, expected, news) == seq![false] + rest);
        assert forall|i: int| 0 <= i < news.len() implies !#[trigger] compare_publish_all(
            current,
            expected,
            news,
        )[i] by {
            if i > 0 {
                assert(compare_publish_all(current, expected, news)[i] == rest[i - 1]);
            }
        }
    }
}

/// Writers that race to replace the value they all read, each with a value
/// of its own that differs from it: whatever order their compare-and-swaps
/// take, exactly the first succeeds and every other one is rejected.
pub proof fn lemma_compare_replace_exclusive(expected: usize, news: Seq<usize>)
    requires
        news.len() > 0,
        forall|i: int| 0 <= i < news.len() ==> news[i] != expected,
    ensures
        compare_publish_all(expected, expected, news).len() == news.len(),
        compare_publish_all(expected, expected, news)[0],
        forall|i: int|
            1 <= i < news.len() ==> !#[trigger] compare_publish_all(expected, expected, news)[i],
{
    let tail = news.drop_first();
    lemma_compare_publish_rejected(news[0], expected, tail);
    let rest = compare_publish_all(news[0], expected, tail);
    assert(compare_publish_all(expected, expected, news) == seq![true] + rest);
    assert forall|i: int| 1 <= i < news.len() implies !#[trigger] compare_publish_all(
        expected,
        expected,
        news,
    )[i] by {
        assert(compare_publish_all(expected, expected, news)[i] == rest[i - 1]);
    }
}

} // verus!

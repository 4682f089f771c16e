use std::sync::atomic::{AtomicBool, AtomicU32, AtomicU64, AtomicUsize, Ordering};
use std::sync::Arc;
use vstd::prelude::*;

use crate::memory::smp_mb;

verus! {

/// Counter value of a participant that has just come online and has not yet
/// reported a quiescent state.
pub const RCU_GP_ONLINE: u32 = 1;

/// Step by which each grace period advances the generation counter.
pub const RCU_GP_CTR: u32 = 2;

/// Counter value of an offline participant.
pub const RCU_GP_OFFLINE: u32 = 0;

/// The generation that follows `g`: `g + RCU_GP_CTR`, wrapping round to
/// `RCU_GP_CTR` so that it never takes the offline or online marker.
pub open spec fn next_generation_spec(g: u32) -> u32 {
    if g <= u32::MAX - RCU_GP_CTR {
        (g + RCU_GP_CTR) as u32
    } else {
        RCU_GP_CTR
    }
}

/// The generation that follows `g`.
pub fn next_generation(g: u32) -> (r: u32)
    ensures
        r == next_generation_spec(g),
        r != RCU_GP_OFFLINE,
        r != RCU_GP_ONLINE,
        r != g,
{
    if g <= u32::MAX - RCU_GP_CTR {
        g + RCU_GP_CTR
    } else {
        RCU_GP_CTR
    }
}

/// Whether a grace period that set generation `global` must wait for a
/// participant whose counter reads `value`: it is online and has not reported
/// a quiescent state since the generation was set.
pub open spec fn must_wait(value: u32, global: u32) -> bool {
    value != RCU_GP_OFFLINE && value != global
}

/// Whether a grace period that set generation `global` must wait for the
/// participant whose counter reads `value`. An offline participant is never
/// waited for.
pub fn is_waiting_on(value: u32, global: u32) -> (r: bool)
    ensures
        r == must_wait(value, global),
        value == RCU_GP_OFFLINE ==> !r,
{
    value != RCU_GP_OFFLINE && value != global
}

/// The state that every participant of one quiescent-state protected value
/// shares.
pub struct RcuQsbrShared {
    thread_counter: AtomicU64,
    global_ctr: AtomicU32,
    thread_ctr: Vec<AtomicU32>,
    writer: AtomicBool,
    data_ptr: AtomicUsize,
}

impl RcuQsbrShared {
    /// Number of participant slots.
    pub closed spec fn capacity(&self) -> nat {
        self.thread_ctr@.len()
    }

    /// Shared state with `count` offline participant slots, publishing `data`.
    pub fn new(count: u32, data: usize) -> (r: Self)
        ensures
            r.capacity() == count,
    {
        let mut thread_ctr: Vec<AtomicU32> = Vec::new();
        let mut i: u32 = 0;
        while i < count
            invariant
                i <= count,
                thread_ctr@.len() == i,
            decreases count - i,
        {
            thread_ctr.push(AtomicU32::new(RCU_GP_OFFLINE));
            i = i + 1;
        }
        RcuQsbrShared {
            thread_counter: AtomicU64::new(0),
            global_ctr: AtomicU32::new(RCU_GP_CTR),
            thread_ctr,
            writer: AtomicBool::new(false),
            data_ptr: AtomicUsize::new(data),
        }
    }

    /// The value published at the moment of the call.
    pub fn published(&self) -> usize {
        self.data_ptr.load(Ordering::Acquire)
    }

    /// Number of participant slots.
    pub fn len(&self) -> (r: usize)
        ensures
            r == self.capacity(),
    {
        self.thread_ctr.len()
    }
}

/// The slot that the `ticket`-th registration receives, if any is left.
pub fn slot_for_ticket(ticket: u64, capacity: usize) -> (r: Option<usize>)
    ensures
        r == if ticket < capacity {
            Some(ticket as usize)
        } else {
            None::<usize>
        },
{
    if ticket < capacity as u64 {
        Some(ticket as usize)
    } else {
        None
    }
}

/// A participant's handle on quiescent-state protected data.
pub struct RcuQsbr {
    thread_id: usize,
    global_info: Arc<RcuQsbrShared>,
}

impl RcuQsbr {
    #[verifier::type_invariant]
    closed spec fn inv(&self) -> bool {
        self.thread_id < self.global_info.capacity()
    }

    /// The slot this handle reports through.
    pub closed spec fn slot(&self) -> nat {
        self.thread_id as nat
    }

    /// Number of slots of the shared state behind this handle.
    pub closed spec fn capacity(&self) -> nat {
        self.global_info.capacity()
    }

    /// Registers a new participant of `shared` and brings it online. Slots are
    /// handed out in order and never reused: once all are taken, every
    /// further registration returns `None` and leaves the slots untouched.
    pub fn new(shared: Arc<RcuQsbrShared>) -> (r: Option<Self>)
        ensures
            r matches Some(h) ==> h.capacity() == shared.capacity() && h.slot() < shared.capacity(),
    {
        let ticket = shared.thread_counter.fetch_add(1, Ordering::SeqCst);
        match slot_for_ticket(ticket, shared.len()) {
            Some(id) => {
                let h = RcuQsbr { thread_id: id, global_info: shared };
                h.thread_online();
                Some(h)
            },
            None => None,
        }
    }

    /// The slot this handle reports through.
    pub fn thread_id(&self) -> (r: usize)
        ensures
            r == self.slot(),
    {
        self.thread_id
    }

    /// Marks this participant online: grace periods wait for it from now on.
    pub fn thread_online(&self) {
        proof {
            use_type_invariant(self);
        }
        self.global_info.thread_ctr[self.thread_id].store(RCU_GP_ONLINE, Ordering::SeqCst);
    }

    /// Marks this participant offline: grace periods skip it until it comes
    /// online again.
    pub fn thread_offline(&self) {
        proof {
            use_type_invariant(self);
        }
        self.global_info.thread_ctr[self.thread_id].store(RCU_GP_OFFLINE, Ordering::SeqCst);
    }

    /// Reports a quiescent state: this participant holds no reference taken
    /// before the current generation.
    fn quiescent_state(&self) {
        proof {
            use_type_invariant(self);
        }
        smp_mb();
        let v = self.global_info.global_ctr.load(Ordering::SeqCst);
        self.global_info.thread_ctr[self.thread_id].store(v, Ordering::SeqCst);
        smp_mb();
    }

    /// Takes a snapshot of the published value. Reading costs no atomic
    /// write; releasing the guard reports a quiescent state.
    pub fn read(&self) -> (r: RcuQsbrReadGuard<'_>)
        ensures
            r.owner() == *self,
    {
        let ptr = self.global_info.data_ptr.load(Ordering::Acquire);
        RcuQsbrReadGuard { inner_lock: self, data: ptr }
    }

    /// Publishes `new_data` in place of the current value, which the returned
    /// guard holds as retired until a grace period has elapsed.
    pub fn replace(&self, new_data: usize) -> (r: RcuQsbrWriteGuard<'_>)
        ensures
            r.owner() == *self,
            r.retired() is Some,
            r.grace()@.stage == QsbrStage::Start,
    {
        RcuQsbrWriteGuard::new(self, new_data)
    }
}

/// A snapshot of the published value; releasing it reports a quiescent state.
pub struct RcuQsbrReadGuard<'a> {
    data: usize,
    inner_lock: &'a RcuQsbr,
}

impl<'a> RcuQsbrReadGuard<'a> {
    /// The handle the snapshot was taken through.
    pub closed spec fn owner(&self) -> RcuQsbr {
        *self.inner_lock
    }

    /// The snapshot.
    pub closed spec fn snapshot(&self) -> usize {
        self.data
    }

    /// The snapshot.
    pub fn get(&self) -> (r: usize)
        ensures
            r == self.snapshot(),
    {
        self.data
    }

    /// Ends the read and reports a quiescent state.
    pub fn release(self) {
        self.inner_lock.quiescent_state();
    }
}

/// Where a quiescent-state grace-period wait stands.
#[derive(PartialEq, Eq, Structural, Clone, Copy, Debug)]
pub enum QsbrStage {
    /// Not started: the writer is still in its own reporting state.
    Start,
    /// Offline for the wait, waiting for the writers' lock.
    Locking,
    /// The generation has advanced; scanning the slots.
    Scanning,
    /// Every online slot reported the new generation.
    Finished,
}

/// What a quiescent-state wait has established: the generation it set and
/// the counter values read afterwards, one per slot scanned, none of which
/// it had to wait for.
pub struct QsbrView {
    pub stage: QsbrStage,
    pub slots: nat,
    pub target: u32,
    pub observed: Seq<u32>,
}

/// A finished wait saw every slot offline or past the generation it set.
pub open spec fn qsbr_elapsed(v: QsbrView) -> bool {
    &&& v.stage == QsbrStage::Finished
    &&& v.observed.len() == v.slots
    &&& forall|i: int| 0 <= i < v.slots ==> !must_wait(#[trigger] v.observed[i], v.target)
}

/// A quiescent-state grace-period wait in progress.
pub struct QsbrGrace {
    stage: QsbrStage,
    slot: usize,
    slots: usize,
    target: u32,
    was_online: bool,
    observed: Ghost<Seq<u32>>,
}

impl View for QsbrGrace {
    type V = QsbrView;

    closed spec fn view(&self) -> QsbrView {
        QsbrView { stage: self.stage, slots: self.slots as nat, target: self.target, observed: self.observed@ }
    }
}

impl QsbrGrace {
    #[verifier::type_invariant]
    closed spec fn inv(&self) -> bool {
        &&& self.slot <= self.slots
        &&& self.observed@.len() == self.slot
        &&& forall|i: int| 0 <= i < self.slot ==> !must_wait(#[trigger] self.observed@[i], self.target)
        &&& self.stage == QsbrStage::Finished ==> self.slot == self.slots
    }

    /// A wait over `shared`, not yet started.
    pub fn new(shared: &RcuQsbrShared) -> (r: Self)
        ensures
            r@.stage == QsbrStage::Start,
            r@.slots == shared.capacity(),
            r@.observed.len() == 0,
    {
        QsbrGrace {
            stage: QsbrStage::Start,
            slot: 0,
            slots: shared.len(),
            target: 0,
            was_online: false,
            observed: Ghost(Seq::empty()),
        }
    }

    /// Whether the grace period has elapsed.
    pub fn is_finished(&self) -> (r: bool)
        ensures
            r == (self@.stage == QsbrStage::Finished),
            r ==> qsbr_elapsed(self@),
    {
        proof {
            use_type_invariant(self);
        }
        self.stage == QsbrStage::Finished
    }
}


impl QsbrGrace {
    /// Advances the wait as far as it can go without blocking and tells
    /// whether the grace period has elapsed.
    ///
    /// The writer `h` first goes offline so that it does not wait for itself,
    /// takes the writers' lock, advances the generation and reads every slot
    /// until each is offline or has reported the new generation; it then
    /// releases the lock and, if it was online, reports the new generation
    /// for itself. It stops early, keeping its place, where the lock is held
    /// by another writer or a slot must still be waited for.
    ///
    /// A wait over another shared state than the one it was made for never
    /// finishes.
    pub fn step(&mut self, h: &RcuQsbr) -> (done: bool)
        ensures
            final(self)@.slots == old(self)@.slots,
            done == (final(self)@.stage == QsbrStage::Finished),
            done ==> qsbr_elapsed(final(self)@),
            old(self)@.stage == QsbrStage::Finished ==> final(self)@ == old(self)@,
            old(self)@.stage != QsbrStage::Finished && old(self)@.slots != h.capacity() ==> !done
                && final(self)@ == old(self)@,
    {
        proof {
            use_type_invariant(&*self);
            use_type_invariant(h);
        }
        let shared = &*h.global_info;
        if self.stage == QsbrStage::Finished {
            return true;
        }
        if self.slots != shared.len() {
            return false;
        }
        if self.stage == QsbrStage::Start {
            let was = shared.thread_ctr[h.thread_id].load(Ordering::Acquire);
            let was_online = was != RCU_GP_OFFLINE;
            if was_online {
                shared.thread_ctr[h.thread_id].store(RCU_GP_OFFLINE, Ordering::Relaxed);
            }
            self.was_online = was_online;
            self.stage = QsbrStage::Locking;
        }
        if self.stage == QsbrStage::Locking {
            match shared.writer.compare_exchange(false, true, Ordering::Acquire, Ordering::Relaxed) {
                Ok(_) => {},
                Err(_) => {
                    return false;
                },
            }
            let g = shared.global_ctr.load(Ordering::Acquire);
            let target = next_generation(g);
            shared.global_ctr.store(target, Ordering::SeqCst);
            smp_mb();
            *self = QsbrGrace {
                stage: QsbrStage::Scanning,
                slot: 0,
                slots: self.slots,
                target,
                was_online: self.was_online,
                observed: Ghost(Seq::empty()),
            };
        }
        while self.slot < self.slots
            invariant
                self.inv(),
                self.stage == QsbrStage::Scanning,
                self.slots == shared.capacity(),
                self.slots == old(self).slots,
                old(self).stage != QsbrStage::Finished,
                old(self)@.slots == h.capacity(),
            decreases self.slots - self.slot,
        {
            let value = shared.thread_ctr[self.slot].load(Ordering::SeqCst);
            if is_waiting_on(value, self.target) {
                return false;
            }
            let ghost observed = self.observed@.push(value);
            *self = QsbrGrace {
                stage: self.stage,
                slot: self.slot + 1,
                slots: self.slots,
                target: self.target,
                was_online: self.was_online,
                observed: Ghost(observed),
            };
        }
        shared.writer.store(false, Ordering::Release);
        if self.was_online {
            shared.thread_ctr[h.thread_id].store(self.target, Ordering::SeqCst);
        }
        self.stage = QsbrStage::Finished;
        true
    }
}

/// The writer's side of one publish: it owns the displaced value until a
/// grace period has elapsed.
pub struct RcuQsbrWriteGuard<'a> {
    data: Option<usize>,
    inner_lock: &'a RcuQsbr,
    grace: QsbrGrace,
}

impl<'a> RcuQsbrWriteGuard<'a> {
    /// The handle the value was published through.
    pub closed spec fn owner(&self) -> RcuQsbr {
        *self.inner_lock
    }

    /// The displaced value, until it is taken.
    pub closed spec fn retired(&self) -> Option<usize> {
        self.data
    }

    /// The grace-period wait that guards the displaced value.
    pub closed spec fn grace(&self) -> QsbrGrace {
        self.grace
    }

    /// Publishes `new_data` through `lock`, keeping the displaced value.
    pub fn new(lock: &'a RcuQsbr, new_data: usize) -> (r: Self)
        ensures
            r.owner() == *lock,
            r.retired() is Some,
            r.grace()@.stage == QsbrStage::Start,
    {
        let old = lock.global_info.data_ptr.swap(new_data, Ordering::SeqCst);
        RcuQsbrWriteGuard { data: Some(old), inner_lock: lock, grace: QsbrGrace::new(&lock.global_info) }
    }

    /// Advances the grace-period wait as far as it goes without blocking;
    /// tells whether the grace period has elapsed.
    pub fn poll(&mut self) -> (done: bool)
        ensures
            final(self).owner() == old(self).owner(),
            final(self).retired() == old(self).retired(),
            done == (final(self).grace()@.stage == QsbrStage::Finished),
            done ==> qsbr_elapsed(final(self).grace()@),
    {
        self.grace.step(self.inner_lock)
    }

    /// Whether the grace period has elapsed.
    pub fn is_grace_elapsed(&self) -> (r: bool)
        ensures
            r == (self.grace()@.stage == QsbrStage::Finished),
            r ==> qsbr_elapsed(self.grace()@),
    {
        self.grace.is_finished()
    }

    /// Takes the displaced value once its grace period has elapsed; `None`
    /// where it was already taken.
    pub fn get_old(&mut self) -> (r: Option<usize>)
        requires
            old(self).grace()@.stage == QsbrStage::Finished,
        ensures
            r == old(self).retired(),
            final(self).retired() is None,
            final(self).owner() == old(self).owner(),
            final(self).grace() == old(self).grace(),
    {
        self.data.take()
    }
}


/// A participant that is offline when its slot is read never holds up a
/// grace period, whatever generation the wait has set.
pub proof fn lemma_offline_never_waited(global: u32)
    ensures
        !must_wait(RCU_GP_OFFLINE, global),
{
}

/// A finished quiescent-state wait found every slot offline or reporting the
/// generation that the wait itself set.
pub proof fn lemma_qsbr_covers_every_slot(v: QsbrView, slot: int)
    requires
        qsbr_elapsed(v),
        0 <= slot < v.slots,
    ensures
        v.observed[slot] == RCU_GP_OFFLINE || v.observed[slot] == v.target,
{
    assert(!must_wait(v.observed[slot], v.target));
}

} // verus!

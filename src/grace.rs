use std::sync::atomic::{AtomicBool, AtomicU32, Ordering};
use vstd::prelude::*;

use crate::memory::barrier;
use crate::memory::smp_mb;
use crate::phase::exit_value;
use crate::phase::flip_phase;
use crate::phase::busy;
use crate::phase::is_busy;
use crate::phase::nesting;
use crate::phase::phase_of;
use crate::phase::try_enter;
use crate::phase::RCU_GP_CTR_PHASE;
use crate::phase::RCU_NEST_MASK;

verus! {

/// The counters of the phase-based grace-period protocol: the generation
/// counter, one counter per participant slot and the lock that serialises
/// writers while they wait for a grace period.
pub struct GpCounters {
    global_ctr: AtomicU32,
    thread_ctr: Vec<AtomicU32>,
    writer: AtomicBool,
}

impl GpCounters {
    /// Number of participant slots.
    pub closed spec fn capacity(&self) -> nat {
        self.thread_ctr@.len()
    }

    /// Counters with `count` idle slots, phase zero and no writer inside.
    pub fn new(count: u32) -> (r: Self)
        ensures
            r.capacity() == count,
    {
        let mut thread_ctr: Vec<AtomicU32> = Vec::new();
        let mut i: u32 = 0;
        while i < count
            invariant
                i <= count,
                thread_ctr@.len() == i,
            decreases count - i,
        {
            thread_ctr.push(AtomicU32::new(0));
            i = i + 1;
        }
        GpCounters { global_ctr: AtomicU32::new(0), thread_ctr, writer: AtomicBool::new(false) }
    }

    /// Number of participant slots.
    pub fn len(&self) -> (r: usize)
        ensures
            r == self.capacity(),
    {
        self.thread_ctr.len()
    }

    /// Enters a read-side critical section in slot `id`.
    ///
    /// The outermost entry records the current phase, followed by a full
    /// barrier; a nested entry only raises the depth. Returns `false`, changing
    /// nothing, when the depth is already at its maximum.
    pub fn read_lock(&self, id: usize) -> (r: bool)
        requires
            id < self.capacity(),
    {
        let local = self.thread_ctr[id].load(Ordering::Acquire);
        if local & RCU_NEST_MASK == 0 {
            let global = self.global_ctr.load(Ordering::Acquire);
            match try_enter(local, global) {
                Some(v) => {
                    self.thread_ctr[id].store(v, Ordering::SeqCst);
                    smp_mb();
                    true
                },
                None => false,
            }
        } else {
            // A nested entry keeps the phase recorded at the outermost one,
            // so the generation counter need not be read.
            match try_enter(local, 0) {
                Some(v) => {
                    self.thread_ctr[id].store(v, Ordering::Relaxed);
                    true
                },
                None => false,
            }
        }
    }

    /// Leaves a read-side critical section in slot `id`: a full barrier, then
    /// the depth drops by one. A slot that is not inside a critical section is
    /// left unchanged.
    pub fn read_unlock(&self, id: usize)
        requires
            id < self.capacity(),
    {
        smp_mb();
        let local = self.thread_ctr[id].load(Ordering::Acquire);
        if local & RCU_NEST_MASK != 0 {
            self.thread_ctr[id].store(exit_value(local), Ordering::SeqCst);
        }
    }

    /// Tries once to take the writers' lock.
    pub(crate) fn try_lock_writer(&self) -> bool {
        match self.writer.compare_exchange(false, true, Ordering::Acquire, Ordering::Relaxed) {
            Ok(_) => true,
            Err(_) => false,
        }
    }

    pub(crate) fn unlock_writer(&self) {
        self.writer.store(false, Ordering::Release);
    }
}

/// Where a grace-period wait stands.
#[derive(PartialEq, Eq, Structural, Clone, Copy, Debug)]
pub enum GraceStage {
    /// Waiting for the writers' lock.
    Locking,
    /// About to flip the phase.
    Flipping,
    /// Scanning the participant slots after a flip.
    Scanning,
    /// Both flips done and every slot seen clear after each: the grace
    /// period has elapsed.
    Finished,
}

/// What a grace-period wait has established so far: the phase set by each
/// flip, and for each flip the counter values read afterwards, one per slot
/// scanned, each clear of that phase.
pub struct GraceView {
    pub stage: GraceStage,
    pub slots: nat,
    pub phases: Seq<u32>,
    pub observed: Seq<Seq<u32>>,
}

/// Every slot was read after the `round`-th flip and none was busy in the
/// phase that flip set.
pub open spec fn round_cleared(v: GraceView, round: int) -> bool {
    &&& 0 <= round < v.phases.len()
    &&& round < v.observed.len()
    &&& v.observed[round].len() == v.slots
    &&& forall|i: int|
        0 <= i < v.slots ==> !busy(#[trigger] v.observed[round][i], v.phases[round])
}

/// A finished wait has flipped the phase twice, to two different phases, and
/// has seen every slot clear after each flip.
pub open spec fn grace_elapsed(v: GraceView) -> bool {
    &&& v.stage == GraceStage::Finished
    &&& v.phases.len() == 2
    &&& v.phases[1] == v.phases[0] ^ RCU_GP_CTR_PHASE
    &&& phase_of(v.phases[0]) != phase_of(v.phases[1])
    &&& round_cleared(v, 0)
    &&& round_cleared(v, 1)
}

/// A grace-period wait in progress, advanced by `step` without blocking.
pub struct GracePeriod {
    stage: GraceStage,
    slot: usize,
    slots: usize,
    flips: u8,
    phase: u32,
    owns_lock: bool,
    phases: Ghost<Seq<u32>>,
    observed: Ghost<Seq<Seq<u32>>>,
}

impl View for GracePeriod {
    type V = GraceView;

    closed spec fn view(&self) -> GraceView {
        GraceView {
            stage: self.stage,
            slots: self.slots as nat,
            phases: self.phases@,
            observed: self.observed@,
        }
    }
}

/// Every counter value read so far was clear of the phase of its round.
pub open spec fn all_clear(phases: Seq<u32>, observed: Seq<Seq<u32>>) -> bool {
    forall|r: int, i: int|
        0 <= r < observed.len() && 0 <= i < observed[r].len() ==> !busy(
            #[trigger] observed[r][i],
            phases[r],
        )
}

impl GracePeriod {
    #[verifier::type_invariant]
    closed spec fn inv(&self) -> bool {
        &&& self.slot <= self.slots
        &&& self.phases@.len() == self.observed@.len()
        &&& self.flips == self.phases@.len()
        &&& all_clear(self.phases@, self.observed@)
        &&& match self.stage {
            GraceStage::Locking | GraceStage::Flipping => self.phases@.len() == 0,
            GraceStage::Scanning => {
                &&& 1 <= self.phases@.len() <= 2
                &&& self.phase == self.phases@.last()
                &&& self.observed@.last().len() == self.slot
                &&& self.phases@.len() == 2 ==> {
                    &&& self.observed@[0].len() == self.slots
                    &&& phase_of(self.phases@[0]) != phase_of(self.phases@[1])
                    &&& self.phases@[1] == self.phases@[0] ^ RCU_GP_CTR_PHASE
                }
            },
            GraceStage::Finished => {
                &&& self.phases@.len() == 2
                &&& phase_of(self.phases@[0]) != phase_of(self.phases@[1])
                &&& self.phases@[1] == self.phases@[0] ^ RCU_GP_CTR_PHASE
                &&& self.observed@[0].len() == self.slots
                &&& self.observed@[1].len() == self.slots
            },
        }
    }

    /// A wait that has not started, over `counters`.
    pub fn new(counters: &GpCounters) -> (r: Self)
        ensures
            r@.stage == GraceStage::Locking,
            r@.slots == counters.capacity(),
            r@.phases.len() == 0,
            r@.observed.len() == 0,
    {
        GracePeriod {
            stage: GraceStage::Locking,
            slot: 0,
            slots: counters.len(),
            flips: 0,
            phase: 0,
            owns_lock: true,
            phases: Ghost(Seq::empty()),
            observed: Ghost(Seq::empty()),
        }
    }

    /// A wait over `counters` for a writer that is serialised with the other
    /// writers by a lock of its own: the wait neither takes nor releases the
    /// writers' lock of the counters.
    pub(crate) fn for_lock_holder(counters: &GpCounters) -> (r: Self)
        ensures
            r@.stage == GraceStage::Flipping,
            r@.slots == counters.capacity(),
            r@.phases.len() == 0,
            r@.observed.len() == 0,
    {
        GracePeriod {
            stage: GraceStage::Flipping,
            slot: 0,
            slots: counters.len(),
            flips: 0,
            phase: 0,
            owns_lock: false,
            phases: Ghost(Seq::empty()),
            observed: Ghost(Seq::empty()),
        }
    }

    /// Where the wait stands.
    pub fn stage(&self) -> (r: GraceStage)
        ensures
            r == self@.stage,
    {
        self.stage
    }

    /// Whether the grace period has elapsed.
    pub fn is_finished(&self) -> (r: bool)
        ensures
            r == (self@.stage == GraceStage::Finished),
            r ==> grace_elapsed(self@),
    {
        proof {
            use_type_invariant(self);
        }
        self.stage == GraceStage::Finished
    }

    /// Flips the phase and starts a scan of every slot: the first flip reads
    /// the generation counter, the second flips the phase the first one set.
    fn flip(&mut self, counters: &GpCounters)
        requires
            old(self).stage == GraceStage::Flipping || (old(self).stage == GraceStage::Scanning
                && old(self).phases@.len() == 1 && old(self).slot == old(self).slots),
            old(self).slots == counters.capacity(),
            old(self).inv(),
        ensures
            final(self).inv(),
            final(self).stage == GraceStage::Scanning,
            final(self).slot == 0,
            final(self).slots == old(self).slots,
            final(self).phases@.len() == old(self).phases@.len() + 1,
            final(self).observed@.len() == old(self).observed@.len() + 1,
    {
        barrier();
        let base = if self.stage == GraceStage::Flipping {
            counters.global_ctr.load(Ordering::Acquire)
        } else {
            self.phase
        };
        let next = flip_phase(base);
        counters.global_ctr.store(next, Ordering::Release);
        barrier();
        let ghost phases = self.phases@.push(next);
        let ghost observed = self.observed@.push(Seq::empty());
        proof {
            assert forall|r: int, i: int|
                0 <= r < observed.len() && 0 <= i < observed[r].len() implies !busy(
                #[trigger] observed[r][i],
                phases[r],
            ) by {
                assert(r < old(self).observed@.len());
                assert(observed[r] == old(self).observed@[r]);
            }
            assert(base & 0x10000u32 != (base ^ 0x10000u32) & 0x10000u32) by (bit_vector);
        }
        *self = GracePeriod {
            stage: GraceStage::Scanning,
            slot: 0,
            slots: self.slots,
            flips: self.flips + 1,
            phase: next,
            owns_lock: self.owns_lock,
            phases: Ghost(phases),
            observed: Ghost(observed),
        };
    }

    /// Reads the slots from where the scan stands; stops at the first one
    /// that is busy in the old phase. Returns whether every slot is clear.
    fn scan(&mut self, counters: &GpCounters) -> (r: bool)
        requires
            old(self).stage == GraceStage::Scanning,
            old(self).slots == counters.capacity(),
            old(self).inv(),
        ensures
            final(self).inv(),
            final(self).stage == GraceStage::Scanning,
            final(self).slots == old(self).slots,
            final(self).phases@ == old(self).phases@,
            final(self).observed@.len() == old(self).observed@.len(),
            r == (final(self).slot == final(self).slots),
    {
        while self.slot < self.slots
            invariant
                self.inv(),
                self.stage == GraceStage::Scanning,
                self.slots == counters.capacity(),
                self.slots == old(self).slots,
                self.phases@ == old(self).phases@,
                self.observed@.len() == old(self).observed@.len(),
            decreases self.slots - self.slot,
        {
            let value = counters.thread_ctr[self.slot].load(Ordering::Relaxed);
            if is_busy(value, self.phase) {
                return false;
            }
            let ghost last = self.observed@.len() - 1;
            let ghost prev = self.observed@;
            let ghost observed = prev.update(last, prev[last].push(value));
            proof {
                assert forall|r: int, i: int|
                    0 <= r < observed.len() && 0 <= i < observed[r].len() implies !busy(
                    #[trigger] observed[r][i],
                    self.phases@[r],
                ) by {
                    if r == last && i < prev[last].len() {
                        assert(observed[r][i] == prev[r][i]);
                    }
                }
            }
            *self = GracePeriod {
                stage: self.stage,
                slot: self.slot + 1,
                slots: self.slots,
                flips: self.flips,
                phase: self.phase,
                owns_lock: self.owns_lock,
                phases: self.phases,
                observed: Ghost(observed),
            };
        }
        true
    }

    /// Advances the wait as far as it can go without blocking and tells
    /// whether the grace period has elapsed.
    ///
    /// The wait takes the writers' lock (unless it was made for a writer that
    /// holds a lock of its own), flips the phase, reads every slot until none
    /// is busy in the old phase, flips again and reads every slot once more,
    /// then releases the lock. Each flip and the end are full barriers. It
    /// stops early, keeping its place,
    /// where the lock is held by another writer or a slot is still busy; the
    /// caller backs off and calls again.
    ///
    /// A wait over other counters than the ones it was made for never
    /// finishes.
    pub fn step(&mut self, counters: &GpCounters) -> (done: bool)
        ensures
            final(self)@.slots == old(self)@.slots,
            done == (final(self)@.stage == GraceStage::Finished),
            done ==> grace_elapsed(final(self)@),
            old(self)@.stage == GraceStage::Finished ==> final(self)@ == old(self)@,
            old(self)@.stage != GraceStage::Finished && old(self)@.slots != counters.capacity()
                ==> !done && final(self)@ == old(self)@,
    {
        proof {
            use_type_invariant(&*self);
        }
        if self.stage == GraceStage::Finished {
            return true;
        }
        if self.slots != counters.len() {
            return false;
        }
        if self.stage == GraceStage::Locking {
            if !counters.try_lock_writer() {
                return false;
            }
            self.stage = GraceStage::Flipping;
        }
        if self.stage == GraceStage::Flipping {
            self.flip(counters);
        }
        if self.flips == 1 {
            if !self.scan(counters) {
                return false;
            }
            self.flip(counters);
        }
        if !self.scan(counters) {
            return false;
        }
        if self.owns_lock {
            counters.unlock_writer();
        }
        smp_mb();
        self.stage = GraceStage::Finished;
        true
    }
}


/// A finished grace-period wait read every participant slot after each of its
/// two flips and found it idle or entered in the phase that flip had set: no
/// reader that entered before a flip was still inside when its slot was read.
pub proof fn lemma_grace_covers_every_slot(v: GraceView, round: int, slot: int)
    requires
        grace_elapsed(v),
        0 <= round < 2,
        0 <= slot < v.slots,
    ensures
        nesting(v.observed[round][slot]) == 0 || phase_of(v.observed[round][slot]) == phase_of(
            v.phases[round],
        ),
{
    assert(!busy(v.observed[round][slot], v.phases[round]));
}

} // verus!

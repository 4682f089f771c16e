use vstd::prelude::*;

verus! {

/// Mask selecting the read-side nesting depth of a participant counter.
pub const RCU_NEST_MASK: u32 = 0xffff;

/// The phase bit of the generation counter and of participant counters.
pub const RCU_GP_CTR_PHASE: u32 = 0x10000;

/// One level of read-side nesting.
pub const RCU_NEST_COUNT: u32 = 1;

/// Read-side nesting depth recorded in a participant counter.
pub open spec fn nesting(v: u32) -> u32 {
    v & RCU_NEST_MASK
}

/// Phase bit recorded in a counter (zero or `RCU_GP_CTR_PHASE`).
pub open spec fn phase_of(v: u32) -> u32 {
    v & RCU_GP_CTR_PHASE
}

/// A participant counter with the given phase bit and nesting depth.
pub open spec fn counter_of(phase: u32, depth: u32) -> u32 {
    phase | depth
}

/// Whether a participant whose counter reads `value` holds up a grace period
/// whose current phase is that of `global`.
pub open spec fn busy(value: u32, global: u32) -> bool {
    nesting(value) != 0 && phase_of(value) != phase_of(global)
}

/// Whether a participant counter value shows a reader that entered in a phase
/// other than the one in `global`: such a reader may still hold a reference
/// published before the phase changed.
pub fn is_busy(value: u32, global: u32) -> (r: bool)
    ensures
        r == busy(value, global),
{
    assert(((value ^ global) & RCU_GP_CTR_PHASE) != 0 <==> (value & RCU_GP_CTR_PHASE) != (
    global & RCU_GP_CTR_PHASE)) by (bit_vector);
    (value & RCU_NEST_MASK) != 0 && ((value ^ global) & RCU_GP_CTR_PHASE) != 0
}

/// Counter value after entering a read-side critical section.
///
/// At the outermost entry the counter takes the phase of `global` with depth
/// one; a nested entry increments the depth and keeps the recorded phase.
pub fn enter_value(local: u32, global: u32) -> (r: u32)
    requires
        nesting(local) < RCU_NEST_MASK,
    ensures
        nesting(r) == nesting(local) + 1,
        phase_of(r) == if nesting(local) == 0 {
            phase_of(global)
        } else {
            phase_of(local)
        },
        r == if nesting(local) == 0 {
            counter_of(phase_of(global), 1)
        } else {
            counter_of(phase_of(local), (nesting(local) + 1) as u32)
        },
{
    if local & RCU_NEST_MASK == 0 {
        let r = (global & RCU_GP_CTR_PHASE) | RCU_NEST_COUNT;
        assert(((global & 0x10000u32) | 1u32) & 0xffffu32 == 1u32) by (bit_vector);
        assert(((global & 0x10000u32) | 1u32) & 0x10000u32 == global & 0x10000u32) by (bit_vector);
        r
    } else {
        let p = local & RCU_GP_CTR_PHASE;
        let d = (local & RCU_NEST_MASK) + RCU_NEST_COUNT;
        assert(d <= 0xffffu32 ==> (((local & 0x10000u32) | d) & 0xffffu32 == d && ((local
            & 0x10000u32) | d) & 0x10000u32 == local & 0x10000u32)) by (bit_vector);
        p | d
    }
}

/// Counter value after entering a read-side critical section, or `None`
/// where the depth is already at its maximum and cannot be raised.
pub fn try_enter(local: u32, global: u32) -> (r: Option<u32>)
    ensures
        r is None <==> nesting(local) == RCU_NEST_MASK,
        r matches Some(v) ==> {
            &&& nesting(v) == nesting(local) + 1
            &&& v == if nesting(local) == 0 {
                counter_of(phase_of(global), 1)
            } else {
                counter_of(phase_of(local), (nesting(local) + 1) as u32)
            }
        },
{
    if local & RCU_NEST_MASK == RCU_NEST_MASK {
        return None;
    }
    assert(local & 0xffffu32 != 0xffffu32 ==> local & 0xffffu32 < 0xffffu32) by (bit_vector);
    Some(enter_value(local, global))
}

/// Counter value after leaving a read-side critical section: the depth drops
/// by one and the recorded phase is kept.
pub fn exit_value(local: u32) -> (r: u32)
    requires
        nesting(local) > 0,
    ensures
        nesting(r) == nesting(local) - 1,
        phase_of(r) == phase_of(local),
        r == counter_of(phase_of(local), (nesting(local) - 1) as u32),
{
    let p = local & RCU_GP_CTR_PHASE;
    assert(local & 0xffffu32 <= 0xffffu32) by (bit_vector);
    let d = (local & RCU_NEST_MASK) - RCU_NEST_COUNT;
    assert(d <= 0xffffu32 ==> (((local & 0x10000u32) | d) & 0xffffu32 == d && ((local
        & 0x10000u32) | d) & 0x10000u32 == local & 0x10000u32)) by (bit_vector);
    p | d
}

/// The generation counter after one phase flip.
pub fn flip_phase(global: u32) -> (r: u32)
    ensures
        r == global ^ RCU_GP_CTR_PHASE,
        phase_of(r) != phase_of(global),
        nesting(r) == nesting(global),
{
    assert((global ^ 0x10000u32) & 0x10000u32 != global & 0x10000u32) by (bit_vector);
    assert((global ^ 0x10000u32) & 0xffffu32 == global & 0xffffu32) by (bit_vector);
    global ^ RCU_GP_CTR_PHASE
}

/// An idle participant (depth zero) never holds up a grace period.
pub proof fn lemma_idle_never_busy(value: u32, global: u32)
    requires
        nesting(value) == 0,
    ensures
        !busy(value, global),
{
}

} // verus!

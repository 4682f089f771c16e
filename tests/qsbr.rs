use std::sync::Arc;

use rcu::rcu_qsbr::{is_waiting_on, next_generation, slot_for_ticket, RcuQsbr, RcuQsbrShared};

#[test]
fn registration_past_capacity_fails() {
    let shared = Arc::new(RcuQsbrShared::new(2, 10));
    let a = RcuQsbr::new(shared.clone()).unwrap();
    let b = RcuQsbr::new(shared.clone()).unwrap();
    assert_eq!(a.thread_id(), 0);
    assert_eq!(b.thread_id(), 1);
    assert!(RcuQsbr::new(shared.clone()).is_none());
    assert!(RcuQsbr::new(shared).is_none());
}

#[test]
fn ticket_maps_to_slot_within_capacity() {
    assert_eq!(slot_for_ticket(0, 2), Some(0));
    assert_eq!(slot_for_ticket(1, 2), Some(1));
    assert_eq!(slot_for_ticket(2, 2), None);
    assert_eq!(slot_for_ticket(0, 0), None);
}

#[test]
fn generation_skips_reserved_values() {
    assert_eq!(next_generation(2), 4);
    assert_eq!(next_generation(u32::MAX - 2), u32::MAX);
    assert_eq!(next_generation(u32::MAX - 1), 2);
    assert_eq!(next_generation(u32::MAX), 2);
}

#[test]
fn offline_slot_is_never_waited_on() {
    assert!(!is_waiting_on(0, 4));
    assert!(is_waiting_on(1, 4));
    assert!(is_waiting_on(2, 4));
    assert!(!is_waiting_on(4, 4));
}

#[test]
fn online_participant_blocks_until_quiescent() {
    let shared = Arc::new(RcuQsbrShared::new(2, 10));
    let writer = RcuQsbr::new(shared.clone()).unwrap();
    let reader = RcuQsbr::new(shared).unwrap();
    let mut w = writer.replace(20);
    assert!(!w.poll());
    let g = reader.read();
    assert_eq!(g.get(), 20);
    g.release();
    assert!(w.poll());
    assert_eq!(w.get_old(), Some(10));
    assert_eq!(w.get_old(), None);
}

#[test]
fn offline_participant_is_skipped() {
    let shared = Arc::new(RcuQsbrShared::new(3, 1));
    let writer = RcuQsbr::new(shared.clone()).unwrap();
    let idle = RcuQsbr::new(shared.clone()).unwrap();
    let active = RcuQsbr::new(shared).unwrap();
    idle.thread_offline();
    let mut w = writer.replace(2);
    assert!(!w.poll());
    active.read().release();
    assert!(w.poll());
    assert!(w.is_grace_elapsed());
    idle.thread_online();
    let g = idle.read();
    assert_eq!(g.get(), 2);
    g.release();
}

#[test]
fn writer_does_not_wait_for_itself() {
    let shared = Arc::new(RcuQsbrShared::new(1, 1));
    let writer = RcuQsbr::new(shared).unwrap();
    let mut w = writer.replace(2);
    assert!(w.poll());
    assert_eq!(w.get_old(), Some(1));
    let g = writer.read();
    assert_eq!(g.get(), 2);
    g.release();
}

use rcu::rcu_gp::{CasResult, RcuCell, RcuGpWriteGuard};

#[test]
fn gen_tokens_binds_one_slot_each() {
    let cells = RcuCell::gen_tokens(3, 100);
    assert_eq!(cells.len(), 3);
    for (i, c) in cells.iter().enumerate() {
        assert_eq!(c.thread_id(), i);
    }
}

#[test]
fn read_sees_initial_value() {
    let cells = RcuCell::gen_tokens(2, 100);
    let g = cells[1].read().unwrap();
    assert_eq!(g.get(), 100);
    g.release();
}

#[test]
fn read_after_finished_replace_sees_new_value() {
    let cells = RcuCell::gen_tokens(3, 100);
    let mut w = cells[0].replace(200);
    assert!(w.poll());
    assert_eq!(w.get_old(), Some(100));
    for c in &cells {
        let g = c.read().unwrap();
        assert_eq!(g.get(), 200);
        g.release();
    }
}

#[test]
fn retired_value_is_taken_once() {
    let cells = RcuCell::gen_tokens(1, 7);
    let mut w = cells[0].replace(8);
    while !w.poll() {}
    assert!(w.is_grace_elapsed());
    assert_eq!(w.get_old(), Some(7));
    assert_eq!(w.get_old(), None);
}

#[test]
fn grace_period_waits_for_reader_of_old_value() {
    let cells = RcuCell::gen_tokens(2, 100);
    let g = cells[1].read().unwrap();
    let mut w = cells[0].replace(200);
    assert!(!w.poll());
    assert!(!w.poll());
    assert!(!w.is_grace_elapsed());
    assert_eq!(g.get(), 100);
    g.release();
    assert!(w.poll());
    assert_eq!(w.get_old(), Some(100));
}

#[test]
fn nested_reads_hold_grace_period_until_outermost_exit() {
    let cells = RcuCell::gen_tokens(2, 1);
    let outer = cells[1].read().unwrap();
    let inner = cells[1].read().unwrap();
    let mut w = cells[0].replace(2);
    inner.release();
    assert!(!w.poll());
    outer.release();
    assert!(w.poll());
}

#[test]
fn reader_starting_after_publish_does_not_block() {
    let cells = RcuCell::gen_tokens(2, 1);
    let mut w = cells[0].replace(2);
    assert!(w.poll());
    let g = cells[1].read().unwrap();
    assert_eq!(g.get(), 2);
    let mut w2 = cells[0].replace(3);
    assert!(!w2.poll());
    g.release();
    assert!(w2.poll());
    assert_eq!(w2.get_old(), Some(2));
}

#[test]
fn cas_publishes_when_snapshot_is_current() {
    let cells = RcuCell::gen_tokens(2, 100);
    let rg = cells[1].read().unwrap();
    match RcuGpWriteGuard::cas(&cells[1], 300, rg) {
        CasResult::Guard(mut w) => {
            assert!(w.poll());
            assert_eq!(w.get_old(), Some(100));
        }
        CasResult::Old(_) => panic!("compare-and-publish on a current snapshot was rejected"),
    }
    let g = cells[0].read().unwrap();
    assert_eq!(g.get(), 300);
    g.release();
}

#[test]
fn cas_race_on_one_snapshot_has_one_winner() {
    let cells = RcuCell::gen_tokens(3, 100);
    let snapshots: Vec<_> = cells.iter().map(|c| c.read().unwrap()).collect();
    let mut winners = Vec::new();
    let mut rejected = Vec::new();
    for (i, rg) in snapshots.into_iter().enumerate() {
        let new_value = 1000 + i;
        match RcuGpWriteGuard::cas(&cells[i], new_value, rg) {
            CasResult::Guard(w) => winners.push(w),
            CasResult::Old(v) => rejected.push((new_value, v)),
        }
    }
    assert_eq!(winners.len(), 1);
    let mut w = winners.pop().unwrap();
    assert!(w.poll());
    assert_eq!(w.get_old(), Some(100));
    assert_eq!(rejected.len(), 2);
    for (sent, back) in rejected {
        assert_eq!(sent, back);
    }
}

#[test]
fn cas_with_stale_snapshot_returns_input() {
    let cells = RcuCell::gen_tokens(2, 5);
    let stale = cells[1].read().unwrap();
    let mut w = cells[0].replace(6);
    stale_release_after_cas(&cells, stale);
    assert!(w.poll());
}

fn stale_release_after_cas<'a>(cells: &'a [RcuCell], stale: rcu::rcu_gp::RcuGpReadGuard<'a>) {
    match RcuGpWriteGuard::cas(&cells[1], 9, stale) {
        CasResult::Old(v) => assert_eq!(v, 9),
        CasResult::Guard(_) => panic!("stale snapshot was accepted"),
    }
}

#[test]
fn registration_past_capacity_fails_for_cells() {
    let shared = std::sync::Arc::new(rcu::rcu_gp::RcuGPShared::new(2, 1));
    let a = RcuCell::new(shared.clone()).unwrap();
    let b = RcuCell::new(shared.clone()).unwrap();
    assert_eq!(a.thread_id(), 0);
    assert_eq!(b.thread_id(), 1);
    assert!(RcuCell::new(shared.clone()).is_none());
    assert_eq!(shared.published(), 1);
    let mut w = a.replace(2);
    assert!(w.poll());
    assert_eq!(shared.published(), 2);
}

#[test]
fn read_fails_when_nesting_is_saturated() {
    let cells = RcuCell::gen_tokens(1, 4);
    let mut guards = Vec::new();
    for _ in 0..rcu::phase::RCU_NEST_MASK {
        guards.push(cells[0].read().unwrap());
    }
    assert!(cells[0].read().is_none());
    guards.pop().unwrap().release();
    let g = cells[0].read().unwrap();
    assert_eq!(g.get(), 4);
    g.release();
    for g in guards {
        g.release();
    }
    let mut w = cells[0].replace(5);
    assert!(w.poll());
}

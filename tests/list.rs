use rcu::rcu_list::{RcuGpReadGuard, RcuList};

fn collect(mut g: RcuGpReadGuard<'_>) -> Vec<usize> {
    let mut out = Vec::new();
    while let Some(v) = g.get_data() {
        out.push(v);
        g.go_next();
    }
    g.release();
    out
}

#[test]
fn gen_list_traverses_in_order() {
    let lists = RcuList::gen_list(2, &vec![1, 2, 3], 2);
    assert_eq!(lists.len(), 2);
    assert_eq!(lists[1].thread_id(), 1);
    assert_eq!(lists[0].node_len(), 6);
    assert_eq!(collect(lists[0].read().unwrap()), vec![1, 2, 3]);
}

#[test]
fn empty_list_cursor_starts_at_end() {
    let lists = RcuList::gen_list(1, &vec![], 1);
    let mut g = lists[0].read().unwrap();
    assert!(g.is_end());
    assert_eq!(g.get_data(), None);
    g.go_next();
    assert!(g.is_end());
    g.release();
}

#[test]
fn replace_is_seen_by_later_readers() {
    let lists = RcuList::gen_list(2, &vec![1, 2, 3], 2);
    let mut w = lists[0].write();
    w.go_next();
    assert_eq!(w.get_data(), Some(2));
    assert_eq!(w.replace(20), Ok(()));
    assert_eq!(w.get_data(), Some(20));
    assert!(w.poll());
    assert_eq!(w.reclaim(), vec![2]);
    assert_eq!(collect(lists[1].read().unwrap()), vec![1, 20, 3]);
}

#[test]
fn reader_on_replaced_node_keeps_its_path() {
    let lists = RcuList::gen_list(2, &vec![1, 2, 3], 1);
    let mut r = lists[1].read().unwrap();
    r.go_next();
    assert_eq!(r.get_data(), Some(2));
    let mut w = lists[0].write();
    w.go_next();
    assert_eq!(w.replace(20), Ok(()));
    assert!(!w.poll());
    assert_eq!(r.get_data(), Some(2));
    r.go_next();
    assert_eq!(r.get_data(), Some(3));
    r.go_next();
    assert!(r.is_end());
    r.release();
    assert!(w.poll());
    assert_eq!(w.reclaim(), vec![2]);
}

#[test]
fn reader_before_replaced_node_sees_new_value() {
    let lists = RcuList::gen_list(2, &vec![1, 2, 3], 1);
    let r = lists[1].read().unwrap();
    let mut w = lists[0].write();
    w.go_next();
    assert_eq!(w.replace(20), Ok(()));
    assert_eq!(collect(r), vec![1, 20, 3]);
    assert!(w.poll());
}

#[test]
fn replacing_every_element_keeps_length() {
    let lists = RcuList::gen_list(1, &vec![1, 2, 3], 3);
    let mut w = lists[0].write();
    for v in [10, 20, 30] {
        assert_eq!(w.replace(v), Ok(()));
        w.go_next();
    }
    assert_eq!(w.get_data(), None);
    assert!(w.poll());
    assert_eq!(w.reclaim(), vec![1, 2, 3]);
    assert_eq!(collect(lists[0].read().unwrap()), vec![10, 20, 30]);
}

#[test]
fn empty_pool_rejects_replace() {
    let lists = RcuList::gen_list(1, &vec![1, 2], 1);
    let mut w = lists[0].write();
    assert_eq!(w.replace(10), Ok(()));
    assert_eq!(w.replace(11), Err(11));
    assert_eq!(w.get_data(), Some(10));
    assert!(w.poll());
    assert_eq!(w.reclaim(), vec![1]);
    let mut w2 = lists[0].write();
    assert_eq!(w2.replace(11), Ok(()));
    assert!(w2.poll());
    assert_eq!(w2.reclaim(), vec![10]);
    assert_eq!(collect(lists[0].read().unwrap()), vec![11, 2]);
}

#[test]
fn replace_at_end_or_after_grace_started_is_rejected() {
    let lists = RcuList::gen_list(1, &vec![1], 2);
    let mut w = lists[0].write();
    w.go_next();
    assert_eq!(w.get_data(), None);
    assert_eq!(w.replace(5), Err(5));
    assert!(w.poll());
    assert_eq!(w.reclaim(), Vec::<usize>::new());
    let mut w = lists[0].write();
    assert!(w.poll());
    assert!(w.is_grace_elapsed());
    assert_eq!(w.replace(6), Err(6));
    assert_eq!(w.get_data(), Some(1));
}

#[test]
fn reclaim_releases_the_writers_lock() {
    let lists = RcuList::gen_list(2, &vec![1, 2], 1);
    let mut w = lists[0].write();
    assert_eq!(w.replace(3), Ok(()));
    assert!(w.poll());
    assert_eq!(w.reclaim(), vec![1]);
    let mut w = lists[1].write();
    w.go_next();
    assert_eq!(w.replace(4), Ok(()));
    assert!(w.poll());
    assert_eq!(w.reclaim(), vec![2]);
    assert_eq!(collect(lists[0].read().unwrap()), vec![3, 4]);
}

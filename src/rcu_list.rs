use std::sync::atomic::{AtomicUsize, Ordering};
use std::sync::Arc;
use vstd::prelude::*;
use vstd::rwlock::RwLock;
use vstd::rwlock::RwLockPredicate;
use vstd::rwlock::WriteHandle;

use crate::grace::grace_elapsed;
use crate::grace::GpCounters;
use crate::grace::GraceStage;
use crate::grace::GracePeriod;
use crate::memory::share;

verus! {

/// Index of the sentinel node, where every traversal starts and ends.
pub const SENTINEL: usize = 0;

/// One node as readers see it: a value token, atomic links to its
/// neighbours, and the sentinel flag.
pub struct LinkedNode {
    data: AtomicUsize,
    next: AtomicUsize,
    prev: AtomicUsize,
    head: bool,
}

impl LinkedNode {
    /// Whether this is the sentinel.
    pub closed spec fn is_head(&self) -> bool {
        self.head
    }

    fn new(data: usize, next: usize, prev: usize, head: bool) -> (r: Self)
        ensures
            r.is_head() == head,
    {
        LinkedNode {
            data: AtomicUsize::new(data),
            next: AtomicUsize::new(next),
            prev: AtomicUsize::new(prev),
            head,
        }
    }
}

/// The writers' copy of the list, kept under the writers' lock: the links
/// and value of every node, which nodes are in use, and the live elements
/// in order. Readers follow the atomic links, which writers set from it.
pub struct ListShadow {
    next: Vec<usize>,
    prev: Vec<usize>,
    data: Vec<usize>,
    used: Vec<bool>,
    order: Ghost<Seq<usize>>,
}

/// Links, values and pool flags of `nodes` nodes that hold the list of the
/// nodes of `order`.
spec fn shadow_wf(
    next: Seq<usize>,
    prev: Seq<usize>,
    data: Seq<usize>,
    used: Seq<bool>,
    order: Seq<usize>,
    nodes: nat,
) -> bool {
    &&& next.len() == nodes
    &&& prev.len() == nodes
    &&& data.len() == nodes
    &&& used.len() == nodes
    &&& links_follow(next, order)
    &&& links_back(prev, order)
    &&& forall|i: int, j: int| 0 <= i < j < order.len() ==> order[i] != order[j]
    &&& forall|i: int| 0 <= i < order.len() ==> used[#[trigger] order[i] as int]
    &&& used[0]
}

/// A well-formed copy over `nodes` nodes has one entry per node in each of
/// its vectors.
proof fn reveal_shadow_len(s: &ListShadow, nodes: nat)
    requires
        s.wf(nodes),
    ensures
        s.next@.len() == nodes,
        s.prev@.len() == nodes,
        s.data@.len() == nodes,
        s.used@.len() == nodes,
{
}

/// Splicing a free node in place of the `k`-th element keeps the writers'
/// copy well formed, and its values change at that place only.
proof fn lemma_splice_keeps_wf(
    next: Seq<usize>,
    prev: Seq<usize>,
    data: Seq<usize>,
    used: Seq<bool>,
    order: Seq<usize>,
    nodes: nat,
    k: int,
    fresh: usize,
    new_data: usize,
)
    requires
        shadow_wf(next, prev, data, used, order, nodes),
        0 <= k < order.len(),
        0 < fresh < nodes,
        !used[fresh as int],
    ensures
        next[order[k] as int] == if k + 1 < order.len() {
            order[k + 1]
        } else {
            0usize
        },
        prev[order[k] as int] == if k == 0 {
            0usize
        } else {
            order[k - 1]
        },
        forall|i: int| 0 <= i < order.len() ==> order[i] != fresh,
        shadow_wf(
            splice_next(next, order, k, fresh),
            splice_prev(prev, order, k, fresh),
            data.update(fresh as int, new_data),
            used.update(fresh as int, true),
            order.update(k, fresh),
            nodes,
        ),
        values_of(data.update(fresh as int, new_data), order.update(k, fresh)) == values_of(
            data,
            order,
        ).update(k, new_data),
{
    lemma_fresh_off_list(used, order, fresh);
    lemma_replace_keeps_traversal(next, order, k, fresh);
    lemma_replace_keeps_back_links(prev, next, order, k, fresh);
    lemma_replace_keeps_order(used, order, k, fresh);
    lemma_replace_values(data, order, k, fresh, new_data);
}

/// A node not in use is not on the list.
proof fn lemma_fresh_off_list(used: Seq<bool>, order: Seq<usize>, fresh: usize)
    requires
        forall|i: int| 0 <= i < order.len() ==> #[trigger] order[i] < used.len(),
        forall|i: int| 0 <= i < order.len() ==> used[#[trigger] order[i] as int],
        0 <= fresh < used.len(),
        !used[fresh as int],
    ensures
        forall|i: int| 0 <= i < order.len() ==> order[i] != fresh,
{
    assert forall|i: int| 0 <= i < order.len() implies order[i] != fresh by {
        assert(used[order[i] as int]);
    }
}

/// Putting a fresh node, now in use, in place of one element keeps the
/// live nodes distinct and in use.
proof fn lemma_replace_keeps_order(used: Seq<bool>, order: Seq<usize>, k: int, fresh: usize)
    requires
        forall|i: int| 0 <= i < order.len() ==> #[trigger] order[i] < used.len(),
        forall|i: int, j: int| 0 <= i < j < order.len() ==> order[i] != order[j],
        forall|i: int| 0 <= i < order.len() ==> used[#[trigger] order[i] as int],
        forall|i: int| 0 <= i < order.len() ==> order[i] != fresh,
        0 <= k < order.len(),
        0 <= fresh < used.len(),
    ensures
        forall|i: int, j: int|
            0 <= i < j < order.len() ==> order.update(k, fresh)[i] != order.update(k, fresh)[j],
        forall|i: int|
            0 <= i < order.len() ==> used.update(fresh as int, true)[#[trigger] order.update(
                k,
                fresh,
            )[i] as int],
{
    let o2 = order.update(k, fresh);
    let u2 = used.update(fresh as int, true);
    assert forall|i: int, j: int| 0 <= i < j < o2.len() implies o2[i] != o2[j] by {
        if i != k && j != k {
            assert(order[i] != order[j]);
        }
    }
    assert forall|i: int| 0 <= i < o2.len() implies u2[#[trigger] o2[i] as int] by {
        if i != k {
            assert(used[order[i] as int]);
        }
    }
}

/// Giving the fresh node the new value and putting it in place of the
/// `k`-th element changes the list's values at that place only.
proof fn lemma_replace_values(
    data: Seq<usize>,
    order: Seq<usize>,
    k: int,
    fresh: usize,
    new_data: usize,
)
    requires
        forall|i: int| 0 <= i < order.len() ==> order[i] != fresh,
        forall|i: int| 0 <= i < order.len() ==> #[trigger] order[i] < data.len(),
        0 <= k < order.len(),
        0 <= fresh < data.len(),
    ensures
        values_of(data.update(fresh as int, new_data), order.update(k, fresh)) == values_of(
            data,
            order,
        ).update(k, new_data),
{
    assert(values_of(data.update(fresh as int, new_data), order.update(k, fresh)) =~= values_of(
        data,
        order,
    ).update(k, new_data));
}

/// The values of the nodes of `order`, in order.
pub open spec fn values_of(data: Seq<usize>, order: Seq<usize>) -> Seq<usize> {
    Seq::new(order.len(), |i: int| data[order[i] as int])
}

impl ListShadow {
    /// The writers' copy of a list of the elements of `data`, in order, with
    /// `spare` free nodes: node 0 is the sentinel, node `i` holds
    /// `data[i - 1]`, following `next` from the sentinel visits nodes 1 to
    /// `data.len()` and returns to it, `prev` walks the same path backwards,
    /// and the nodes after the elements are free.
    pub fn new(data: &Vec<usize>, spare: usize) -> (r: Self)
        requires
            data@.len() + spare + 1 <= usize::MAX,
        ensures
            r.wf((data@.len() + spare + 1) as nat),
            r.order() == Seq::new(data@.len(), |i: int| (i + 1) as usize),
            r.values() == data@,
            links_follow(r.next_links(), r.order()),
            links_back(r.prev_links(), r.order()),
            forall|i: int| data@.len() < i < data@.len() + spare + 1 ==> !r.is_used(i),
    {
        let n = data.len();
        let total = n + spare + 1;
        let ghost order = Seq::new(n as nat, |i: int| (i + 1) as usize);
        let mut next: Vec<usize> = Vec::new();
        let mut prev: Vec<usize> = Vec::new();
        let mut vals: Vec<usize> = Vec::new();
        let mut used: Vec<bool> = Vec::new();
        let mut i: usize = 0;
        while i < total
            invariant
                i <= total,
                n == data@.len(),
                total == n + spare + 1,
                order == Seq::new(n as nat, |j: int| (j + 1) as usize),
                next@.len() == i,
                prev@.len() == i,
                vals@.len() == i,
                used@.len() == i,
                forall|j: int|
                    0 <= j < i ==> #[trigger] next@[j] == if j == 0 {
                        if n == 0 {
                            0usize
                        } else {
                            1usize
                        }
                    } else if j < n {
                        (j + 1) as usize
                    } else {
                        0usize
                    },
                forall|j: int|
                    0 <= j < i ==> #[trigger] prev@[j] == if j == 0 {
                        n
                    } else if j <= n {
                        (j - 1) as usize
                    } else {
                        0usize
                    },
                forall|j: int| 0 <= j < i ==> #[trigger] used@[j] == (j <= n),
                forall|j: int| 1 <= j < i && j <= n ==> #[trigger] vals@[j] == data@[j - 1],
            decreases total - i,
        {
            let (nx, pv, v) = if i == 0 {
                (if n == 0 { 0 } else { 1 }, n, 0)
            } else if i <= n {
                (if i < n { i + 1 } else { 0 }, i - 1, data[i - 1])
            } else {
                (SENTINEL, SENTINEL, 0)
            };
            next.push(nx);
            prev.push(pv);
            vals.push(v);
            used.push(i <= n);
            i = i + 1;
        }
        let shadow = ListShadow { next, prev, data: vals, used, order: Ghost(order) };
        proof {
            assert forall|j: int| 0 <= j < order.len() implies next@[#[trigger] order[j] as int]
                == if j + 1 < order.len() {
                order[j + 1]
            } else {
                0usize
            } by {}
            assert forall|j: int| 0 <= j < order.len() implies prev@[#[trigger] order[j] as int]
                == if j == 0 {
                0usize
            } else {
                order[j - 1]
            } by {}
            assert forall|j: int| 0 <= j < order.len() implies used@[#[trigger] order[j] as int] by {}
            assert(values_of(shadow.data@, order) =~= data@);
        }
        shadow
    }

    /// The live nodes, in list order.
    pub closed spec fn order(&self) -> Seq<usize> {
        self.order@
    }

    /// The successor link of every node.
    pub closed spec fn next_links(&self) -> Seq<usize> {
        self.next@
    }

    /// The predecessor link of every node.
    pub closed spec fn prev_links(&self) -> Seq<usize> {
        self.prev@
    }

    /// Whether node `i` is in use.
    pub closed spec fn is_used(&self, i: int) -> bool {
        self.used@[i]
    }

    /// The list is well formed over `nodes` nodes: following `next` from the
    /// sentinel visits the live elements once each and returns, `prev` walks
    /// the same path backwards, and every live node is in use.
    pub closed spec fn wf(&self, nodes: nat) -> bool {
        shadow_wf(self.next@, self.prev@, self.data@, self.used@, self.order@, nodes)
    }

    /// The live elements' values, in order.
    pub closed spec fn values(&self) -> Seq<usize> {
        values_of(self.data@, self.order@)
    }

    /// Whether some node is free for a replacement.
    pub closed spec fn has_free_node(&self) -> bool {
        exists|i: int| 0 <= i < self.used@.len() && !self.used@[i]
    }
}

/// What the writers' lock guarantees of the copy it holds.
pub struct ListWf {
    pub nodes: nat,
}

impl RwLockPredicate<ListShadow> for ListWf {
    open spec fn inv(self, v: ListShadow) -> bool {
        v.wf(self.nodes)
    }
}

/// The state that every participant of one list shares: the grace-period
/// counters, the nodes that readers follow, and the writers' copy under the
/// writers' lock. Node 0 is the sentinel; the elements follow; the remaining
/// nodes are a pool from which replacements are taken and to which replaced
/// nodes return once no reader can reach them.
pub struct RcuGPShared {
    counters: GpCounters,
    nodes: Vec<LinkedNode>,
    shadow: RwLock<ListShadow, ListWf>,
    initial: Ghost<Seq<usize>>,
    initial_order: Ghost<Seq<usize>>,
    initial_next: Ghost<Seq<usize>>,
    initial_prev: Ghost<Seq<usize>>,
}

impl RcuGPShared {
    /// Number of participant slots.
    pub closed spec fn capacity(&self) -> nat {
        self.counters.capacity()
    }

    /// Number of nodes, sentinel and pool included.
    pub closed spec fn node_count(&self) -> nat {
        self.nodes@.len()
    }

    /// Whether node `i` is the sentinel.
    pub closed spec fn is_head(&self, i: int) -> bool {
        self.nodes@[i].is_head()
    }

    #[verifier::type_invariant]
    closed spec fn inv(&self) -> bool {
        &&& self.nodes@.len() >= 1
        &&& self.nodes@[0].is_head()
        &&& forall|i: int| 1 <= i < self.nodes@.len() ==> !(#[trigger] self.nodes@[i]).is_head()
        &&& self.shadow.pred() == ListWf { nodes: self.nodes@.len() }
    }

    /// A list of the elements of `data`, in order, with `spare` further nodes
    /// for replacements, shared by `count` participant slots. The writers'
    /// copy is `ListShadow::new(data, spare)`, and the nodes that readers
    /// follow start with its links and values.
    pub fn new(count: u32, data: &Vec<usize>, spare: usize) -> (r: Self)
        requires
            data@.len() + spare + 1 <= usize::MAX,
        ensures
            r.capacity() == count,
            r.node_count() == data@.len() + spare + 1,
            r.is_head(0),
            forall|i: int| 1 <= i < r.node_count() ==> !r.is_head(i),
            r.initial_values() == data@,
            r.initial_order() == Seq::new(data@.len(), |i: int| (i + 1) as usize),
            links_follow(r.initial_next(), r.initial_order()),
            links_back(r.initial_prev(), r.initial_order()),
    {
        let total = data.len() + spare + 1;
        let shadow = ListShadow::new(data, spare);
        let ghost order = shadow.order();
        let ghost next = shadow.next_links();
        let ghost prev = shadow.prev_links();
        let mut nodes: Vec<LinkedNode> = Vec::new();
        let mut i: usize = 0;
        while i < total
            invariant
                i <= total,
                total == data@.len() + spare + 1,
                shadow.wf(total as nat),
                nodes@.len() == i,
                forall|j: int| 0 <= j < i ==> (#[trigger] nodes@[j]).is_head() == (j == 0),
            decreases total - i,
        {
            proof {
                reveal_shadow_len(&shadow, total as nat);
            }
            nodes.push(LinkedNode::new(shadow.data[i], shadow.next[i], shadow.prev[i], i == 0));
            i = i + 1;
        }
        RcuGPShared {
            counters: GpCounters::new(count),
            nodes,
            shadow: RwLock::new(shadow, Ghost(ListWf { nodes: total as nat })),
            initial: Ghost(data@),
            initial_order: Ghost(order),
            initial_next: Ghost(next),
            initial_prev: Ghost(prev),
        }
    }

    /// The elements the list was built with, in order.
    pub closed spec fn initial_values(&self) -> Seq<usize> {
        self.initial@
    }

    /// The element nodes the list was built with, in order.
    pub closed spec fn initial_order(&self) -> Seq<usize> {
        self.initial_order@
    }

    /// The successor links the list was built with; the nodes that readers
    /// follow start with them.
    pub closed spec fn initial_next(&self) -> Seq<usize> {
        self.initial_next@
    }

    /// The predecessor links the list was built with.
    pub closed spec fn initial_prev(&self) -> Seq<usize> {
        self.initial_prev@
    }

    /// The node after `i`, or the sentinel where its link leads nowhere.
    fn next_of(&self, i: usize) -> (r: usize)
        requires
            i < self.node_count(),
        ensures
            r < self.node_count(),
    {
        let next = self.nodes[i].next.load(Ordering::Acquire);
        if next < self.nodes.len() {
            next
        } else {
            SENTINEL
        }
    }

    /// Where a reader goes from node `i`: the next element, or `SENTINEL` at
    /// the end of the list.
    fn step_from(&self, i: usize) -> (r: usize)
        requires
            i < self.node_count(),
        ensures
            r < self.node_count(),
            r == SENTINEL || !self.is_head(r as int),
    {
        proof {
            use_type_invariant(self);
        }
        let next = self.next_of(i);
        if self.nodes[next].head {
            SENTINEL
        } else {
            next
        }
    }

    /// The value token of node `i`.
    fn data_of(&self, i: usize) -> usize
        requires
            i < self.node_count(),
    {
        self.nodes[i].data.load(Ordering::Acquire)
    }
}

/// A participant's handle on a shared list.
pub struct RcuList {
    thread_id: usize,
    global_info: Arc<RcuGPShared>,
}

impl RcuList {
    #[verifier::type_invariant]
    closed spec fn inv(&self) -> bool {
        self.thread_id < self.global_info.capacity()
    }

    /// The slot this handle reads through.
    pub closed spec fn slot(&self) -> nat {
        self.thread_id as nat
    }

    /// Number of participant slots of the shared list.
    pub closed spec fn capacity(&self) -> nat {
        self.global_info.capacity()
    }

    /// Number of nodes of the shared list, sentinel and pool included.
    pub closed spec fn node_count(&self) -> nat {
        self.global_info.node_count()
    }

    /// The elements the shared list was built with, in order.
    pub closed spec fn initial_values(&self) -> Seq<usize> {
        self.global_info.initial_values()
    }

    /// The element nodes the shared list was built with, in order.
    pub closed spec fn initial_order(&self) -> Seq<usize> {
        self.global_info.initial_order()
    }

    /// The successor links the shared list was built with.
    pub closed spec fn initial_next(&self) -> Seq<usize> {
        self.global_info.initial_next()
    }

    /// The predecessor links the shared list was built with.
    pub closed spec fn initial_prev(&self) -> Seq<usize> {
        self.global_info.initial_prev()
    }

    /// `num` handles over one list built from `data`, with `spare` nodes for
    /// replacements; the `i`-th handle is bound to slot `i`.
    pub fn gen_list(num: u32, data: &Vec<usize>, spare: usize) -> (r: Vec<RcuList>)
        requires
            data@.len() + spare + 1 <= usize::MAX,
        ensures
            r@.len() == num,
            forall|i: int| 0 <= i < num ==> (#[trigger] r@[i]).slot() == i,
            forall|i: int| 0 <= i < num ==> (#[trigger] r@[i]).capacity() == num,
            forall|i: int|
                0 <= i < num ==> (#[trigger] r@[i]).node_count() == data@.len() + spare + 1,
            forall|i: int| 0 <= i < num ==> (#[trigger] r@[i]).initial_values() == data@,
            forall|i: int|
                0 <= i < num ==> (#[trigger] r@[i]).initial_order() == Seq::new(
                    data@.len(),
                    |j: int| (j + 1) as usize,
                ),
            forall|i: int|
                0 <= i < num ==> links_follow(
                    (#[trigger] r@[i]).initial_next(),
                    r@[i].initial_order(),
                ) && links_back(r@[i].initial_prev(), r@[i].initial_order()),
    {
        let shared = Arc::new(RcuGPShared::new(num, data, spare));
        let mut r: Vec<RcuList> = Vec::new();
        let mut c: u32 = 0;
        while c < num
            invariant
                c <= num,
                shared.capacity() == num,
                shared.node_count() == data@.len() + spare + 1,
                r@.len() == c,
                forall|i: int| 0 <= i < c ==> (#[trigger] r@[i]).slot() == i,
                forall|i: int| 0 <= i < c ==> (#[trigger] r@[i]).capacity() == num,
                forall|i: int|
                    0 <= i < c ==> (#[trigger] r@[i]).node_count() == data@.len() + spare + 1,
                shared.initial_values() == data@,
                shared.initial_order() == Seq::new(data@.len(), |j: int| (j + 1) as usize),
                links_follow(shared.initial_next(), shared.initial_order()),
                links_back(shared.initial_prev(), shared.initial_order()),
                forall|i: int| 0 <= i < c ==> (#[trigger] r@[i]).initial_values() == data@,
                forall|i: int|
                    0 <= i < c ==> (#[trigger] r@[i]).global_info == shared,
            decreases num - c,
        {
            r.push(RcuList { thread_id: c as usize, global_info: share(&shared) });
            c = c + 1;
        }
        r
    }

    /// The slot this handle reads through.
    pub fn thread_id(&self) -> (r: usize)
        ensures
            r == self.slot(),
    {
        self.thread_id
    }

    /// Number of nodes of the shared list, sentinel and pool included.
    pub fn node_len(&self) -> (r: usize)
        ensures
            r == self.node_count(),
    {
        self.global_info.nodes.len()
    }

    /// A read cursor on the first element; `None` where this slot is already
    /// nested as deep as its counter can record.
    pub fn read(&self) -> (r: Option<RcuGpReadGuard<'_>>)
        ensures
            r matches Some(g) ==> g.owner() == *self,
    {
        RcuGpReadGuard::new(self)
    }

    /// A write cursor on the first element. It waits for the writers' lock
    /// and holds it until `reclaim` ends the write: a cursor dropped without
    /// `reclaim` never releases the lock.
    pub fn write(&self) -> (r: RcuGpWriteGuard<'_>)
        ensures
            r.wf(),
            r.owner() == *self,
            r.position() == 0,
            r.retired_values().len() == 0,
            r.grace()@.stage == GraceStage::Flipping,
    {
        proof {
            use_type_invariant(self);
        }
        let shared = &*self.global_info;
        proof {
            use_type_invariant(shared);
        }
        let (shadow, handle) = shared.shadow.acquire_write();
        let node = shadow.next[SENTINEL];
        RcuGpWriteGuard {
            inner_lock: self,
            shadow,
            handle,
            node,
            index: Ghost(0),
            temp: Vec::new(),
            grace: GracePeriod::for_lock_holder(&shared.counters),
        }
    }
}

/// A read cursor: a read-side critical section and the node the cursor is
/// on, `SENTINEL` once it has passed the last element.
pub struct RcuGpReadGuard<'a> {
    inner_lock: &'a RcuList,
    cas_ptr: usize,
}

impl<'a> RcuGpReadGuard<'a> {
    #[verifier::type_invariant]
    closed spec fn inv(&self) -> bool {
        self.cas_ptr < self.inner_lock.node_count()
    }

    /// The handle the cursor reads through.
    pub closed spec fn owner(&self) -> RcuList {
        *self.inner_lock
    }

    /// The node the cursor is on; `SENTINEL` at the end.
    pub closed spec fn position(&self) -> usize {
        self.cas_ptr
    }

    /// Enters a read-side critical section and places the cursor on the first
    /// element; `None`, changing nothing, where this slot is already nested as
    /// deep as its counter can record.
    pub fn new(lock: &'a RcuList) -> (r: Option<Self>)
        ensures
            r matches Some(g) ==> g.owner() == *lock,
    {
        proof {
            use_type_invariant(lock);
            use_type_invariant(&*lock.global_info);
        }
        let shared = &*lock.global_info;
        if !shared.counters.read_lock(lock.thread_id) {
            return None;
        }
        let pos = shared.step_from(SENTINEL);
        Some(RcuGpReadGuard { inner_lock: lock, cas_ptr: pos })
    }

    /// Whether the cursor has passed the last element.
    pub fn is_end(&self) -> (r: bool)
        ensures
            r == (self.position() == SENTINEL),
    {
        self.cas_ptr == SENTINEL
    }

    /// The value token under the cursor; `None` at the end.
    pub fn get_data(&self) -> (r: Option<usize>)
        ensures
            r is None <==> self.position() == SENTINEL,
    {
        proof {
            use_type_invariant(self);
        }
        if self.cas_ptr == SENTINEL {
            None
        } else {
            Some(self.inner_lock.global_info.data_of(self.cas_ptr))
        }
    }

    /// Moves the cursor to the next element, or to the end after the last
    /// one. At the end it stays there.
    pub fn go_next(&mut self)
        ensures
            final(self).owner() == old(self).owner(),
            old(self).position() == SENTINEL ==> final(self).position() == SENTINEL,
    {
        proof {
            use_type_invariant(&*self);
        }
        if self.cas_ptr != SENTINEL {
            let next = self.inner_lock.global_info.step_from(self.cas_ptr);
            self.cas_ptr = next;
        }
    }

    /// Ends the read-side critical section.
    pub fn release(self) {
        proof {
            use_type_invariant(self.inner_lock);
        }
        self.inner_lock.global_info.counters.read_unlock(self.inner_lock.thread_id);
    }
}

/// A write cursor: it holds the writers' lock and their copy of the list,
/// replaces elements under the cursor, and keeps the replaced nodes until its
/// grace period has elapsed. Every write must end with `reclaim`, which
/// releases the lock; dropping the cursor instead leaves the lock held.
pub struct RcuGpWriteGuard<'a> {
    inner_lock: &'a RcuList,
    shadow: ListShadow,
    handle: WriteHandle<'a, ListShadow, ListWf>,
    node: usize,
    index: Ghost<int>,
    temp: Vec<usize>,
    grace: GracePeriod,
}

impl<'a> RcuGpWriteGuard<'a> {
    /// The cursor holds a well-formed copy of the list that it may give back
    /// to the lock, stands on the `position()`-th element (or at the end), and
    /// its retired nodes are in use, off the list and each retired once.
    pub closed spec fn wf(&self) -> bool {
        let nodes = self.inner_lock.node_count();
        let order = self.shadow.order@;
        &&& self.shadow.wf(nodes)
        &&& self.handle.rwlock().pred() == ListWf { nodes }
        &&& 0 <= self.index@ <= order.len()
        &&& self.node == if self.index@ < order.len() {
            order[self.index@]
        } else {
            0usize
        }
        &&& forall|j: int|
            0 <= j < self.temp@.len() ==> {
                &&& 0 < #[trigger] self.temp@[j] < nodes
                &&& self.shadow.used@[self.temp@[j] as int]
                &&& !order.contains(self.temp@[j])
            }
        &&& forall|i: int, j: int| 0 <= i < j < self.temp@.len() ==> self.temp@[i] != self.temp@[j]
    }

    /// The handle the cursor writes through.
    pub closed spec fn owner(&self) -> RcuList {
        *self.inner_lock
    }

    /// The values of the list as this writer sees it, in order.
    pub closed spec fn values(&self) -> Seq<usize> {
        self.shadow.values()
    }

    /// Index of the element under the cursor; `values().len()` at the end.
    pub closed spec fn position(&self) -> int {
        self.index@
    }

    /// The live nodes of the writer's copy, in list order.
    pub closed spec fn order(&self) -> Seq<usize> {
        self.shadow.order@
    }

    /// The successor link of every node in the writer's copy.
    pub closed spec fn next_links(&self) -> Seq<usize> {
        self.shadow.next@
    }

    /// The predecessor link of every node in the writer's copy.
    pub closed spec fn prev_links(&self) -> Seq<usize> {
        self.shadow.prev@
    }

    /// The values of the nodes replaced so far, in order.
    pub closed spec fn retired_values(&self) -> Seq<usize> {
        values_of(self.shadow.data@, self.temp@)
    }

    /// Whether a node is free for a replacement.
    pub closed spec fn has_free_node(&self) -> bool {
        self.shadow.has_free_node()
    }

    /// The grace-period wait that ends the write.
    pub closed spec fn grace(&self) -> GracePeriod {
        self.grace
    }

    /// The value token under the cursor; `None` at the end.
    pub fn get_data(&self) -> (r: Option<usize>)
        requires
            self.wf(),
        ensures
            r == if self.position() < self.values().len() {
                Some(self.values()[self.position()])
            } else {
                None::<usize>
            },
    {
        if self.node == SENTINEL {
            None
        } else {
            Some(self.shadow.data[self.node])
        }
    }

    /// Moves the cursor to the next element, or to the end after the last
    /// one. At the end it stays there.
    pub fn go_next(&mut self)
        requires
            old(self).wf(),
        ensures
            final(self).wf(),
            final(self).owner() == old(self).owner(),
            final(self).values() == old(self).values(),
            final(self).retired_values() == old(self).retired_values(),
            final(self).has_free_node() == old(self).has_free_node(),
            final(self).grace() == old(self).grace(),
            final(self).position() == if old(self).position() < old(self).values().len() {
                old(self).position() + 1
            } else {
                old(self).position()
            },
    {
        if self.node != SENTINEL {
            self.node = self.shadow.next[self.node];
            self.index = Ghost(self.index@ + 1);
        }
    }

    /// A free node of the pool; `None` where every node is in use.
    fn find_free(&self) -> (r: Option<usize>)
        requires
            self.wf(),
        ensures
            r is None <==> !self.has_free_node(),
            r matches Some(i) ==> 0 < i < self.inner_lock.node_count() && !self.shadow.used@[i as int],
    {
        let mut i: usize = 1;
        while i < self.shadow.used.len()
            invariant
                self.wf(),
                1 <= i <= self.shadow.used@.len(),
                forall|j: int| 0 <= j < i ==> self.shadow.used@[j],
            decreases self.shadow.used@.len() - i,
        {
            if !self.shadow.used[i] {
                return Some(i);
            }
            i = i + 1;
        }
        None
    }

    /// Replaces the element under the cursor with `new_data`.
    ///
    /// A free node takes the value and the links of the node under the
    /// cursor; the neighbours are then pointed at it, so that a reader
    /// arriving later sees the new value, while a reader already on the old
    /// node still follows its links, which are left as they were. The old
    /// node joins the retired nodes and the cursor stays at the same place,
    /// now on the new node.
    ///
    /// `new_data` is handed back, nothing changed, at the end of the list,
    /// once the grace-period wait has begun, or where no node is free.
    pub fn replace(&mut self, new_data: usize) -> (r: Result<(), usize>)
        requires
            old(self).wf(),
        ensures
            final(self).wf(),
            final(self).owner() == old(self).owner(),
            final(self).grace() == old(self).grace(),
            final(self).position() == old(self).position(),
            r is Err <==> (old(self).position() == old(self).values().len() || old(self).grace()@.stage
                != GraceStage::Flipping || !old(self).has_free_node()),
            r matches Err(v) ==> {
                &&& v == new_data
                &&& final(self).values() == old(self).values()
                &&& final(self).retired_values() == old(self).retired_values()
            },
            r is Ok ==> {
                let k = old(self).position();
                let old_node = old(self).order()[k];
                let fresh = final(self).order()[k];
                &&& !old(self).order().contains(fresh)
                &&& final(self).order() == old(self).order().update(k, fresh)
                &&& final(self).next_links() == splice_next(old(self).next_links(), old(self).order(), k, fresh)
                &&& final(self).prev_links() == splice_prev(old(self).prev_links(), old(self).order(), k, fresh)
                &&& final(self).next_links()[fresh as int] == old(self).next_links()[old_node as int]
                &&& final(self).prev_links()[fresh as int] == old(self).prev_links()[old_node as int]
                &&& final(self).next_links()[old_node as int] == old(self).next_links()[old_node as int]
                &&& final(self).prev_links()[old_node as int] == old(self).prev_links()[old_node as int]
                &&& final(self).values() == old(self).values().update(old(self).position(), new_data)
                &&& final(self).retired_values() == old(self).retired_values().push(
                    old(self).values()[old(self).position()],
                )
            },
    {
        if self.node == SENTINEL || self.grace.stage() != GraceStage::Flipping {
            return Err(new_data);
        }
        let fresh = match self.find_free() {
            Some(f) => f,
            None => {
                return Err(new_data);
            },
        };
        let ghost k = self.index@;
        let ghost order = self.shadow.order@;
        let ghost next0 = self.shadow.next@;
        let ghost prev0 = self.shadow.prev@;
        let ghost data0 = self.shadow.data@;
        let ghost used0 = self.shadow.used@;
        let ghost temp0 = self.temp@;
        let ghost values0 = self.values();
        let ghost retired0 = self.retired_values();
        let old_node = self.node;
        let succ = self.shadow.next[old_node];
        let pred = self.shadow.prev[old_node];
        proof {
            lemma_splice_keeps_wf(
                next0,
                prev0,
                data0,
                used0,
                order,
                self.inner_lock.node_count(),
                k,
                fresh,
                new_data,
            );
        }
        self.shadow.data.set(fresh, new_data);
        self.shadow.used.set(fresh, true);
        self.shadow.next.set(fresh, succ);
        self.shadow.next.set(pred, fresh);
        self.shadow.prev.set(fresh, pred);
        self.shadow.prev.set(succ, fresh);
        self.shadow.order = Ghost(order.update(k, fresh));
        let nodes = &self.inner_lock.global_info.nodes;
        nodes[fresh].data.store(new_data, Ordering::Relaxed);
        nodes[fresh].next.store(succ, Ordering::Relaxed);
        nodes[fresh].prev.store(pred, Ordering::Relaxed);
        nodes[pred].next.store(fresh, Ordering::Release);
        nodes[succ].prev.store(fresh, Ordering::Release);
        self.temp.push(old_node);
        self.node = fresh;
        proof {
            let order1 = self.shadow.order@;
            assert(self.shadow.next@ == splice_next(next0, order, k, fresh));
            assert(self.shadow.prev@ == splice_prev(prev0, order, k, fresh));
            assert forall|j: int|
                0 <= j < self.temp@.len() implies !order1.contains(#[trigger] self.temp@[j]) by {
                if order1.contains(self.temp@[j]) {
                    let i = choose|i: int| 0 <= i < order1.len() && order1[i] == self.temp@[j];
                    if j < temp0.len() && i != k {
                        assert(order.contains(order[i]));
                    }
                }
            }
            assert(self.retired_values() =~= retired0.push(values0[k]));
        }
        Ok(())
    }

    /// Advances the grace-period wait that ends the write as far as it goes
    /// without blocking; tells whether the grace period has elapsed. No
    /// element can be replaced through this cursor once the wait has begun.
    pub fn poll(&mut self) -> (done: bool)
        requires
            old(self).wf(),
        ensures
            final(self).wf(),
            final(self).owner() == old(self).owner(),
            final(self).values() == old(self).values(),
            final(self).retired_values() == old(self).retired_values(),
            final(self).position() == old(self).position(),
            done == (final(self).grace()@.stage == GraceStage::Finished),
            done ==> grace_elapsed(final(self).grace()@),
    {
        self.grace.step(&self.inner_lock.global_info.counters)
    }

    /// Whether the grace period has elapsed.
    pub fn is_grace_elapsed(&self) -> (r: bool)
        ensures
            r == (self.grace()@.stage == GraceStage::Finished),
            r ==> grace_elapsed(self.grace()@),
    {
        self.grace.is_finished()
    }

    /// Ends the write once its grace period has elapsed: the retired nodes
    /// return to the pool, the writers' lock is released, and the value
    /// tokens the retired nodes held are handed back in the order in which
    /// they were replaced.
    pub fn reclaim(self) -> (r: Vec<usize>)
        requires
            self.wf(),
            self.grace()@.stage == GraceStage::Finished,
        ensures
            r@ == self.retired_values(),
    {
        let ghost nodes = self.inner_lock.node_count();
        let ghost retired = self.retired_values();
        let RcuGpWriteGuard { inner_lock, mut shadow, handle, node, index, temp, grace } = self;
        let ghost data = shadow.data@;
        let mut tokens: Vec<usize> = Vec::new();
        let mut i: usize = 0;
        while i < temp.len()
            invariant
                i <= temp@.len(),
                shadow.wf(nodes),
                shadow.data@ == data,
                retired == values_of(data, temp@),
                tokens@ == retired.take(i as int),
                forall|j: int|
                    0 <= j < temp@.len() ==> {
                        &&& 0 < #[trigger] temp@[j] < nodes
                        &&& !shadow.order@.contains(temp@[j])
                    },
            decreases temp@.len() - i,
        {
            let n = temp[i];
            tokens.push(shadow.data[n]);
            let ghost order = shadow.order@;
            shadow.used.set(n, false);
            proof {
                assert forall|j: int| 0 <= j < order.len() implies shadow.used@[#[trigger] order[j] as int] by {
                    assert(order.contains(order[j]));
                }
                assert(tokens@ =~= retired.take(i as int + 1));
            }
            i = i + 1;
        }
        proof {
            assert(tokens@ =~= retired);
        }
        handle.release_write(shadow);
        tokens
    }
}

/// Following `next` from the sentinel visits the nodes of `order`, in order,
/// and then returns to the sentinel.
pub open spec fn links_follow(next: Seq<usize>, order: Seq<usize>) -> bool {
    &&& next.len() > 0
    &&& forall|i: int| 0 <= i < order.len() ==> 0 < #[trigger] order[i] < next.len()
    &&& next[0] == if order.len() == 0 {
        0usize
    } else {
        order[0]
    }
    &&& forall|i: int|
        0 <= i < order.len() ==> next[#[trigger] order[i] as int] == if i + 1 < order.len() {
            order[i + 1]
        } else {
            0usize
        }
}

/// The successor links after the node `order[k]` is replaced by `fresh`: the
/// fresh node takes the old node's successor, the predecessor is pointed at
/// the fresh node, and the old node's own link is left as it was.
pub open spec fn splice_next(next: Seq<usize>, order: Seq<usize>, k: int, fresh: usize) -> Seq<
    usize,
> {
    let pred = if k == 0 {
        0usize
    } else {
        order[k - 1]
    };
    next.update(fresh as int, next[order[k] as int]).update(pred as int, fresh)
}

/// Replacing one element of the list keeps every traversal whole: from the
/// sentinel the links now visit the same nodes with the fresh one in place of
/// the old, so no neighbour is skipped or visited twice; and a reader still on
/// the old node moves on to the same successor as before, which is the fresh
/// node's successor too.
pub proof fn lemma_replace_keeps_traversal(
    next: Seq<usize>,
    order: Seq<usize>,
    k: int,
    fresh: usize,
)
    requires
        links_follow(next, order),
        forall|i: int, j: int| 0 <= i < j < order.len() ==> order[i] != order[j],
        0 <= k < order.len(),
        0 < fresh < next.len(),
        forall|i: int| 0 <= i < order.len() ==> order[i] != fresh,
    ensures
        links_follow(splice_next(next, order, k, fresh), order.update(k, fresh)),
        splice_next(next, order, k, fresh)[order[k] as int] == next[order[k] as int],
        splice_next(next, order, k, fresh)[fresh as int] == next[order[k] as int],
{
    let n2 = splice_next(next, order, k, fresh);
    let o2 = order.update(k, fresh);
    let pred = if k == 0 {
        0usize
    } else {
        order[k - 1]
    };
    assert(order[k] != pred);
    assert forall|i: int| 0 <= i < o2.len() implies n2[#[trigger] o2[i] as int] == if i + 1
        < o2.len() {
        o2[i + 1]
    } else {
        0usize
    } by {
        if i == k {
            assert(o2[i] == fresh);
            assert(fresh != pred);
        } else if i == k - 1 {
            assert(o2[i] == pred);
        } else {
            assert(o2[i] == order[i]);
            assert(order[i] != pred);
            assert(order[i] != fresh);
        }
    }
}


/// Following `prev` from the sentinel visits the nodes of `order` backwards,
/// and then returns to the sentinel.
pub open spec fn links_back(prev: Seq<usize>, order: Seq<usize>) -> bool {
    &&& prev.len() > 0
    &&& prev[0] == if order.len() == 0 {
        0usize
    } else {
        order.last()
    }
    &&& forall|i: int|
        0 <= i < order.len() ==> prev[#[trigger] order[i] as int] == if i == 0 {
            0usize
        } else {
            order[i - 1]
        }
}

/// The predecessor links after the node `order[k]` is replaced by `fresh`:
/// the fresh node takes the old node's predecessor, the successor is pointed
/// back at the fresh node, and the old node's own link is left as it was.
pub open spec fn splice_prev(prev: Seq<usize>, order: Seq<usize>, k: int, fresh: usize) -> Seq<
    usize,
> {
    let succ = if k + 1 < order.len() {
        order[k + 1]
    } else {
        0usize
    };
    prev.update(fresh as int, prev[order[k] as int]).update(succ as int, fresh)
}

/// Replacing one element keeps the backward links whole as well.
pub proof fn lemma_replace_keeps_back_links(
    prev: Seq<usize>,
    next: Seq<usize>,
    order: Seq<usize>,
    k: int,
    fresh: usize,
)
    requires
        links_back(prev, order),
        links_follow(next, order),
        prev.len() == next.len(),
        forall|i: int, j: int| 0 <= i < j < order.len() ==> order[i] != order[j],
        0 <= k < order.len(),
        0 < fresh < next.len(),
        forall|i: int| 0 <= i < order.len() ==> order[i] != fresh,
    ensures
        links_back(splice_prev(prev, order, k, fresh), order.update(k, fresh)),
        splice_prev(prev, order, k, fresh)[order[k] as int] == prev[order[k] as int],
        splice_prev(prev, order, k, fresh)[fresh as int] == prev[order[k] as int],
{
    let p2 = splice_prev(prev, order, k, fresh);
    let o2 = order.update(k, fresh);
    let succ = if k + 1 < order.len() {
        order[k + 1]
    } else {
        0usize
    };
    assert(order[k] != succ);
    if k + 1 == order.len() {
        assert(p2[0] == fresh);
        assert(o2.last() == fresh);
    } else {
        assert(succ != 0);
        assert(p2[0] == prev[0]);
        assert(o2.last() == order.last());
    }
    assert forall|i: int| 0 <= i < o2.len() implies p2[#[trigger] o2[i] as int] == if i == 0 {
        0usize
    } else {
        o2[i - 1]
    } by {
        if i == k {
            assert(o2[i] == fresh);
            assert(fresh != succ);
        } else if i == k + 1 {
            assert(o2[i] == succ);
        } else {
            assert(o2[i] == order[i]);
            assert(order[i] != succ);
            assert(order[i] != fresh);
        }
    }
}

} // verus!

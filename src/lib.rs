//! Read-copy-update synchronisation: readers take snapshots of shared data
//! without locking while writers publish new versions and reclaim old ones
//! only after a grace period.
//!
//! Three engines share the same publish and retire contract: a phase-counter
//! engine with nested read-side sections and compare-and-publish (`rcu_gp`),
//! a quiescent-state engine whose readers write nothing (`rcu_qsbr`), and a
//! list whose elements are replaced one node at a time (`rcu_list`).
//! Published values are tokens that the caller maps to its data; waits for a
//! grace period advance without blocking and report when they are done.

pub mod grace;
pub mod memory;
pub mod phase;
pub mod rcu_gp;
pub mod rcu_list;
pub mod rcu_qsbr;

//! The connection pool: at most one live connection per peer identity.
//!
//! Every connection that enters the pool gets the next generation number and
//! a handle that names its identity and that generation. A handle removes
//! only the entry it was issued for: once a newer connection stands under the
//! same identity, the old handle does nothing. Dials are deduplicated: while
//! one caller dials an identity, the others are told to wait for its result.

use vstd::prelude::*;
use std::collections::{HashMap, HashSet};
use crate::address::SocketAddress;

verus! {

broadcast use vstd::std_specs::hash::group_hash_axioms;

/// Names one entry of the pool: the identity it stands under and the
/// generation it was given.
#[derive(Debug, Clone, Copy, PartialEq, Eq)]
pub struct RemoveHandle {
    pub identity: u64,
    pub generation: u64,
}

/// A pooled connection.
pub struct PoolEntry<C> {
    pub connection: C,
    pub address: SocketAddress,
    pub generation: u64,
}

/// What a caller that wants a connection to an identity has to do.
#[derive(Debug, Clone, Copy, PartialEq, Eq)]
pub enum DialDecision {
    /// A connection is pooled: use it, under this handle.
    Reuse(RemoveHandle),
    /// Somebody else is dialing: wait for the result and ask again.
    Wait,
    /// Dial, and report the result with `finish_dial`.
    Dial,
}

/// The pool after `handle` was used on it: the entry under the handle's
/// identity leaves if and only if it has the handle's generation.
pub open spec fn spec_remove<C>(pool: Map<u64, PoolEntry<C>>, handle: RemoveHandle) -> Map<
    u64,
    PoolEntry<C>,
> {
    if pool.contains_key(handle.identity) && pool[handle.identity].generation
        == handle.generation {
        pool.remove(handle.identity)
    } else {
        pool
    }
}

/// Whether the entry that `handle` was issued for is in the pool.
pub open spec fn spec_is_live<C>(pool: Map<u64, PoolEntry<C>>, handle: RemoveHandle) -> bool {
    pool.contains_key(handle.identity) && pool[handle.identity].generation == handle.generation
}

/// The pooled connections of one endpoint, and the identities being dialed.
pub struct ConnectionPool<C> {
    entries: HashMap<u64, PoolEntry<C>>,
    dialing: HashSet<u64>,
    next_generation: u64,
}

impl<C> ConnectionPool<C> {
    /// The pooled connections, by identity.
    pub closed spec fn view(&self) -> Map<u64, PoolEntry<C>> {
        self.entries@
    }

    /// The identities that somebody is dialing.
    pub closed spec fn dialing(&self) -> Set<u64> {
        self.dialing@
    }

    /// The number of generations given out so far, which is the generation
    /// that the next connection gets.
    pub closed spec fn issued(&self) -> nat {
        self.next_generation as nat
    }

    /// Every pooled connection has a generation that was given out.
    pub open spec fn wf(&self) -> bool {
        forall|identity: u64| #[trigger]
            self@.contains_key(identity) ==> self@[identity].generation < self.issued()
    }

    /// Whether `handle` was issued by this pool and its entry is gone. Such a
    /// handle stays dead whatever happens to the pool later.
    pub open spec fn is_dead(&self, handle: RemoveHandle) -> bool {
        handle.generation < self.issued() && !spec_is_live(self@, handle)
    }

    /// An empty pool.
    pub fn new() -> (pool: Self)
        ensures
            pool.wf(),
            pool@ == Map::<u64, PoolEntry<C>>::empty(),
            pool.dialing() == Set::<u64>::empty(),
            pool.issued() == 0,
    {
        ConnectionPool { entries: HashMap::new(), dialing: HashSet::new(), next_generation: 0 }
    }

    /// The number of pooled connections.
    pub fn len(&self) -> (n: usize)
        ensures
            n == self@.len(),
    {
        self.entries.len()
    }

    /// Whether the pool can take another connection: a generation is left.
    pub fn can_insert(&self) -> (b: bool)
        ensures
            b == (self.issued() < u64::MAX),
    {
        self.next_generation < u64::MAX
    }

    /// Whether a connection is pooled under `identity`.
    pub fn has(&self, identity: u64) -> (b: bool)
        ensures
            b == self@.contains_key(identity),
    {
        self.entries.contains_key(&identity)
    }

    /// The connection pooled under `identity`, with the handle that removes
    /// it.
    pub fn get(&self, identity: u64) -> (found: Option<(&C, RemoveHandle)>)
        ensures
            match found {
                Some((connection, handle)) => self@.contains_key(identity) && *connection
                    == self@[identity].connection && handle == (RemoveHandle {
                    identity,
                    generation: self@[identity].generation,
                }),
                None => !self@.contains_key(identity),
            },
    {
        match self.entries.get(&identity) {
            Some(entry) => Some(
                (&entry.connection, RemoveHandle { identity, generation: entry.generation }),
            ),
            None => None,
        }
    }

    /// Whether the entry that `handle` was issued for is still pooled.
    pub fn is_live(&self, handle: &RemoveHandle) -> (b: bool)
        ensures
            b == spec_is_live(self@, *handle),
    {
        match self.entries.get(&handle.identity) {
            Some(entry) => entry.generation == handle.generation,
            None => false,
        }
    }

    /// Puts `connection` in the pool under `identity`, in place of whatever
    /// stood there, with a generation that no earlier connection had.
    pub fn insert(&mut self, identity: u64, address: SocketAddress, connection: C) -> (handle:
        RemoveHandle)
        requires
            old(self).wf(),
            old(self).issued() < u64::MAX,
        ensures
            final(self).wf(),
            handle == (RemoveHandle { identity, generation: old(self).issued() as u64 }),
            final(self)@ == old(self)@.insert(
                identity,
                PoolEntry { connection, address, generation: old(self).issued() as u64 },
            ),
            final(self).issued() == old(self).issued() + 1,
            final(self).dialing() == old(self).dialing(),
            spec_is_live(final(self)@, handle),
            forall|h: RemoveHandle| old(self).is_dead(h) ==> final(self).is_dead(h),
    {
        let generation: u64 = self.next_generation;
        self.next_generation = generation + 1;
        let _ = self.entries.insert(identity, PoolEntry { connection, address, generation });
        RemoveHandle { identity, generation }
    }

    /// Evicts the entry that `handle` was issued for, if it is still pooled.
    ///
    /// Tells whether an entry left. A connection that entered under the same
    /// identity later is not touched, and a second call does nothing.
    pub fn remove(&mut self, handle: &RemoveHandle) -> (evicted: bool)
        requires
            old(self).wf(),
        ensures
            final(self).wf(),
            final(self)@ == spec_remove(old(self)@, *handle),
            evicted == spec_is_live(old(self)@, *handle),
            !spec_is_live(final(self)@, *handle),
            final(self).issued() == old(self).issued(),
            final(self).dialing() == old(self).dialing(),
            forall|h: RemoveHandle| old(self).is_dead(h) ==> final(self).is_dead(h),
    {
        if self.is_live(handle) {
            let _ = self.entries.remove(&handle.identity);
            true
        } else {
            false
        }
    }

    /// Evicts the entry of `handle` where an operation on its connection
    /// failed, so that the next caller dials anew.
    pub fn evict_on_error<T, E>(&mut self, handle: &RemoveHandle, result: &Result<T, E>) -> (evicted:
        bool)
        requires
            old(self).wf(),
        ensures
            final(self).wf(),
            final(self)@ == (if result.is_err() {
                spec_remove(old(self)@, *handle)
            } else {
                old(self)@
            }),
            result.is_err() ==> !spec_is_live(final(self)@, *handle),
            evicted == (result.is_err() && spec_is_live(old(self)@, *handle)),
            final(self).issued() == old(self).issued(),
            final(self).dialing() == old(self).dialing(),
            forall|h: RemoveHandle| old(self).is_dead(h) ==> final(self).is_dead(h),
    {
        if result.is_err() {
            self.remove(handle)
        } else {
            false
        }
    }

    /// Decides how a caller gets a connection to `identity`: a pooled one is
    /// reused; otherwise the caller waits where somebody is dialing already,
    /// and where nobody is it becomes the one that dials.
    pub fn begin_dial(&mut self, identity: u64) -> (decision: DialDecision)
        requires
            old(self).wf(),
        ensures
            final(self).wf(),
            final(self)@ == old(self)@,
            final(self).issued() == old(self).issued(),
            decision == (if old(self)@.contains_key(identity) {
                DialDecision::Reuse(
                    RemoveHandle { identity, generation: old(self)@[identity].generation },
                )
            } else if old(self).dialing().contains(identity) {
                DialDecision::Wait
            } else {
                DialDecision::Dial
            }),
            final(self).dialing() == (if decision == DialDecision::Dial {
                old(self).dialing().insert(identity)
            } else {
                old(self).dialing()
            }),
    {
        match self.get(identity) {
            Some((_, handle)) => DialDecision::Reuse(handle),
            None => {
                if self.dialing.contains(&identity) {
                    DialDecision::Wait
                } else {
                    let _ = self.dialing.insert(identity);
                    DialDecision::Dial
                }
            },
        }
    }

    /// Takes the result of the dial that `begin_dial` asked for: the
    /// identity is no longer being dialed, and a connection that was
    /// established enters the pool.
    pub fn finish_dial(&mut self, identity: u64, address: SocketAddress, dialed: Option<C>) -> (handle:
        Option<RemoveHandle>)
        requires
            old(self).wf(),
            old(self).issued() < u64::MAX,
        ensures
            final(self).wf(),
            final(self).dialing() == old(self).dialing().remove(identity),
            match dialed {
                Some(connection) => {
                    &&& handle == Some(
                        RemoveHandle { identity, generation: old(self).issued() as u64 },
                    )
                    &&& final(self)@ == old(self)@.insert(
                        identity,
                        PoolEntry { connection, address, generation: old(self).issued() as u64 },
                    )
                    &&& final(self).issued() == old(self).issued() + 1
                },
                None => {
                    &&& handle.is_none()
                    &&& final(self)@ == old(self)@
                    &&& final(self).issued() == old(self).issued()
                },
            },
            forall|h: RemoveHandle| old(self).is_dead(h) ==> final(self).is_dead(h),
    {
        let _ = self.dialing.remove(&identity);
        match dialed {
            Some(connection) => Some(self.insert(identity, address, connection)),
            None => None,
        }
    }
}

/// At any instant the pool holds at most one entry per identity: two live
/// handles for the same identity are the same handle.
pub proof fn lemma_one_entry_per_identity<C>(
    pool: Map<u64, PoolEntry<C>>,
    a: RemoveHandle,
    b: RemoveHandle,
)
    requires
        spec_is_live(pool, a),
        spec_is_live(pool, b),
        a.identity == b.identity,
    ensures
        a == b,
{
}

/// Removal is idempotent: using a handle a second time changes nothing.
pub proof fn lemma_remove_idempotent<C>(pool: Map<u64, PoolEntry<C>>, handle: RemoveHandle)
    ensures
        spec_remove(spec_remove(pool, handle), handle) == spec_remove(pool, handle),
{
}

/// Removal never evicts a newer entry of the same identity: where the pooled
/// connection has another generation than the handle, the pool stays as it
/// is.
pub proof fn lemma_remove_spares_newer<C>(pool: Map<u64, PoolEntry<C>>, handle: RemoveHandle)
    requires
        pool.contains_key(handle.identity),
        pool[handle.identity].generation != handle.generation,
    ensures
        spec_remove(pool, handle) == pool,
        pool.contains_key(handle.identity),
{
}

} // verus!

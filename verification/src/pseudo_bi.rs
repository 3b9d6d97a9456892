//! The pseudo-bidirectional handshake: two unidirectional streams, one in
//! each direction, paired by a random token.
//!
//! The side that opens the pair registers a delivery slot under a fresh
//! token and announces the token on its outbound stream. The acceptor echoes
//! the token on a stream back; when that stream arrives, the slot registered
//! under the token is taken out of the table and the stream handed to it.

use vstd::prelude::*;
use crate::error::{ConnectionError, SendError};
use crate::wire_msg::WireMsg;
use rand::Rng;

verus! {

/// One waiter: the token it announced and the slot its stream goes to.
pub struct PendingEntry<S> {
    pub token: [u8; 32],
    pub slot: S,
}

/// The pseudo-bidirectional streams of one connection whose response is
/// still awaited: a map from token to delivery slot.
pub struct PendingTable<S> {
    entries: Vec<PendingEntry<S>>,
    model: Ghost<Map<Seq<u8>, S>>,
}

/// Whether two tokens hold the same bytes.
pub fn same_token(a: &[u8; 32], b: &[u8; 32]) -> (same: bool)
    ensures
        same == (a@ == b@),
{
    let mut i: usize = 0;
    while i < 32
        invariant
            i <= 32,
            forall|j: int| 0 <= j < i ==> a@[j] == b@[j],
        decreases 32 - i,
    {
        if a[i] != b[i] {
            return false;
        }
        i = i + 1;
    }
    assert(a@ =~= b@);
    true
}

/// Draws a token from `rand`'s thread-local generator (`rand::thread_rng`,
/// `Rng::gen`). Nothing is claimed of the bytes: they are random.
#[verifier::external_body]
fn random_token() -> (token: [u8; 32]) {
    rand::thread_rng().gen::<[u8; 32]>()
}

/// The announcement that the opener writes on its outbound stream.
pub fn open_request(token: [u8; 32]) -> (msg: WireMsg)
    ensures
        msg == WireMsg::EndpointPseudoBiStreamReq(token),
{
    WireMsg::EndpointPseudoBiStreamReq(token)
}

/// The echo that the acceptor writes on the stream back.
pub fn open_response(token: [u8; 32]) -> (msg: WireMsg)
    ensures
        msg == WireMsg::EndpointPseudoBiStreamResp(token),
{
    WireMsg::EndpointPseudoBiStreamResp(token)
}

impl<S> PendingTable<S> {
    /// The table as a map from token bytes to slot.
    pub closed spec fn view(&self) -> Map<Seq<u8>, S> {
        self.model@
    }

    /// The entries are exactly the pairs of the map, each token once.
    pub closed spec fn wf(&self) -> bool {
        &&& forall|i: int|
            0 <= i < self.entries@.len() ==> self.model@.contains_key(
                (#[trigger] self.entries@[i]).token@,
            ) && self.model@[self.entries@[i].token@] == self.entries@[i].slot
        &&& forall|t: Seq<u8>| #[trigger]
            self.model@.contains_key(t) ==> exists|i: int|
                0 <= i < self.entries@.len() && (#[trigger] self.entries@[i]).token@ == t
        &&& forall|i: int, j: int|
            0 <= i < j < self.entries@.len() ==> (#[trigger] self.entries@[i]).token@ != (
            #[trigger] self.entries@[j]).token@
    }

    /// A table with nobody waiting.
    pub fn new() -> (table: Self)
        ensures
            table.wf(),
            table@ == Map::<Seq<u8>, S>::empty(),
    {
        PendingTable { entries: Vec::new(), model: Ghost(Map::empty()) }
    }

    /// The number of waiters.
    pub fn len(&self) -> (n: usize)
        requires
            self.wf(),
        ensures
            n == self@.len(),
            self@.dom().finite(),
    {
        proof {
            self.lemma_len();
        }
        self.entries.len()
    }

    proof fn lemma_len(&self)
        requires
            self.wf(),
        ensures
            self@.dom().finite(),
            self@.len() == self.entries@.len(),
    {
        let tokens = self.entries@.map_values(|e: PendingEntry<S>| e.token@);
        assert(tokens.no_duplicates());
        tokens.unique_seq_to_set();
        assert(tokens.to_set() =~= self.model@.dom()) by {
            assert forall|t: Seq<u8>| self.model@.dom().contains(t) implies tokens.to_set().contains(
                t,
            ) by {
                let i = choose|i: int|
                    0 <= i < self.entries@.len() && (#[trigger] self.entries@[i]).token@ == t;
                assert(tokens[i] == t);
            }
            assert forall|t: Seq<u8>| tokens.to_set().contains(t) implies self.model@.dom().contains(
                t,
            ) by {
                let i = choose|i: int| 0 <= i < tokens.len() && tokens[i] == t;
                assert(self.entries@[i].token@ == t);
            }
        }
    }

    fn find(&self, token: &[u8; 32]) -> (found: Option<usize>)
        requires
            self.wf(),
        ensures
            match found {
                Some(i) => i < self.entries@.len() && self.entries@[i as int].token@ == token@
                    && self@.contains_key(token@),
                None => !self@.contains_key(token@),
            },
    {
        let n: usize = self.entries.len();
        let mut i: usize = 0;
        while i < n
            invariant
                self.wf(),
                i <= n == self.entries@.len(),
                forall|j: int| 0 <= j < i ==> (#[trigger] self.entries@[j]).token@ != token@,
            decreases n - i,
        {
            if same_token(&self.entries[i].token, token) {
                assert(self.model@.contains_key(self.entries@[i as int].token@));
                return Some(i);
            }
            i = i + 1;
        }
        None
    }

    /// Whether somebody waits under `token`.
    pub fn contains(&self, token: &[u8; 32]) -> (b: bool)
        requires
            self.wf(),
        ensures
            b == self@.contains_key(token@),
    {
        self.find(token).is_some()
    }

    /// Takes the slot registered under `token` out of the table.
    ///
    /// `None`, and no change, where nobody waits under it: a response that
    /// comes late, or twice, is dropped.
    pub fn fulfil(&mut self, token: &[u8; 32]) -> (slot: Option<S>)
        requires
            old(self).wf(),
        ensures
            final(self).wf(),
            final(self)@ == old(self)@.remove(token@),
            slot == (if old(self)@.contains_key(token@) {
                Some(old(self)@[token@])
            } else {
                None
            }),
    {
        match self.find(token) {
            None => {
                assert(self@ =~= old(self)@.remove(token@));
                None
            },
            Some(i) => {
                let ghost before = self.entries@;
                let entry = self.entries.swap_remove(i);
                self.model = Ghost(self.model@.remove(token@));
                proof {
                    let after = self.entries@;
                    let last = before.len() - 1;
                    assert forall|t: Seq<u8>| #[trigger]
                        self.model@.contains_key(t) implies exists|k: int|
                        0 <= k < after.len() && (#[trigger] after[k]).token@ == t by {
                        let k0 = choose|k: int|
                            0 <= k < before.len() && (#[trigger] before[k]).token@ == t;
                        if k0 == last {
                            assert(after[i as int].token@ == t);
                        } else {
                            assert(after[k0].token@ == t);
                        }
                    }
                    assert forall|a: int, b: int| 0 <= a < b < after.len() implies (
                    #[trigger] after[a]).token@ != (#[trigger] after[b]).token@ by {
                        let a0 = if a == i { last } else { a };
                        let b0 = if b == i { last } else { b };
                        assert(before[a0] == after[a] && before[b0] == after[b]);
                    }
                    assert forall|k: int| 0 <= k < after.len() implies self.model@.contains_key(
                        (#[trigger] after[k]).token@,
                    ) && self.model@[after[k].token@] == after[k].slot by {
                        let k0 = if k == i { last } else { k };
                        assert(before[k0] == after[k]);
                    }
                }
                Some(entry.slot)
            },
        }
    }

    /// Registers `slot` under `token`.
    ///
    /// Gives back the slot that waited under the same token before, if there
    /// was one: it is replaced.
    pub fn insert(&mut self, token: [u8; 32], slot: S) -> (previous: Option<S>)
        requires
            old(self).wf(),
        ensures
            final(self).wf(),
            final(self)@ == old(self)@.insert(token@, slot),
            previous == (if old(self)@.contains_key(token@) {
                Some(old(self)@[token@])
            } else {
                None
            }),
    {
        let previous = self.fulfil(&token);
        let ghost before = self.entries@;
        let ghost removed = self.model@;
        self.entries.push(PendingEntry { token, slot });
        self.model = Ghost(self.model@.insert(token@, slot));
        proof {
            let after = self.entries@;
            assert(self@ =~= old(self)@.insert(token@, slot));
            assert forall|t: Seq<u8>| #[trigger]
                self.model@.contains_key(t) implies exists|k: int|
                0 <= k < after.len() && (#[trigger] after[k]).token@ == t by {
                if t == token@ {
                    assert(after[before.len() as int].token@ == t);
                } else {
                    assert(removed.contains_key(t));
                    let k0 = choose|k: int|
                        0 <= k < before.len() && (#[trigger] before[k]).token@ == t;
                    assert(after[k0].token@ == t);
                }
            }
            assert forall|a: int, b: int| 0 <= a < b < after.len() implies (
            #[trigger] after[a]).token@ != (#[trigger] after[b]).token@ by {
                assert(after[a] == before[a]);
                if b < before.len() {
                    assert(after[b] == before[b]);
                }
            }
            assert forall|k: int| 0 <= k < after.len() implies self.model@.contains_key(
                (#[trigger] after[k]).token@,
            ) && self.model@[after[k].token@] == after[k].slot by {
                if k < before.len() {
                    assert(after[k] == before[k]);
                }
            }
        }
        previous
    }

    /// Starts a handshake: registers `slot` under a fresh random token and
    /// gives the token, which the caller announces with `open_request`.
    pub fn open(&mut self, slot: S) -> (token: [u8; 32])
        requires
            old(self).wf(),
        ensures
            final(self).wf(),
            final(self)@ == old(self)@.insert(token@, slot),
            final(self)@.contains_key(token@),
    {
        let token = random_token();
        let _ = self.insert(token, slot);
        token
    }

    /// Ends the handshake that was opened under `token`.
    ///
    /// `sent` tells whether the announcement went out, `received` is the
    /// stream that was handed to the slot, if one was. The handshake succeeds
    /// with that stream where the announcement went out and a stream came;
    /// otherwise it fails as stopped. Either way nobody waits under the
    /// token afterwards.
    pub fn resolve<R>(
        &mut self,
        token: &[u8; 32],
        sent: &Result<(), SendError>,
        received: Option<R>,
    ) -> (r: Result<R, ConnectionError>)
        requires
            old(self).wf(),
        ensures
            final(self).wf(),
            final(self)@ == old(self)@.remove(token@),
            !final(self)@.contains_key(token@),
            r == (match received {
                Some(stream) if sent.is_ok() => Ok(stream),
                _ => Err(ConnectionError::Stopped),
            }),
    {
        let _ = self.fulfil(token);
        match received {
            Some(stream) => {
                if sent.is_ok() {
                    Ok(stream)
                } else {
                    Err(ConnectionError::Stopped)
                }
            },
            None => Err(ConnectionError::Stopped),
        }
    }

    /// Takes every slot out of the table, as when the connection ends: the
    /// table is left empty, and what comes back are the slots that were in
    /// it, each waiter's once.
    pub fn drain(&mut self) -> (slots: Vec<S>)
        requires
            old(self).wf(),
        ensures
            final(self).wf(),
            final(self)@ == Map::<Seq<u8>, S>::empty(),
            slots@.len() == old(self)@.len(),
            forall|i: int|
                0 <= i < slots@.len() ==> old(self)@.values().contains(#[trigger] slots@[i]),
            forall|t: Seq<u8>| #[trigger]
                old(self)@.contains_key(t) ==> slots@.contains(old(self)@[t]),
    {
        proof {
            self.lemma_len();
        }
        let ghost before = self.entries@;
        let mut slots: Vec<S> = Vec::new();
        while self.entries.len() > 0
            invariant
                slots@.len() + self.entries@.len() == before.len(),
                forall|k: int|
                    0 <= k < self.entries@.len() ==> (#[trigger] self.entries@[k]) == before[k],
                forall|i: int|
                    0 <= i < slots@.len() ==> old(self)@.values().contains(#[trigger] slots@[i]),
                forall|k: int|
                    self.entries@.len() <= k < before.len() ==> slots@.contains(
                        (#[trigger] before[k]).slot,
                    ),
                before == old(self).entries@,
                old(self).wf(),
            decreases self.entries@.len(),
        {
            let ghost k = self.entries@.len() - 1;
            let ghost taken = slots@;
            let entry = self.entries.pop().unwrap();
            proof {
                assert(entry == before[k]);
                assert(old(self)@.contains_key(before[k].token@));
                assert(old(self)@[before[k].token@] == entry.slot);
            }
            slots.push(entry.slot);
            proof {
                assert(slots@[taken.len() as int] == before[k].slot);
                assert forall|j: int| k <= j < before.len() implies slots@.contains(
                    (#[trigger] before[j]).slot,
                ) by {
                    if j > k {
                        let i = choose|i: int| 0 <= i < taken.len() && taken[i] == before[j].slot;
                        assert(slots@[i] == before[j].slot);
                    }
                }
            }
        }
        proof {
            assert forall|t: Seq<u8>| #[trigger] old(self)@.contains_key(t) implies slots@.contains(
                old(self)@[t],
            ) by {
                let k = choose|k: int| 0 <= k < before.len() && (#[trigger] before[k]).token@ == t;
                assert(slots@.contains(before[k].slot));
            }
        }
        self.model = Ghost(Map::empty());
        slots
    }
}

} // verus!

//! The broadcast hub: fans each connected client's messages out to every
//! other connected client.
//!
//! The hub holds the registry of connected clients — an identifier and a
//! per-client outbound queue each — and nothing else: no persistence, no
//! history, no re-authentication (a client is admitted only after its
//! session was verified, which is the caller's responsibility at the
//! transport boundary). Identifiers grow monotonically and are never
//! reused. Each client's outbound queue is its own and bounded: a slow
//! receiver whose queue is full simply misses further messages — dropped,
//! never blocking the sender or any other receiver — and the socket
//! plumbing around the hub drains each queue independently, discarding
//! what a closed connection left behind.

use vstd::prelude::*;

verus! {

/// How many undelivered messages one client's outbound queue holds at
/// most before further broadcasts to it are dropped.
pub const DEFAULT_QUEUE_CAPACITY: usize = 32;

/// A connected client: its process-local identifier and the messages
/// queued for delivery to it, oldest first.
pub struct HubClient {
    pub id: u64,
    pub queue: Vec<String>,
}

/// Client identifiers are pairwise distinct.
pub open spec fn clients_unique(clients: Seq<HubClient>) -> bool {
    forall|i: int, j: int| #![trigger clients[i].id, clients[j].id]
        0 <= i < j < clients.len() ==> clients[i].id != clients[j].id
}

/// Every client identifier is below the next to be handed out.
pub open spec fn clients_bounded(clients: Seq<HubClient>, next_id: u64) -> bool {
    forall|i: int| #![auto] 0 <= i < clients.len() ==> clients[i].id < next_id
}

/// No client's outbound queue exceeds the hub's per-client capacity.
pub open spec fn queues_bounded(clients: Seq<HubClient>, capacity: usize) -> bool {
    forall|i: int| #![auto] 0 <= i < clients.len() ==> clients[i].queue@.len() <= capacity
}

/// Some connected client carries this identifier.
pub open spec fn has_client(clients: Seq<HubClient>, id: u64) -> bool {
    exists|i: int| 0 <= i < clients.len() && #[trigger] clients[i].id == id
}

/// `nq` is `q` with exactly one copy of the message `m` appended: how a
/// broadcast extends each receiver's queue, preserving the order of what
/// was already queued.
pub open spec fn queue_extended(q: Seq<String>, nq: Seq<String>, m: Seq<char>) -> bool {
    &&& nq.len() == q.len() + 1
    &&& nq.subrange(0, q.len() as int) == q
    &&& nq.last()@ == m
}

/// The client registry, the next identifier to hand out, and the
/// per-client queue bound.
pub struct Hub {
    pub clients: Vec<HubClient>,
    pub next_id: u64,
    pub queue_capacity: usize,
}

impl Hub {
    /// Distinct identifiers, all below the next to be handed out, and
    /// every queue within the per-client capacity.
    pub open spec fn wf(&self) -> bool {
        &&& clients_unique(self.clients@)
        &&& clients_bounded(self.clients@, self.next_id)
        &&& queues_bounded(self.clients@, self.queue_capacity)
    }

    /// An empty hub with the default per-client queue capacity;
    /// identifiers start at 1.
    pub fn new() -> (r: Hub)
        ensures
            r.wf(),
            r.clients@ == Seq::<HubClient>::empty(),
            r.next_id == 1,
            r.queue_capacity == DEFAULT_QUEUE_CAPACITY,
    {
        Hub { clients: Vec::new(), next_id: 1, queue_capacity: DEFAULT_QUEUE_CAPACITY }
    }

    /// An empty hub with the given per-client queue capacity.
    pub fn with_capacity(queue_capacity: usize) -> (r: Hub)
        ensures
            r.wf(),
            r.clients@ == Seq::<HubClient>::empty(),
            r.next_id == 1,
            r.queue_capacity == queue_capacity,
    {
        Hub { clients: Vec::new(), next_id: 1, queue_capacity }
    }

    /// Admit a client: allocate the next identifier — fresh, since every
    /// identifier ever handed out stays below the counter and the counter
    /// only grows, so a reconnecting client never reuses a freed one —
    /// and register an empty outbound queue for it.
    pub fn connect(&mut self) -> (r: u64)
        requires
            old(self).wf(),
            old(self).next_id < u64::MAX,
        ensures
            final(self).wf(),
            r == old(self).next_id,
            forall|j: int| #![auto] 0 <= j < old(self).clients@.len() ==> old(self).clients@[j].id != r,
            final(self).clients@.len() == old(self).clients@.len() + 1,
            final(self).clients@.subrange(0, old(self).clients@.len() as int) == old(self).clients@,
            final(self).clients@.last().id == r,
            final(self).clients@.last().queue@ == Seq::<String>::empty(),
            final(self).next_id == old(self).next_id + 1,
            final(self).queue_capacity == old(self).queue_capacity,
    {
        let id = self.next_id;
        self.clients.push(HubClient { id, queue: Vec::new() });
        self.next_id = id + 1;
        proof {
            assert(self.clients@.subrange(0, old(self).clients@.len() as int) =~= old(self).clients@);
        }
        id
    }

    /// Remove a client from the fan-out set. Its identifier no longer
    /// names any registry entry (so it takes no further deliveries, and
    /// what was still queued for it is dropped with it); every other
    /// client's entry — identifier and queue alike — is exactly
    /// preserved. Disconnecting an unknown identifier is a no-op.
    pub fn disconnect(&mut self, id: u64)
        requires
            old(self).wf(),
        ensures
            final(self).wf(),
            final(self).next_id == old(self).next_id,
            final(self).queue_capacity == old(self).queue_capacity,
            !has_client(final(self).clients@, id),
            forall|j: int| #![auto]
                0 <= j < final(self).clients@.len() ==> old(self).clients@.contains(
                    final(self).clients@[j],
                ),
            forall|j: int| #![auto]
                0 <= j < old(self).clients@.len() && old(self).clients@[j].id != id ==> final(self).clients@.contains(old(self).clients@[j]),
    {
        let ghost pre = self.clients@;
        let n = self.clients.len();
        let mut i: usize = 0;
        while i < n
            invariant
                n == self.clients@.len(),
                0 <= i <= n,
                self.clients@ == pre,
                pre == old(self).clients@,
                old(self).wf(),
                self.next_id == old(self).next_id,
                self.queue_capacity == old(self).queue_capacity,
                forall|j: int| #![auto] 0 <= j < i ==> self.clients@[j].id != id,
            decreases n - i,
        {
            if self.clients[i].id == id {
                self.clients.remove(i);
                proof {
                    let s1 = self.clients@;
                    assert(pre[i as int].id == id);
                    assert forall|j: int| 0 <= j < s1.len() implies (#[trigger] s1[j].id != id
                        && pre.contains(s1[j])) by {
                        if j < i {
                            assert(s1[j] == pre[j]);
                            assert(pre[j].id != id);
                        } else {
                            assert(s1[j] == pre[j + 1]);
                            assert(pre[j + 1].id != pre[i as int].id);
                        }
                    }
                    assert forall|j: int|
                        0 <= j < pre.len() && #[trigger] pre[j].id != id implies s1.contains(
                        pre[j],
                    ) by {
                        if j < i {
                            assert(s1[j] == pre[j]);
                        } else {
                            assert(j != i);
                            assert(s1[j - 1] == pre[j]);
                        }
                    }
                    assert forall|a: int, b: int| 0 <= a < b < s1.len() implies #[trigger] s1[a].id
                        != #[trigger] s1[b].id by {
                        let pa: int = if a < i { a } else { a + 1 };
                        let pb: int = if b < i { b } else { b + 1 };
                        assert(s1[a] == pre[pa]);
                        assert(s1[b] == pre[pb]);
                    }
                    assert forall|j: int| 0 <= j < s1.len() implies (#[trigger] s1[j].id
                        < self.next_id && s1[j].queue@.len() <= self.queue_capacity) by {
                        if j < i {
                            assert(s1[j] == pre[j]);
                        } else {
                            assert(s1[j] == pre[j + 1]);
                        }
                    }
                }
                return ;
            }
            i += 1;
        }
        proof {
            assert forall|j: int| 0 <= j < pre.len() implies pre.contains(#[trigger] pre[j]) by {
                assert(pre[j] == pre[j]);
            }
        }
    }

    /// Fan a message out: append exactly one copy of it to the outbound
    /// queue of every connected client other than the sender — the sender
    /// gets nothing back, and nobody's already-queued messages are
    /// reordered or dropped. A receiver whose queue is already at the
    /// per-client capacity misses this message (it is dropped for that
    /// receiver alone); overflow never blocks the sender, touches another
    /// receiver, or disturbs the registry. The registry itself
    /// (identifiers, order, counter) is untouched, and delivery to one
    /// client can never fail another's: each queue is extended
    /// independently.
    pub fn broadcast(&mut self, sender: u64, message: &str)
        requires
            old(self).wf(),
        ensures
            final(self).wf(),
            final(self).next_id == old(self).next_id,
            final(self).queue_capacity == old(self).queue_capacity,
            final(self).clients@.len() == old(self).clients@.len(),
            forall|k: int| #![auto]
                0 <= k < old(self).clients@.len() ==> final(self).clients@[k].id == old(self).clients@[k].id,
            forall|k: int| #![auto]
                0 <= k < old(self).clients@.len() && old(self).clients@[k].id == sender ==> final(self).clients@[k].queue@ == old(self).clients@[k].queue@,
            forall|k: int| #![auto]
                0 <= k < old(self).clients@.len() && old(self).clients@[k].id != sender
                    && old(self).clients@[k].queue@.len() < old(self).queue_capacity
                    ==> queue_extended(
                    old(self).clients@[k].queue@,
                    final(self).clients@[k].queue@,
                    message@,
                ),
            forall|k: int| #![auto]
                0 <= k < old(self).clients@.len() && old(self).clients@[k].id != sender
                    && old(self).clients@[k].queue@.len() >= old(self).queue_capacity
                    ==> final(self).clients@[k].queue@ == old(self).clients@[k].queue@,
    {
        let ghost orig = self.clients@;
        let n = self.clients.len();
        let mut i: usize = 0;
        while i < n
            invariant
                n == orig.len(),
                0 <= i <= n,
                self.clients@.len() == orig.len(),
                self.next_id == old(self).next_id,
                self.queue_capacity == old(self).queue_capacity,
                orig == old(self).clients@,
                forall|k: int| #![auto] 0 <= k < n ==> self.clients@[k].id == orig[k].id,
                forall|k: int| #![auto] i <= k < n ==> self.clients@[k] == orig[k],
                forall|k: int| #![auto]
                    0 <= k < i && orig[k].id == sender ==> self.clients@[k].queue@
                        == orig[k].queue@,
                forall|k: int| #![auto]
                    0 <= k < i && orig[k].id != sender && orig[k].queue@.len()
                        < self.queue_capacity ==> queue_extended(
                        orig[k].queue@,
                        self.clients@[k].queue@,
                        message@,
                    ),
                forall|k: int| #![auto]
                    0 <= k < i && orig[k].id != sender && orig[k].queue@.len()
                        >= self.queue_capacity ==> self.clients@[k].queue@ == orig[k].queue@,
            decreases n - i,
        {
            if self.clients[i].id != sender && self.clients[i].queue.len() < self.queue_capacity {
                let ghost q = self.clients@[i as int].queue@;
                self.clients[i].queue.push(message.to_owned());
                proof {
                    assert(self.clients@[i as int].queue@.subrange(0, q.len() as int) =~= q);
                }
            }
            i += 1;
        }
        proof {
            assert forall|a: int, b: int| 0 <= a < b < self.clients@.len() implies
                #[trigger] self.clients@[a].id != #[trigger] self.clients@[b].id by {
                assert(self.clients@[a].id == orig[a].id);
                assert(self.clients@[b].id == orig[b].id);
            }
            assert forall|a: int| 0 <= a < self.clients@.len() implies (
            #[trigger] self.clients@[a].id < self.next_id && self.clients@[a].queue@.len()
                <= self.queue_capacity) by {
                assert(self.clients@[a].id == orig[a].id);
                assert(orig[a].queue@.len() <= self.queue_capacity);
            }
        }
    }

    /// Hand out — and clear — everything queued for one client, oldest
    /// first; the socket plumbing drains a client's outbound path with
    /// this, independently of every other client. The registry entries
    /// and every other queue are exactly preserved; an unknown identifier
    /// yields nothing.
    pub fn take_messages(&mut self, id: u64) -> (r: Vec<String>)
        requires
            old(self).wf(),
        ensures
            final(self).wf(),
            final(self).next_id == old(self).next_id,
            final(self).queue_capacity == old(self).queue_capacity,
            final(self).clients@.len() == old(self).clients@.len(),
            forall|k: int| #![auto]
                0 <= k < old(self).clients@.len() ==> final(self).clients@[k].id == old(self).clients@[k].id,
            !has_client(old(self).clients@, id) ==> r@ == Seq::<String>::empty() && final(self).clients@ == old(self).clients@,
            has_client(old(self).clients@, id) ==> exists|i: int|
                0 <= i < old(self).clients@.len() && #[trigger] old(self).clients@[i].id == id
                    && r@ == old(self).clients@[i].queue@ && final(self).clients@[i].queue@
                    == Seq::<String>::empty() && (forall|k: int| #![auto]
                    0 <= k < old(self).clients@.len() && k != i ==> final(self).clients@[k] == old(self).clients@[k]),
    {
        let ghost pre = self.clients@;
        let n = self.clients.len();
        let mut i: usize = 0;
        while i < n
            invariant
                n == self.clients@.len(),
                0 <= i <= n,
                self.clients@ == pre,
                pre == old(self).clients@,
                old(self).wf(),
                self.next_id == old(self).next_id,
                self.queue_capacity == old(self).queue_capacity,
                forall|j: int| #![auto] 0 <= j < i ==> self.clients@[j].id != id,
            decreases n - i,
        {
            if self.clients[i].id == id {
                let entry = self.clients.remove(i);
                let HubClient { id: entry_id, queue } = entry;
                self.clients.insert(i, HubClient { id: entry_id, queue: Vec::new() });
                proof {
                    assert(self.clients@ =~= pre.update(i as int, self.clients@[i as int]));
                    assert forall|k: int| 0 <= k < self.clients@.len() implies
                        #[trigger] self.clients@[k].id == pre[k].id by {
                        if k != i {
                            assert(self.clients@[k] == pre[k]);
                        }
                    }
                    assert forall|a: int, b: int| 0 <= a < b < self.clients@.len() implies
                        #[trigger] self.clients@[a].id != #[trigger] self.clients@[b].id by {
                        assert(self.clients@[a].id == pre[a].id);
                        assert(self.clients@[b].id == pre[b].id);
                    }
                    assert forall|a: int| 0 <= a < self.clients@.len() implies (
                    #[trigger] self.clients@[a].id < self.next_id && self.clients@[a].queue@.len()
                        <= self.queue_capacity) by {
                        assert(self.clients@[a].id == pre[a].id);
                        if a != i {
                            assert(self.clients@[a] == pre[a]);
                        }
                    }
                    assert(pre[i as int].id == id);
                }
                return queue;
            }
            i += 1;
        }
        Vec::new()
    }
}

/// A client identifier is never reused, even after its client
/// disconnected. Every identifier is handed out by `connect` as the
/// counter's value at that moment, with the counter stepping past it;
/// every operation's contract keeps the counter from decreasing; so at
/// any later moment the counter still stands above every identifier
/// handed out before, and what `connect` grants then is distinct from
/// all of them.
pub proof fn lemma_ids_never_reused(past_id: u64, past_next_id: u64, now_next_id: u64)
    requires
        past_id < past_next_id,
        past_next_id <= now_next_id,
    ensures
        now_next_id != past_id,
{
}

} // verus!

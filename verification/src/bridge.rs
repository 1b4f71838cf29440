//! The request bridge: makes one shared request/response channel pair
//! safely usable by many concurrent callers.
//!
//! Each submission gets a fresh correlation id and a wait-slot; the
//! demultiplexing side routes every arriving response to the one slot whose
//! id matches, removes the slot, and discards responses nobody waits for.

use vstd::prelude::*;
use crate::protocol::{QueryRequest, QueryResponse, RequestView};

verus! {

/// A caller waiting for the response that carries `id`. The `caller` field
/// is the tag under which the waiting party registered itself.
#[derive(Clone, Copy, Debug, PartialEq, Eq, Structural)]
pub struct WaitSlot {
    pub id: u64,
    pub caller: u64,
}

/// No two slots wait for the same correlation id.
pub open spec fn unique_ids(waiters: Seq<WaitSlot>) -> bool {
    forall|i: int, j: int|
        #![trigger waiters[i], waiters[j]]
        0 <= i < j < waiters.len() ==> waiters[i].id != waiters[j].id
}

/// Mathematical model of the bridge: the id counter, the requests sent
/// toward the engine in submission order, and the outstanding wait-slots.
#[verifier::ext_equal]
pub ghost struct BridgeView {
    pub next_id: u64,
    pub outbox: Seq<RequestView>,
    pub waiters: Seq<WaitSlot>,
}

impl BridgeView {
    /// Every issued id is below the counter, and ids in flight are unique.
    pub open spec fn wf(self) -> bool {
        &&& unique_ids(self.waiters)
        &&& forall|i: int|
            0 <= i < self.waiters.len() ==> (#[trigger] self.waiters[i]).id < self.next_id
        &&& forall|i: int|
            0 <= i < self.outbox.len() ==> (#[trigger] self.outbox[i]).id < self.next_id
    }
}

/// One submission: a fresh id is drawn, the request joins the outbox, and a
/// wait-slot for the caller is registered under that id.
pub open spec fn spec_submit(b: BridgeView, caller: u64, text: Seq<char>) -> (BridgeView, u64) {
    let id = b.next_id;
    (
        BridgeView {
            next_id: (id + 1) as u64,
            outbox: b.outbox.push(RequestView { id, text }),
            waiters: b.waiters.push(WaitSlot { id, caller }),
        },
        id,
    )
}

/// Bridges many concurrent callers to the engine's flat request/response
/// streams by correlation id.
pub struct RequestBridge {
    next_id: u64,
    outbox: Vec<QueryRequest>,
    waiters: Vec<WaitSlot>,
}

impl View for RequestBridge {
    type V = BridgeView;

    closed spec fn view(&self) -> BridgeView {
        BridgeView {
            next_id: self.next_id,
            outbox: self.outbox@.map_values(|r: QueryRequest| r@),
            waiters: self.waiters@,
        }
    }
}

impl RequestBridge {
    /// A fresh bridge with no traffic.
    pub fn new() -> (b: RequestBridge)
        ensures
            b@.next_id == 0,
            b@.outbox == Seq::<RequestView>::empty(),
            b@.waiters == Seq::<WaitSlot>::empty(),
            b@.wf(),
    {
        let b = RequestBridge { next_id: 0, outbox: Vec::new(), waiters: Vec::new() };
        proof {
            assert(b@.outbox =~= Seq::<RequestView>::empty());
        }
        b
    }

    /// How many callers are waiting for a response.
    pub fn waiter_count(&self) -> (n: usize)
        ensures
            n == self@.waiters.len(),
    {
        self.waiters.len()
    }

    /// Submits a query for `caller`: draws a fresh correlation id, enqueues
    /// the request behind all earlier ones, and registers the wait-slot.
    /// The returned id is distinct from every id still in flight.
    pub fn submit(&mut self, caller: u64, text: String) -> (id: u64)
        requires
            old(self)@.wf(),
            old(self)@.next_id < u64::MAX,
        ensures
            final(self)@ == spec_submit(old(self)@, caller, text@).0,
            id == spec_submit(old(self)@, caller, text@).1,
            spec_submit(old(self)@, caller, text@).0.wf(),
            forall|k: int|
                0 <= k < old(self)@.waiters.len() ==> (#[trigger] old(self)@.waiters[k]).id
                    != id,
    {
        let id = self.next_id;
        self.next_id = id + 1;
        self.outbox.push(QueryRequest { id, text });
        self.waiters.push(WaitSlot { id, caller });
        proof {
            let b = spec_submit(old(self)@, caller, text@).0;
            assert(self@.outbox =~= b.outbox);
            assert(self@ =~= b);
        }
        id
    }

    /// Hands the accumulated requests over for sending, in submission
    /// order, leaving the outbox empty. Wait-slots are untouched.
    pub fn take_outbox(&mut self) -> (msgs: Vec<QueryRequest>)
        ensures
            msgs@.map_values(|r: QueryRequest| r@) == old(self)@.outbox,
            final(self)@ == (BridgeView { outbox: Seq::<RequestView>::empty(), ..old(self)@ }),
    {
        let msgs = self.outbox.split_off(0);
        proof {
            assert(msgs@.map_values(|r: QueryRequest| r@) =~= old(self)@.outbox);
            assert(self@.outbox =~= Seq::<RequestView>::empty());
            assert(self@ =~= (BridgeView { outbox: Seq::<RequestView>::empty(), ..old(self)@ }));
        }
        msgs
    }

    /// Routes one arriving response: delivered to the caller whose slot
    /// carries the response's id — and to no one else — removing the slot;
    /// a response no slot waits for is discarded and changes nothing.
    pub fn route(&mut self, resp: QueryResponse) -> (delivered: Option<(u64, QueryResponse)>)
        requires
            old(self)@.wf(),
        ensures
            final(self)@.next_id == old(self)@.next_id,
            final(self)@.outbox == old(self)@.outbox,
            final(self)@.wf(),
            (match delivered {
                Some((caller, r)) => {
                    &&& r@ == resp@
                    &&& exists|k: int|
                        {
                            &&& 0 <= k < old(self)@.waiters.len()
                            &&& (#[trigger] old(self)@.waiters[k]).id == resp.id
                            &&& old(self)@.waiters[k].caller == caller
                            &&& final(self)@.waiters == old(self)@.waiters.remove(k)
                        }
                },
                None => {
                    &&& final(self)@.waiters == old(self)@.waiters
                    &&& forall|k: int|
                        0 <= k < old(self)@.waiters.len() ==> (#[trigger] old(
                            self,
                        )@.waiters[k]).id != resp.id
                },
            }),
    {
        let n = self.waiters.len();
        let mut k: usize = 0;
        while k < n
            invariant
                n == self.waiters.len(),
                k <= n,
                old(self)@.wf(),
                self@ == old(self)@,
                forall|j: int| 0 <= j < k ==> (#[trigger] self@.waiters[j]).id != resp.id,
            decreases n - k,
        {
            if self.waiters[k].id == resp.id {
                let slot = self.waiters.remove(k);
                proof {
                    lemma_remove_preserves_unique(old(self)@.waiters, k as int);
                    assert forall|i: int|
                        0 <= i < self@.waiters.len() implies (#[trigger] self@.waiters[i]).id
                        < self@.next_id by {
                        if i < k {
                            assert(self@.waiters[i] == old(self)@.waiters[i]);
                        } else {
                            assert(self@.waiters[i] == old(self)@.waiters[i + 1]);
                        }
                    }
                }
                return Some((slot.caller, resp));
            }
            k = k + 1;
        }
        None
    }
}

/// Removing one slot keeps the remaining ids unique.
pub proof fn lemma_remove_preserves_unique(waiters: Seq<WaitSlot>, k: int)
    requires
        unique_ids(waiters),
        0 <= k < waiters.len(),
    ensures
        unique_ids(waiters.remove(k)),
{
    let rest = waiters.remove(k);
    assert forall|i: int, j: int|
        #![trigger rest[i], rest[j]]
        0 <= i < j < rest.len() implies rest[i].id != rest[j].id by {
        let i0: int = if i < k {
            i
        } else {
            i + 1
        };
        let j0: int = if j < k {
            j
        } else {
            j + 1
        };
        assert(rest[i] == waiters[i0]);
        assert(rest[j] == waiters[j0]);
    }
}

/// A response can only ever be delivered to the caller that registered its
/// id: when ids in flight are unique, a slot holding the response's id and
/// any slot a delivery for that id goes to are one and the same.
pub proof fn lemma_route_to_owner(waiters: Seq<WaitSlot>, id: u64, c1: u64, c2: u64)
    requires
        unique_ids(waiters),
        exists|k: int|
            0 <= k < waiters.len() && (#[trigger] waiters[k]) == (WaitSlot { id, caller: c1 }),
        exists|k: int|
            0 <= k < waiters.len() && (#[trigger] waiters[k]).id == id && waiters[k].caller
                == c2,
    ensures
        c1 == c2,
{
    let k1 = choose|k: int|
        0 <= k < waiters.len() && (#[trigger] waiters[k]) == (WaitSlot { id, caller: c1 });
    let k2 = choose|k: int|
        0 <= k < waiters.len() && (#[trigger] waiters[k]).id == id && waiters[k].caller == c2;
    if k1 < k2 {
        assert(waiters[k1].id != waiters[k2].id);
    } else if k2 < k1 {
        assert(waiters[k2].id != waiters[k1].id);
    }
}

/// Two submissions stand in the outbox in submission order: the first
/// strictly before the second, under distinct correlation ids.
pub proof fn lemma_submission_order(b0: BridgeView, caller: u64, t1: Seq<char>, t2: Seq<char>)
    requires
        b0.next_id + 2 <= u64::MAX,
    ensures
        ({
            let (b1, id1) = spec_submit(b0, caller, t1);
            let (b2, id2) = spec_submit(b1, caller, t2);
            &&& b2.outbox.len() == b0.outbox.len() + 2
            &&& b2.outbox[b0.outbox.len() as int] == (RequestView { id: id1, text: t1 })
            &&& b2.outbox[b0.outbox.len() + 1int] == (RequestView { id: id2, text: t2 })
            &&& id1 != id2
        }),
{
}

} // verus!

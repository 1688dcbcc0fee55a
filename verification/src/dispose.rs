//! A cancel group: requests register here so a scope can cancel whatever is
//! still pending when it ends.

use vstd::prelude::*;

use crate::request::{FinallyType, Request};
use crate::rpc::Rpc;

verus! {

/// The identities of `s` in order, with every occurrence of the identity
/// `b` names (if any) dropped.
pub open spec fn without_id(s: Seq<u64>, b: Option<u64>) -> Seq<u64>
    decreases s.len(),
{
    if s.len() == 0 {
        Seq::empty()
    } else {
        let prefix = without_id(s.drop_last(), b);
        if b == Some(s.last()) {
            prefix
        } else {
            prefix.push(s.last())
        }
    }
}

/// An ordered set of request identities to cancel together.
pub struct Dispose {
    /// The registered identities, in insertion order.
    pub ids: Vec<u64>,
}

impl Dispose {
    /// An empty group.
    pub fn new() -> (r: Dispose)
        ensures
            r.ids@ == Seq::<u64>::empty(),
    {
        Dispose { ids: Vec::new() }
    }

    /// Register a request.  A standalone request carries no identity and is
    /// skipped.
    pub fn add(&mut self, request: &Request)
        ensures
            final(self).ids@ == (match request.binding {
                Some(id) => old(self).ids@.push(id),
                None => old(self).ids@,
            }),
    {
        match request.get_rpc() {
            Some(id) => self.ids.push(id),
            None => (),
        }
    }

    /// Cancel every registered request through the facade, in insertion
    /// order, and clear the group.  Afterwards no registered identity has a
    /// pending entry any more, and every registered identity is recorded in
    /// the facade, so a call under it that has not run yet finishes
    /// `Canceled` at once.  The returned records are exactly the requests
    /// that were in flight under registered identities: each one is its
    /// pending entry with cancellation applied.  Entries of identities that
    /// were not registered survive untouched.
    pub fn dismiss(&mut self, rpc: &mut Rpc) -> (r: Vec<Request>)
        requires
            old(rpc).wf(),
        ensures
            final(rpc).wf(),
            final(self).ids@ == Seq::<u64>::empty(),
            forall|i: int|
                0 <= i < old(self).ids@.len() ==> !final(rpc).dispatcher.has_pending_binding(
                    #[trigger] old(self).ids@[i],
                ),
            forall|i: int|
                0 <= i < old(self).ids@.len() ==> final(rpc).has_canceled_id(
                    #[trigger] old(self).ids@[i],
                ),
            forall|j: int|
                0 <= j < r@.len() ==> ({
                    let c = #[trigger] r@[j];
                    &&& old(rpc).dispatcher.has_pending(c.seq)
                    &&& c == (Request {
                        canceled: true,
                        ..old(rpc).dispatcher.pending_map()[c.seq]
                    }).spec_finish(FinallyType::Canceled)
                    &&& c.finally_type == Some(FinallyType::Canceled)
                    &&& exists|i: int|
                        0 <= i < old(self).ids@.len() && c.binding == Some(old(self).ids@[i])
                }),
            final(rpc).dispatcher.pending_map().submap_of(old(rpc).dispatcher.pending_map()),
            forall|s: u32|
                old(rpc).dispatcher.has_pending(s) && (forall|i: int|
                    0 <= i < old(self).ids@.len() ==> old(rpc).dispatcher.pending_map()[s].binding
                        != Some(#[trigger] old(self).ids@[i])) ==> #[trigger] final(rpc).dispatcher.has_pending(s),
            forall|s: u32|
                old(rpc).dispatcher.has_pending(s) && !#[trigger] final(rpc).dispatcher.has_pending(s) ==> exists|j: int|
                    0 <= j < r@.len() && r@[j].seq == s,
            final(rpc).connection == old(rpc).connection,
            final(rpc).seq == old(rpc).seq,
            final(rpc).is_ready == old(rpc).is_ready,
            final(rpc).next_request_id == old(rpc).next_request_id,
            final(rpc).dispatcher.cmd_subs == old(rpc).dispatcher.cmd_subs,
            final(rpc).dispatcher.timer_installed == old(rpc).dispatcher.timer_installed,
    {
        let mut out: Vec<Request> = Vec::new();
        let n = self.ids.len();
        for i in 0..n
            invariant
                n == self.ids@.len(),
                self.ids == old(self).ids,
                rpc.wf(),
                rpc.connection == old(rpc).connection,
                rpc.seq == old(rpc).seq,
                rpc.is_ready == old(rpc).is_ready,
                rpc.next_request_id == old(rpc).next_request_id,
                rpc.dispatcher.cmd_subs == old(rpc).dispatcher.cmd_subs,
                rpc.dispatcher.timer_installed == old(rpc).dispatcher.timer_installed,
                rpc.dispatcher.pending_map().submap_of(old(rpc).dispatcher.pending_map()),
                forall|x: int|
                    0 <= x < i ==> !rpc.dispatcher.has_pending_binding(
                        #[trigger] self.ids@[x],
                    ),
                forall|x: int|
                    0 <= x < i ==> rpc.has_canceled_id(#[trigger] self.ids@[x]),
                forall|j: int|
                    0 <= j < out@.len() ==> ({
                        let c = #[trigger] out@[j];
                        &&& old(rpc).dispatcher.has_pending(c.seq)
                        &&& c == (Request {
                            canceled: true,
                            ..old(rpc).dispatcher.pending_map()[c.seq]
                        }).spec_finish(FinallyType::Canceled)
                        &&& c.finally_type == Some(FinallyType::Canceled)
                        &&& exists|x: int|
                            0 <= x < n && c.binding == Some(self.ids@[x])
                    }),
                forall|s: u32|
                    old(rpc).dispatcher.has_pending(s) && (forall|x: int|
                        0 <= x < n ==> old(rpc).dispatcher.pending_map()[s].binding != Some(
                            #[trigger] self.ids@[x],
                        )) ==> #[trigger] rpc.dispatcher.has_pending(s),
                forall|s: u32|
                    old(rpc).dispatcher.has_pending(s) && !#[trigger] rpc.dispatcher.has_pending(s) ==> exists|j: int| 0 <= j < out@.len() && out@[j].seq == s,
        {
            let id = self.ids[i];
            let mut more = true;
            while more
                invariant
                    n == self.ids@.len(),
                    self.ids == old(self).ids,
                    0 <= i < n,
                    id == self.ids@[i as int],
                    rpc.wf(),
                    rpc.connection == old(rpc).connection,
                    rpc.seq == old(rpc).seq,
                    rpc.is_ready == old(rpc).is_ready,
                    rpc.next_request_id == old(rpc).next_request_id,
                    rpc.dispatcher.cmd_subs == old(rpc).dispatcher.cmd_subs,
                    rpc.dispatcher.timer_installed == old(rpc).dispatcher.timer_installed,
                    rpc.dispatcher.pending_map().submap_of(old(rpc).dispatcher.pending_map()),
                    forall|x: int|
                        0 <= x < i ==> !rpc.dispatcher.has_pending_binding(
                            #[trigger] self.ids@[x],
                        ),
                    forall|x: int|
                        0 <= x < i ==> rpc.has_canceled_id(#[trigger] self.ids@[x]),
                    !more ==> !rpc.dispatcher.has_pending_binding(id) && rpc.has_canceled_id(id),
                    forall|j: int|
                        0 <= j < out@.len() ==> ({
                            let c = #[trigger] out@[j];
                            &&& old(rpc).dispatcher.has_pending(c.seq)
                            &&& c == (Request {
                                canceled: true,
                                ..old(rpc).dispatcher.pending_map()[c.seq]
                            }).spec_finish(FinallyType::Canceled)
                            &&& c.finally_type == Some(FinallyType::Canceled)
                            &&& exists|x: int|
                                0 <= x < n && c.binding == Some(self.ids@[x])
                        }),
                    forall|s: u32|
                        old(rpc).dispatcher.has_pending(s) && (forall|x: int|
                            0 <= x < n ==> old(rpc).dispatcher.pending_map()[s].binding != Some(
                                #[trigger] self.ids@[x],
                            )) ==> #[trigger] rpc.dispatcher.has_pending(s),
                    forall|s: u32|
                        old(rpc).dispatcher.has_pending(s) && !#[trigger] rpc.dispatcher.has_pending(s) ==> exists|j: int| 0 <= j < out@.len() && out@[j].seq == s,
                decreases rpc.dispatcher.pending@.len() + (if more {
                    1int
                } else {
                    0int
                }),
            {
                let ghost prev = *rpc;
                match rpc.cancel_request_id(id) {
                    Some(req) => {
                        proof {
                            lemma_dismiss_step(*old(rpc), prev, *rpc, req, id);
                            assert forall|s: u32|
                                old(rpc).dispatcher.has_pending(s) && (forall|x: int|
                                    0 <= x < n ==> old(rpc).dispatcher.pending_map()[s].binding
                                        != Some(#[trigger] self.ids@[x])) implies #[trigger] rpc.dispatcher.has_pending(s) by {
                                assert(prev.dispatcher.has_pending(s));
                                assert(old(rpc).dispatcher.pending_map()[s].binding != Some(
                                    self.ids@[i as int],
                                ));
                            }
                        }
                        let ghost out_before = out@;
                        out.push(req);
                        proof {
                            assert(out@ == out_before.push(req));
                            assert forall|s: u32|
                                old(rpc).dispatcher.has_pending(s)
                                    && !#[trigger] rpc.dispatcher.has_pending(s) implies exists|
                                j: int,
                            | 0 <= j < out@.len() && out@[j].seq == s by {
                                if s == req.seq {
                                    assert(out@[out_before.len() as int].seq == s);
                                } else if prev.dispatcher.has_pending(s) {
                                    assert(prev.dispatcher.pending_map().dom().contains(s));
                                    assert(rpc.dispatcher.pending_map().dom().contains(s));
                                    assert(rpc.dispatcher.has_pending(s));
                                } else {
                                    let j = choose|j: int|
                                        0 <= j < out_before.len() && out_before[j].seq == s;
                                    assert(out@[j].seq == s);
                                }
                            }
                        }
                    },
                    None => {
                        more = false;
                    },
                }
            }
        }
        self.ids = Vec::new();
        out
    }

    /// Drop every registration of a request's identity, keeping the order
    /// of the rest.
    pub fn remove(&mut self, request: &Request)
        ensures
            final(self).ids@ == without_id(old(self).ids@, request.binding),
    {
        let mut kept: Vec<u64> = Vec::new();
        let n = self.ids.len();
        proof {
            assert(self.ids@.subrange(0, 0) =~= Seq::<u64>::empty());
        }
        for i in 0..n
            invariant
                n == self.ids@.len(),
                kept@ == without_id(self.ids@.subrange(0, i as int), request.binding),
        {
            let keep = match request.get_rpc() {
                Some(id) => self.ids[i] != id,
                None => true,
            };
            proof {
                let prefix = self.ids@.subrange(0, i as int);
                let next = self.ids@.subrange(0, i + 1 as int);
                assert(next.drop_last() =~= prefix);
                assert(next.last() == self.ids@[i as int]);
            }
            if keep {
                kept.push(self.ids[i]);
            }
        }
        proof {
            assert(self.ids@.subrange(0, n as int) =~= self.ids@);
        }
        self.ids = kept;
    }
}

/// One cancellation step inside a group dismissal: the record handed back
/// is the starting pending entry of its sequence number with cancellation
/// applied, and untouched entries keep their place.
proof fn lemma_dismiss_step(start: Rpc, before: Rpc, after: Rpc, c: Request, id: u64)
    requires
        before.dispatcher.pending_map().submap_of(start.dispatcher.pending_map()),
        before.dispatcher.has_pending(c.seq),
        c == (Request {
            canceled: true,
            ..before.dispatcher.pending_map()[c.seq]
        }).spec_finish(FinallyType::Canceled),
        c.binding == Some(id),
        after.dispatcher.pending_map() == before.dispatcher.pending_map().remove(c.seq),
    ensures
        start.dispatcher.has_pending(c.seq),
        c == (Request {
            canceled: true,
            ..start.dispatcher.pending_map()[c.seq]
        }).spec_finish(FinallyType::Canceled),
        after.dispatcher.pending_map().submap_of(start.dispatcher.pending_map()),
        forall|s: u32|
            #[trigger] before.dispatcher.has_pending(s) && start.dispatcher.pending_map()[
                s
            ].binding != Some(id) ==> after.dispatcher.has_pending(s),
{
    assert(before.dispatcher.pending_map().dom().contains(c.seq));
    assert(start.dispatcher.pending_map().dom().contains(c.seq));
    assert(start.dispatcher.has_pending(c.seq));
    assert(before.dispatcher.pending_map()[c.seq] == start.dispatcher.pending_map()[c.seq]);
    assert forall|s: u32|
        #[trigger] before.dispatcher.has_pending(s) && start.dispatcher.pending_map()[s].binding
            != Some(id) implies after.dispatcher.has_pending(s) by {
        assert(before.dispatcher.pending_map().dom().contains(s));
        assert(before.dispatcher.pending_map()[s] == start.dispatcher.pending_map()[s]);
        if s == c.seq {
            assert(before.dispatcher.pending_map()[c.seq].binding == c.binding);
        }
        assert(after.dispatcher.pending_map().dom().contains(s));
        assert(after.dispatcher.has_pending(s));
    }
}

} // verus!

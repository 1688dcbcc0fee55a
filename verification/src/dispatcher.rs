//! Routing of parsed inbound messages: commands go to the subscribed
//! handler or are answered with `NoSuchCmd`, pings are answered with a pong,
//! and responses are matched to the pending request with the same sequence
//! number.
//!
//! The dispatcher owns two tables: the set of subscribed command names, and
//! the pending-response table holding each in-flight request keyed by its
//! sequence number.  An entry leaves the pending table exactly once: when
//! its response arrives, when its deadline expires, or when it is canceled.

use vstd::prelude::*;
use vstd::map::*;

use crate::msg::{
    spec_has_flag, MsgWrapper, TYPE_COMMAND, TYPE_NEED_RSP, TYPE_NO_SUCH_CMD, TYPE_PING,
    TYPE_PONG, TYPE_RESPONSE,
};
use crate::request::Request;

verus! {

/// One pending-response entry: the in-flight request, keyed by the sequence
/// number of its latest send.
pub struct PendingRsp {
    pub seq: u32,
    pub request: Request,
}

/// A request as the pending table holds it: still waiting, expecting a
/// response, keyed consistently, and sendable again (for a retry).
pub open spec fn pending_entry_wf(e: PendingRsp) -> bool {
    &&& e.request.waiting_rsp
    &&& e.request.wf()
    &&& e.request.need_rsp
    &&& e.request.seq == e.seq
    &&& vstd::utf8::encode_utf8(e.request.cmd@).len() <= 0xFFFF
}

/// What `dispatch` decided about one inbound message.
pub enum DispatchStep {
    /// The message was a ping; send this pong back.
    PongReply(MsgWrapper),
    /// The command is subscribed; the driver runs its handler on the
    /// message and may answer through the facade.
    RunHandler(MsgWrapper),
    /// The command is not subscribed but wanted a response; send this
    /// `NoSuchCmd` reply back.
    NoSuchCmdReply(MsgWrapper),
    /// The command is not subscribed and wanted no response; dropped.
    CommandDropped,
    /// The response matched a pending request, which now leaves the table.
    ResponseMatched { request: Request, msg: MsgWrapper },
    /// A response with no pending entry, likely late after a timeout;
    /// dropped.
    LateResponse,
    /// Neither command nor response; dropped.
    UnknownType,
}

/// The dispatcher: subscribed command names and the pending-response table.
pub struct MsgDispatcher {
    /// Subscribed command names, each at most once.
    pub cmd_subs: Vec<String>,
    /// In-flight requests, keyed by distinct sequence numbers.
    pub pending: Vec<PendingRsp>,
    /// Whether a timer capability was installed; without one, deadlines
    /// never fire and pending entries stay until answered.
    pub timer_installed: bool,
}

impl MsgDispatcher {
    /// A command name is subscribed.
    pub open spec fn has_sub(self, c: Seq<char>) -> bool {
        exists|i: int| 0 <= i < self.cmd_subs@.len() && self.cmd_subs@[i]@ == c
    }

    /// A sequence number has a pending entry.
    pub open spec fn has_pending(self, seq: u32) -> bool {
        exists|i: int| 0 <= i < self.pending@.len() && self.pending@[i].seq == seq
    }

    /// Index of the pending entry for a sequence number.
    pub open spec fn pending_idx(self, seq: u32) -> int {
        choose|i: int| 0 <= i < self.pending@.len() && self.pending@[i].seq == seq
    }

    /// The pending table as a map from sequence number to request.
    pub open spec fn pending_map(self) -> Map<u32, Request> {
        Map::new(
            |s: u32| self.has_pending(s),
            |s: u32| self.pending@[self.pending_idx(s)].request,
        )
    }

    /// Tables in shape: names unique, sequence numbers unique, every
    /// pending entry well-formed.
    pub open spec fn wf(self) -> bool {
        &&& forall|i: int, j: int|
            0 <= i < j < self.cmd_subs@.len() ==> self.cmd_subs@[i]@ != self.cmd_subs@[j]@
        &&& forall|i: int, j: int|
            0 <= i < j < self.pending@.len() ==> self.pending@[i].seq != self.pending@[j].seq
        &&& forall|i: int| 0 <= i < self.pending@.len() ==> pending_entry_wf(#[trigger] self.pending@[i])
    }

    /// An empty dispatcher with no timer capability.
    pub fn new() -> (r: MsgDispatcher)
        ensures
            r.cmd_subs@ == Seq::<String>::empty(),
            r.pending@ == Seq::<PendingRsp>::empty(),
            !r.timer_installed,
            r.wf(),
            forall|c: Seq<char>| !r.has_sub(c),
            forall|s: u32| !r.has_pending(s),
    {
        MsgDispatcher { cmd_subs: Vec::new(), pending: Vec::new(), timer_installed: false }
    }

    /// Record that a timer capability is installed.
    pub fn set_timer_impl(&mut self)
        ensures
            *final(self) == (MsgDispatcher { timer_installed: true, ..*old(self) }),
    {
        self.timer_installed = true;
    }

    /// Whether a command name is subscribed.
    pub fn has_cmd(&self, cmd: &String) -> (r: bool)
        ensures
            r == self.has_sub(cmd@),
    {
        let n = self.cmd_subs.len();
        for i in 0..n
            invariant
                n == self.cmd_subs@.len(),
                forall|j: int| 0 <= j < i ==> self.cmd_subs@[j]@ != cmd@,
        {
            if self.cmd_subs[i].eq(cmd) {
                return true;
            }
        }
        false
    }

    /// Subscribe a command name; subscribing it again changes nothing.
    pub fn subscribe_cmd(&mut self, cmd: String)
        requires
            old(self).wf(),
        ensures
            final(self).wf(),
            forall|c: Seq<char>|
                final(self).has_sub(c) == (old(self).has_sub(c) || c == cmd@),
            final(self).pending == old(self).pending,
            final(self).timer_installed == old(self).timer_installed,
    {
        if !self.has_cmd(&cmd) {
            let ghost before = self.cmd_subs@;
            self.cmd_subs.push(cmd);
            proof {
                let n = before.len() as int;
                assert(self.cmd_subs@[n]@ == cmd@);
                assert forall|c: Seq<char>|
                    self.has_sub(c) == (old(self).has_sub(c) || c == cmd@) by {
                    if old(self).has_sub(c) {
                        let i = choose|i: int| 0 <= i < before.len() && before[i]@ == c;
                        assert(self.cmd_subs@[i]@ == c);
                    }
                    if self.has_sub(c) {
                        let i = choose|i: int|
                            0 <= i < self.cmd_subs@.len() && self.cmd_subs@[i]@ == c;
                        if i < n {
                            assert(before[i]@ == c);
                        }
                    }
                }
                assert forall|i: int, j: int|
                    0 <= i < j < self.cmd_subs@.len() implies self.cmd_subs@[i]@
                    != self.cmd_subs@[j]@ by {
                    if j == n {
                        assert(before[i]@ == self.cmd_subs@[i]@);
                        assert(old(self).has_sub(self.cmd_subs@[i]@));
                    }
                }
            }
        }
    }

    /// Unsubscribe a command name; unsubscribing an unknown name changes
    /// nothing.
    pub fn unsubscribe_cmd(&mut self, cmd: &String)
        requires
            old(self).wf(),
        ensures
            final(self).wf(),
            forall|c: Seq<char>|
                final(self).has_sub(c) == (old(self).has_sub(c) && c != cmd@),
            final(self).pending == old(self).pending,
            final(self).timer_installed == old(self).timer_installed,
    {
        let n = self.cmd_subs.len();
        for i in 0..n
            invariant
                *self == *old(self),
                old(self).wf(),
                n == self.cmd_subs@.len(),
                forall|j: int| 0 <= j < i ==> self.cmd_subs@[j]@ != cmd@,
        {
            if self.cmd_subs[i].eq(cmd) {
                let ghost before = self.cmd_subs@;
                self.cmd_subs.remove(i);
                proof {
                    lemma_unique_remove_kills(before, i as int, cmd@);
                    assert(self.cmd_subs@ == before.remove(i as int));
                    assert(old(self).cmd_subs@ == before);
                    assert forall|c: Seq<char>|
                        self.has_sub(c) == (old(self).has_sub(c) && c != cmd@) by {
                        lemma_remove_has(before, i as int, c);
                        if old(self).has_sub(c) && c != cmd@ {
                            let j = choose|j: int| 0 <= j < before.len() && before[j]@ == c;
                            assert(j != i as int);
                        }
                        if self.has_sub(c) {
                            let j = choose|j: int|
                                0 <= j < self.cmd_subs@.len() && self.cmd_subs@[j]@ == c;
                            assert(before.remove(i as int)[j]@ == c);
                            assert(c != cmd@);
                        }
                    }
                }
                return;
            }
        }
    }

    /// Whether and where a sequence number is pending.
    fn find_pending(&self, seq: u32) -> (r: Option<usize>)
        requires
            self.wf(),
        ensures
            r is Some <==> self.has_pending(seq),
            r is Some ==> 0 <= r.unwrap() < self.pending@.len()
                && self.pending@[r.unwrap() as int].seq == seq
                && r.unwrap() as int == self.pending_idx(seq),
    {
        let n = self.pending.len();
        for i in 0..n
            invariant
                self.wf(),
                n == self.pending@.len(),
                forall|j: int| 0 <= j < i ==> self.pending@[j].seq != seq,
        {
            if self.pending[i].seq == seq {
                proof {
                    assert(self.has_pending(seq));
                    let k = self.pending_idx(seq);
                    assert(self.pending@[k].seq == seq);
                    assert(k == i as int);
                }
                return Some(i);
            }
        }
        None
    }

    /// Enter a request into the pending table under the sequence number of
    /// its latest send, replacing any stale entry under that number.
    pub fn subscribe_rsp(&mut self, request: Request)
        requires
            old(self).wf(),
            pending_entry_wf(PendingRsp { seq: request.seq, request: request }),
        ensures
            final(self).wf(),
            final(self).pending_map() == old(self).pending_map().insert(request.seq, request),
            final(self).cmd_subs == old(self).cmd_subs,
            final(self).timer_installed == old(self).timer_installed,
    {
        let seq = request.seq;
        let _stale = self.take_pending(seq);
        proof {
            assert(!self.pending_map().dom().contains(seq));
            assert(!self.has_pending(seq));
        }
        let ghost mid = *self;
        self.pending.push(PendingRsp { seq, request });
        proof {
            lemma_pending_insert(mid, *self, PendingRsp { seq: seq, request: request });
            assert_maps_equal!(
                final(self).pending_map(),
                old(self).pending_map().insert(request.seq, request)
            );
        }
    }

    /// Remove and return the pending request for a sequence number, if any.
    pub fn take_pending(&mut self, seq: u32) -> (r: Option<Request>)
        requires
            old(self).wf(),
        ensures
            final(self).wf(),
            r is Some <==> old(self).has_pending(seq),
            r is Some ==> r == Some(old(self).pending_map()[seq])
                && final(self).pending_map() == old(self).pending_map().remove(seq),
            r is None ==> *final(self) == *old(self),
            final(self).cmd_subs == old(self).cmd_subs,
            final(self).timer_installed == old(self).timer_installed,
            r is Some ==> pending_entry_wf(PendingRsp { seq: seq, request: r.unwrap() }),
    {
        match self.find_pending(seq) {
            Some(i) => {
                let ghost before = *self;
                let entry = self.pending.remove(i);
                proof {
                    lemma_pending_remove(before, *self, i as int, seq);
                }
                Some(entry.request)
            },
            None => None,
        }
    }

    /// Some pending entry belongs to the identity.
    pub open spec fn has_pending_binding(self, id: u64) -> bool {
        exists|i: int|
            0 <= i < self.pending@.len() && self.pending@[i].request.binding == Some(id)
    }

    /// Remove and return the pending request of an identity, if any.
    pub fn take_pending_by_binding(&mut self, id: u64) -> (r: Option<Request>)
        requires
            old(self).wf(),
        ensures
            final(self).wf(),
            final(self).cmd_subs == old(self).cmd_subs,
            final(self).timer_installed == old(self).timer_installed,
            r is None ==> *final(self) == *old(self) && !old(self).has_pending_binding(id),
            r is Some ==> r.unwrap().binding == Some(id) && old(self).has_pending(
                r.unwrap().seq,
            ) && r == Some(old(self).pending_map()[r.unwrap().seq]) && final(self).pending_map()
                == old(self).pending_map().remove(r.unwrap().seq) && pending_entry_wf(
                PendingRsp { seq: r.unwrap().seq, request: r.unwrap() },
            ) && final(self).pending@.len() + 1 == old(self).pending@.len(),
            forall|id2: u64|
                final(self).has_pending_binding(id2) ==> old(self).has_pending_binding(id2),
    {
        let n = self.pending.len();
        for i in 0..n
            invariant
                *self == *old(self),
                old(self).wf(),
                n == self.pending@.len(),
                forall|j: int| 0 <= j < i ==> self.pending@[j].request.binding != Some(id),
        {
            let found = match self.pending[i].request.get_rpc() {
                Some(b) => b == id,
                None => false,
            };
            if found {
                let ghost before = *self;
                let seq_i = self.pending[i].seq;
                let entry = self.pending.remove(i);
                proof {
                    let k = before.pending_idx(seq_i);
                    assert(before.pending@[k].seq == seq_i);
                    assert(k == i as int);
                    lemma_pending_remove(before, *self, i as int, seq_i);
                    assert forall|id2: u64|
                        self.has_pending_binding(id2) implies before.has_pending_binding(
                        id2,
                    ) by {
                        let j = choose|j: int|
                            0 <= j < self.pending@.len() && self.pending@[j].request.binding
                                == Some(id2);
                        let jorig = if j < i as int {
                            j
                        } else {
                            j + 1
                        };
                        assert(before.pending@[jorig] == self.pending@[j]);
                    }
                }
                return Some(entry.request);
            }
        }
        None
    }

    /// Decide what to do with one parsed inbound message: commands first
    /// (pong for a ping, handler or `NoSuchCmd` for the rest), then
    /// responses by sequence number, and anything else dropped.
    pub fn dispatch(&mut self, msg: MsgWrapper) -> (r: DispatchStep)
        requires
            old(self).wf(),
            msg.wf(),
        ensures
            final(self).wf(),
            final(self).cmd_subs == old(self).cmd_subs,
            final(self).timer_installed == old(self).timer_installed,
            spec_has_flag(msg.type_, TYPE_COMMAND) && spec_has_flag(msg.type_, TYPE_PING)
                ==> *final(self) == *old(self) && (r matches DispatchStep::PongReply(p) && p
                == (MsgWrapper { type_: TYPE_RESPONSE | TYPE_PONG, ..msg }) && p.wf()),
            spec_has_flag(msg.type_, TYPE_COMMAND) && !spec_has_flag(msg.type_, TYPE_PING)
                && old(self).has_sub(msg.cmd@) ==> *final(self) == *old(self) && (
            r matches DispatchStep::RunHandler(m) && m == msg),
            spec_has_flag(msg.type_, TYPE_COMMAND) && !spec_has_flag(msg.type_, TYPE_PING)
                && !old(self).has_sub(msg.cmd@) && spec_has_flag(msg.type_, TYPE_NEED_RSP)
                ==> *final(self) == *old(self) && (r matches DispatchStep::NoSuchCmdReply(p)
                && p.seq == msg.seq && p.type_ == TYPE_RESPONSE | TYPE_NO_SUCH_CMD && p.cmd@
                == Seq::<char>::empty() && p.data@ == Seq::<u8>::empty() && p.request_payload
                is None && p.wf()),
            spec_has_flag(msg.type_, TYPE_COMMAND) && !spec_has_flag(msg.type_, TYPE_PING)
                && !old(self).has_sub(msg.cmd@) && !spec_has_flag(msg.type_, TYPE_NEED_RSP)
                ==> *final(self) == *old(self) && r is CommandDropped,
            !spec_has_flag(msg.type_, TYPE_COMMAND) && spec_has_flag(msg.type_, TYPE_RESPONSE)
                && old(self).has_pending(msg.seq) ==> final(self).pending_map() == old(
                self,
            ).pending_map().remove(msg.seq) && (r matches DispatchStep::ResponseMatched {
                request,
                msg: m,
            } && request == old(self).pending_map()[msg.seq] && m == msg
                && request.waiting_rsp && request.wf()),
            !spec_has_flag(msg.type_, TYPE_COMMAND) && spec_has_flag(msg.type_, TYPE_RESPONSE)
                && !old(self).has_pending(msg.seq) ==> *final(self) == *old(self)
                && r is LateResponse,
            !spec_has_flag(msg.type_, TYPE_COMMAND) && !spec_has_flag(msg.type_, TYPE_RESPONSE)
                ==> *final(self) == *old(self) && r is UnknownType,
    {
        if crate::msg::has_flag(msg.type_, TYPE_COMMAND) {
            if crate::msg::has_flag(msg.type_, TYPE_PING) {
                proof {
                    assert((TYPE_RESPONSE | TYPE_PONG) < 64) by (bit_vector);
                }
                let pong = MsgWrapper { type_: TYPE_RESPONSE | TYPE_PONG, ..msg };
                return DispatchStep::PongReply(pong);
            }
            if self.has_cmd(&msg.cmd) {
                return DispatchStep::RunHandler(msg);
            }
            if crate::msg::has_flag(msg.type_, TYPE_NEED_RSP) {
                proof {
                    assert((TYPE_RESPONSE | TYPE_NO_SUCH_CMD) < 64) by (bit_vector);
                }
                let mut rsp = MsgWrapper::new();
                rsp.seq = msg.seq;
                rsp.type_ = TYPE_RESPONSE | TYPE_NO_SUCH_CMD;
                return DispatchStep::NoSuchCmdReply(rsp);
            }
            return DispatchStep::CommandDropped;
        }
        if crate::msg::has_flag(msg.type_, TYPE_RESPONSE) {
            return match self.take_pending(msg.seq) {
                Some(request) => DispatchStep::ResponseMatched { request, msg },
                None => DispatchStep::LateResponse,
            };
        }
        DispatchStep::UnknownType
    }
}

/// After removing index `i` (the only index whose name is `c`), no index
/// has name `c`; every other name keeps exactly its other occurrences.
proof fn lemma_unique_remove_kills(s: Seq<String>, i: int, c: Seq<char>)
    requires
        0 <= i < s.len(),
        s[i]@ == c,
        forall|x: int, y: int| 0 <= x < y < s.len() ==> s[x]@ != s[y]@,
    ensures
        forall|j: int| 0 <= j < s.remove(i).len() ==> s.remove(i)[j]@ != c,
        forall|x: int, y: int|
            0 <= x < y < s.remove(i).len() ==> s.remove(i)[x]@ != s.remove(i)[y]@,
{
    let t = s.remove(i);
    assert forall|j: int| 0 <= j < t.len() implies t[j]@ != c by {
        if j < i {
            assert(t[j] == s[j]);
        } else {
            assert(t[j] == s[j + 1]);
        }
    }
    assert forall|x: int, y: int| 0 <= x < y < t.len() implies t[x]@ != t[y]@ by {
        let sx = if x < i { s[x] } else { s[x + 1] };
        let sy = if y < i { s[y] } else { s[y + 1] };
        assert(t[x] == sx && t[y] == sy);
    }
}

/// Membership in a name table after removing one index.
proof fn lemma_remove_has(s: Seq<String>, i: int, c: Seq<char>)
    requires
        0 <= i < s.len(),
    ensures
        (exists|j: int| 0 <= j < s.remove(i).len() && s.remove(i)[j]@ == c) ==> (exists|j: int|
            0 <= j < s.len() && s[j]@ == c),
        (exists|j: int| 0 <= j < s.len() && j != i && s[j]@ == c) ==> (exists|j: int|
            0 <= j < s.remove(i).len() && s.remove(i)[j]@ == c),
{
    let t = s.remove(i);
    if exists|j: int| 0 <= j < t.len() && t[j]@ == c {
        let j = choose|j: int| 0 <= j < t.len() && t[j]@ == c;
        if j < i {
            assert(s[j]@ == c);
        } else {
            assert(s[j + 1]@ == c);
        }
    }
    if exists|j: int| 0 <= j < s.len() && j != i && s[j]@ == c {
        let j = choose|j: int| 0 <= j < s.len() && j != i && s[j]@ == c;
        if j < i {
            assert(t[j]@ == c);
        } else {
            assert(t[j - 1]@ == c);
        }
    }
}

/// Pushing a fresh entry keeps the table well-formed and inserts exactly
/// that number into the map view.
proof fn lemma_pending_insert(d0: MsgDispatcher, d2: MsgDispatcher, e: PendingRsp)
    requires
        d0.wf(),
        pending_entry_wf(e),
        !d0.has_pending(e.seq),
        d2.pending@ == d0.pending@.push(e),
        d2.cmd_subs == d0.cmd_subs,
        d2.timer_installed == d0.timer_installed,
    ensures
        d2.wf(),
        d2.pending_map() == d0.pending_map().insert(e.seq, e.request),
{
    let n = d0.pending@.len() as int;
    assert(forall|i: int| 0 <= i < n ==> d2.pending@[i] == d0.pending@[i]);
    assert(d2.pending@[n] == e);
    assert forall|i: int, j: int|
        0 <= i < j < d2.pending@.len() implies d2.pending@[i].seq != d2.pending@[j].seq by {
        if j == n {
            assert(d0.pending@[i].seq != e.seq);
        }
    }
    assert forall|i: int| 0 <= i < d2.pending@.len() implies pending_entry_wf(
        #[trigger] d2.pending@[i],
    ) by {
        if i < n {
            assert(d2.pending@[i] == d0.pending@[i]);
        }
    }
    assert_maps_equal!(
        d2.pending_map(),
        d0.pending_map().insert(e.seq, e.request),
        s => {
            if s == e.seq {
                assert(d2.pending@[n].seq == s);
                assert(d2.has_pending(s));
                let k = d2.pending_idx(s);
                assert(d2.pending@[k].seq == s);
                assert(k == n);
            } else {
                if d0.has_pending(s) {
                    let i = d0.pending_idx(s);
                    assert(d0.pending@[i].seq == s);
                    assert(d2.pending@[i].seq == s);
                    assert(d2.has_pending(s));
                    let k = d2.pending_idx(s);
                    assert(d2.pending@[k].seq == s);
                    assert(k == i);
                }
                if d2.has_pending(s) {
                    let i = d2.pending_idx(s);
                    assert(d2.pending@[i].seq == s);
                    assert(i != n);
                    assert(d0.pending@[i].seq == s);
                    assert(d0.has_pending(s));
                    let k = d0.pending_idx(s);
                    assert(k == i);
                }
            }
        }
    );
}

/// Removing the entry at the index of `seq` removes exactly `seq` from the
/// map view.
proof fn lemma_pending_remove(d0: MsgDispatcher, d2: MsgDispatcher, i: int, seq: u32)
    requires
        d0.wf(),
        0 <= i < d0.pending@.len(),
        d0.pending@[i].seq == seq,
        i == d0.pending_idx(seq),
        d2.pending@ == d0.pending@.remove(i),
        d2.cmd_subs == d0.cmd_subs,
        d2.timer_installed == d0.timer_installed,
    ensures
        d2.wf(),
        d2.pending_map() == d0.pending_map().remove(seq),
{
    assert forall|x: int, y: int|
        0 <= x < y < d2.pending@.len() implies d2.pending@[x].seq != d2.pending@[y].seq by {
        let sx = if x < i { d0.pending@[x] } else { d0.pending@[x + 1] };
        let sy = if y < i { d0.pending@[y] } else { d0.pending@[y + 1] };
        assert(d2.pending@[x] == sx && d2.pending@[y] == sy);
    }
    assert forall|x: int| 0 <= x < d2.pending@.len() implies pending_entry_wf(
        #[trigger] d2.pending@[x],
    ) by {
        let sx = if x < i { d0.pending@[x] } else { d0.pending@[x + 1] };
        assert(d2.pending@[x] == sx);
    }
    assert_maps_equal!(
        d2.pending_map(),
        d0.pending_map().remove(seq),
        s => {
            if s != seq {
                if d0.has_pending(s) {
                    let j = d0.pending_idx(s);
                    assert(d0.pending@[j].seq == s);
                    assert(j != i);
                    let j2 = if j < i { j } else { j - 1 };
                    assert(d2.pending@[j2] == d0.pending@[j]);
                    assert(d2.has_pending(s));
                    let k = d2.pending_idx(s);
                    assert(d2.pending@[k].seq == s);
                    assert(k == j2);
                }
                if d2.has_pending(s) {
                    let j = d2.pending_idx(s);
                    assert(d2.pending@[j].seq == s);
                    let jorig = if j < i { j } else { j + 1 };
                    assert(d0.pending@[jorig] == d2.pending@[j]);
                    assert(d0.has_pending(s));
                    let k = d0.pending_idx(s);
                    assert(k == jorig);
                }
            } else {
                assert forall|j: int| 0 <= j < d2.pending@.len() implies d2.pending@[j].seq != seq by {
                    let sj = if j < i { d0.pending@[j] } else { d0.pending@[j + 1] };
                    assert(d2.pending@[j] == sj);
                }
            }
        }
    );
}

} // verus!

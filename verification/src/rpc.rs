//! The facade: one connection, one dispatcher, a monotone sequence counter
//! and a readiness flag.  It mints sequence numbers, composes and sends
//! outbound frames, routes inbound frames, and drives timeout, retry and
//! cancellation for the requests it holds in flight.

use vstd::prelude::*;
use vstd::bytes::{spec_u16_to_le_bytes, spec_u32_to_le_bytes};
use vstd::utf8::encode_utf8;

use crate::codec;
use crate::connection::{Connection, DefaultConnection};
use crate::dispatcher::{DispatchStep, MsgDispatcher, PendingRsp};
use crate::msg::{
    spec_has_flag, MsgWrapper, TYPE_COMMAND, TYPE_NEED_RSP, TYPE_NO_SUCH_CMD, TYPE_PING,
    TYPE_PONG, TYPE_RESPONSE,
};
use crate::request::{FinallyType, Request, RspStep};

verus! {

/// The sequence number minted after `s`: the next integer, wrapping at the
/// 32-bit boundary.
pub open spec fn spec_next_seq(s: u32) -> u32 {
    if s == u32::MAX {
        0
    } else {
        (s + 1) as u32
    }
}

/// The type byte of the frame sent for a request: a command, with the ping
/// and need-response bits as the request asks.
pub open spec fn outbound_type(r: Request) -> u8 {
    TYPE_COMMAND | (if r.is_ping {
        TYPE_PING
    } else {
        0
    }) | (if r.need_rsp {
        TYPE_NEED_RSP
    } else {
        0
    })
}

/// The payload bytes sent for a request: its payload, or nothing.
pub open spec fn outbound_payload(r: Request) -> Seq<u8> {
    match r.payload {
        Some(p) => p@,
        None => Seq::<u8>::empty(),
    }
}

/// The exact frame sent for a request.
pub open spec fn outbound_frame(r: Request) -> Seq<u8> {
    spec_u32_to_le_bytes(r.seq) + spec_u16_to_le_bytes(encode_utf8(r.cmd@).len() as u16)
        + encode_utf8(r.cmd@) + seq![outbound_type(r)] + outbound_payload(r)
}

/// The exact frame of a plain response carrying `data` under `seq`.
pub open spec fn rsp_frame(seq: u32, data: Seq<u8>) -> Seq<u8> {
    spec_u32_to_le_bytes(seq) + spec_u16_to_le_bytes(0) + seq![TYPE_RESPONSE] + data
}

/// The exact frame of the `NoSuchCmd` reply under `seq`: empty command,
/// empty payload.
pub open spec fn no_such_cmd_frame(seq: u32) -> Seq<u8> {
    spec_u32_to_le_bytes(seq) + spec_u16_to_le_bytes(0) + seq![(TYPE_RESPONSE
        | TYPE_NO_SUCH_CMD)]
}

/// What became of a call at send time.
pub enum CallResult {
    /// The call reached a terminal outcome at once; here is the record.
    Finished(Request),
    /// The call is in flight under `seq`.  When a timer capability is
    /// installed, `timer` asks the driver to arm a one-shot timer with the
    /// request's deadline and report expiry with [`Rpc::on_timeout`].
    InFlight { seq: u32, timer: Option<u32> },
}

/// What one inbound package amounted to.
pub enum Incoming {
    /// The package did not parse as a frame; dropped.
    MalformedFrame,
    /// A ping: the pong reply is already queued on the connection.
    PongSent,
    /// A subscribed command: the driver runs its handler on this message
    /// and answers through [`Rpc::send_reply`].
    RunHandler(MsgWrapper),
    /// An unknown command that wanted a response: the `NoSuchCmd` reply is
    /// already queued.
    NoSuchCmdSent,
    /// An unknown command that wanted no response; dropped.
    CommandDropped,
    /// A response matched this request, whose payload must still pass the
    /// user codec: report with [`Request::on_decoded`].
    NeedsDecode { request: Request, msg: MsgWrapper },
    /// A response matched and the request reached its terminal outcome.
    Completed(Request),
    /// A response with no pending entry, likely late after a timeout;
    /// dropped.
    LateResponse,
    /// Neither command nor response; dropped.
    UnknownType,
}

/// What a timer expiry amounted to.
pub enum TimeoutStep {
    /// Nothing was pending under that number; the response or a
    /// cancellation won the race.
    Stale,
    /// The request was sent again under a fresh number; arm a timer again
    /// when asked.
    Retried { seq: u32, timer: Option<u32> },
    /// Retries were exhausted; the request ended in `Timeout`.
    Completed(Request),
}

/// The facade.
pub struct Rpc {
    /// The transport seam frames are queued on.
    pub connection: DefaultConnection,
    /// Command subscriptions and the pending-response table.
    pub dispatcher: MsgDispatcher,
    /// The sequence counter; the next call is sent under this number.
    pub seq: u32,
    /// Admits outbound calls; transport glue raises it on connect.
    pub is_ready: bool,
    /// Mints the identity of each request created here.
    pub next_request_id: u64,
    /// Identities canceled before their call ran.
    pub canceled_ids: Vec<u64>,
}

impl Rpc {
    /// The facade's tables are in shape.
    pub open spec fn wf(self) -> bool {
        self.dispatcher.wf()
    }

    /// An identity was canceled before its call.
    pub open spec fn has_canceled_id(self, id: u64) -> bool {
        exists|i: int| 0 <= i < self.canceled_ids@.len() && self.canceled_ids@[i] == id
    }

    /// A facade over the given connection, or over a fresh one.
    pub fn new(connection: Option<DefaultConnection>) -> (r: Rpc)
        ensures
            r.wf(),
            r.connection.outgoing@ == (match connection {
                Some(c) => c.outgoing@,
                None => Seq::<Vec<u8>>::empty(),
            }),
            r.dispatcher.cmd_subs@ == Seq::<String>::empty(),
            r.dispatcher.pending@ == Seq::<PendingRsp>::empty(),
            !r.dispatcher.timer_installed,
            r.seq == 0,
            !r.is_ready,
            r.next_request_id == 0,
            r.canceled_ids@ == Seq::<u64>::empty(),
    {
        let connection = match connection {
            Some(c) => c,
            None => DefaultConnection::new(),
        };
        Rpc {
            connection,
            dispatcher: MsgDispatcher::new(),
            seq: 0,
            is_ready: false,
            next_request_id: 0,
            canceled_ids: Vec::new(),
        }
    }

    /// Mint the sequence number for the next send: the counter's value,
    /// which then advances by one, wrapping at the 32-bit boundary.
    pub fn make_seq(&mut self) -> (r: u32)
        ensures
            r == old(self).seq,
            *final(self) == (Rpc { seq: spec_next_seq(old(self).seq), ..*old(self) }),
    {
        let seq = self.seq;
        self.seq = if self.seq == u32::MAX {
            0
        } else {
            self.seq + 1
        };
        seq
    }

    /// Whether outbound calls are let through.
    pub fn is_ready(&self) -> (r: bool)
        ensures
            r == self.is_ready,
    {
        self.is_ready
    }

    /// Hold back or admit outbound calls.
    pub fn set_ready(&mut self, ready: bool)
        ensures
            *final(self) == (Rpc { is_ready: ready, ..*old(self) }),
    {
        self.is_ready = ready;
    }

    /// Record that the driver provides a timer: in-flight calls will ask
    /// for one-shot timers and expect [`Rpc::on_timeout`] on expiry.
    /// Without one, deadlines never fire and pending entries stay until
    /// answered.
    pub fn set_timer(&mut self)
        ensures
            *final(self) == (Rpc {
                dispatcher: (MsgDispatcher { timer_installed: true, ..old(self).dispatcher }),
                ..*old(self)
            }),
    {
        self.dispatcher.set_timer_impl();
    }

    /// Subscribe a command name: inbound commands under it are handed to
    /// the driver's handler.
    pub fn subscribe(&mut self, cmd: String)
        requires
            old(self).wf(),
        ensures
            final(self).wf(),
            forall|c: Seq<char>|
                final(self).dispatcher.has_sub(c) == (old(self).dispatcher.has_sub(c) || c
                    == cmd@),
            final(self).dispatcher.pending == old(self).dispatcher.pending,
            final(self).dispatcher.timer_installed == old(self).dispatcher.timer_installed,
            final(self).connection == old(self).connection,
            final(self).seq == old(self).seq,
            final(self).is_ready == old(self).is_ready,
            final(self).next_request_id == old(self).next_request_id,
            final(self).canceled_ids == old(self).canceled_ids,
    {
        self.dispatcher.subscribe_cmd(cmd);
    }

    /// Unsubscribe a command name; later commands under it are answered
    /// with `NoSuchCmd` when they want a response.
    pub fn unsubscribe(&mut self, cmd: &String)
        requires
            old(self).wf(),
        ensures
            final(self).wf(),
            forall|c: Seq<char>|
                final(self).dispatcher.has_sub(c) == (old(self).dispatcher.has_sub(c) && c
                    != cmd@),
            final(self).dispatcher.pending == old(self).dispatcher.pending,
            final(self).dispatcher.timer_installed == old(self).dispatcher.timer_installed,
            final(self).connection == old(self).connection,
            final(self).seq == old(self).seq,
            final(self).is_ready == old(self).is_ready,
            final(self).next_request_id == old(self).next_request_id,
            final(self).canceled_ids == old(self).canceled_ids,
    {
        self.dispatcher.unsubscribe_cmd(cmd);
    }

    /// A fresh request bound to this facade under a new identity.
    pub fn create_request(&mut self) -> (r: Request)
        ensures
            *final(self) == (Rpc {
                next_request_id: (if old(self).next_request_id == u64::MAX {
                    0
                } else {
                    (old(self).next_request_id + 1) as u64
                }),
                ..*old(self)
            }),
            r == (Request { binding: Some(old(self).next_request_id), ..r }),
            r.cmd@ == Seq::<char>::empty(),
            r.payload is None,
            !r.need_rsp,
            !r.is_ping,
            !r.canceled,
            !r.waiting_rsp,
            r.timeout_ms == crate::request::DEFAULT_TIMEOUT_MS,
            r.retry_count == 0,
            r.finally_type is None,
            r.sends == 0,
            r.timeouts == 0,
            r.seq == 0,
    {
        let mut r = Request::new();
        r.binding = Some(self.next_request_id);
        self.next_request_id = if self.next_request_id == u64::MAX {
            0
        } else {
            self.next_request_id + 1
        };
        r
    }

    /// A fresh request with its command name set.
    pub fn cmd(&mut self, cmd: String) -> (r: Request)
        ensures
            *final(self) == (Rpc {
                next_request_id: (if old(self).next_request_id == u64::MAX {
                    0
                } else {
                    (old(self).next_request_id + 1) as u64
                }),
                ..*old(self)
            }),
            r == (Request { binding: Some(old(self).next_request_id), cmd: r.cmd, ..r }),
            r.cmd == cmd,
            r.payload is None,
            !r.need_rsp,
            !r.is_ping,
            !r.canceled,
            !r.waiting_rsp,
            r.timeout_ms == crate::request::DEFAULT_TIMEOUT_MS,
            r.retry_count == 0,
            r.finally_type is None,
            r.sends == 0,
            r.timeouts == 0,
            r.seq == 0,
    {
        let mut r = self.create_request();
        r.cmd(cmd);
        r
    }

    /// A fresh liveness probe.
    pub fn ping(&mut self) -> (r: Request)
        ensures
            *final(self) == (Rpc {
                next_request_id: (if old(self).next_request_id == u64::MAX {
                    0
                } else {
                    (old(self).next_request_id + 1) as u64
                }),
                ..*old(self)
            }),
            r.binding == Some(old(self).next_request_id),
            r.is_ping,
            r.cmd@ == Seq::<char>::empty(),
            r.payload is None,
            !r.need_rsp,
            !r.canceled,
            !r.waiting_rsp,
            r.retry_count == 0,
            r.finally_type is None,
            r.sends == 0,
            r.timeouts == 0,
            r.timeout_ms == crate::request::DEFAULT_TIMEOUT_MS,
            r.seq == 0,
    {
        let mut r = self.create_request();
        r.ping();
        r
    }

    /// A fresh liveness probe carrying a string payload.
    pub fn ping_msg(&mut self, payload: &str) -> (r: Request)
        ensures
            *final(self) == (Rpc {
                next_request_id: (if old(self).next_request_id == u64::MAX {
                    0
                } else {
                    (old(self).next_request_id + 1) as u64
                }),
                ..*old(self)
            }),
            r.binding == Some(old(self).next_request_id),
            r.is_ping,
            r.cmd@ == Seq::<char>::empty(),
            r.payload is Some,
            r.payload.unwrap()@ == crate::payload::json_of_str(payload@),
            !r.need_rsp,
            !r.canceled,
            !r.waiting_rsp,
            r.retry_count == 0,
            r.finally_type is None,
            r.sends == 0,
            r.timeouts == 0,
            r.timeout_ms == crate::request::DEFAULT_TIMEOUT_MS,
            r.seq == 0,
    {
        let mut r = self.ping();
        r.msg(payload);
        r
    }

    /// The connection, for transport glue that wants to inspect the queue.
    pub fn get_connection(&self) -> (r: &DefaultConnection)
        ensures
            *r == self.connection,
    {
        &self.connection
    }

    /// Hand the queued outbound packages to the transport, oldest first.
    pub fn take_outgoing(&mut self) -> (r: Vec<Vec<u8>>)
        ensures
            r@ == old(self).connection.outgoing@,
            *final(self) == (Rpc {
                connection: (DefaultConnection { outgoing: final(self).connection.outgoing }),
                ..*old(self)
            }),
            final(self).connection.outgoing@ == Seq::<Vec<u8>>::empty(),
    {
        self.connection.take_outgoing()
    }
}

impl Rpc {
    /// Whether an identity is recorded as canceled.
    fn id_canceled(&self, id: u64) -> (r: bool)
        ensures
            r == self.has_canceled_id(id),
    {
        let n = self.canceled_ids.len();
        for i in 0..n
            invariant
                n == self.canceled_ids@.len(),
                forall|j: int| 0 <= j < i ==> self.canceled_ids@[j] != id,
        {
            if self.canceled_ids[i] == id {
                return true;
            }
        }
        false
    }

    /// Compose the outbound frame for a request, send it, and register the
    /// pending-response entry exactly when a response is expected.  The
    /// request comes back only when it is fire-and-forget; otherwise the
    /// pending table keeps it alive until its response, deadline or
    /// cancellation.
    pub fn send_request(&mut self, request: Request) -> (rest: Option<Request>)
        requires
            old(self).wf(),
            request.waiting_rsp,
            request.wf(),
            encode_utf8(request.cmd@).len() <= 0xFFFF,
        ensures
            final(self).wf(),
            final(self).connection.outgoing@.len() == old(self).connection.outgoing@.len() + 1,
            final(self).connection.outgoing@.last()@ == outbound_frame(request),
            forall|i: int|
                0 <= i < old(self).connection.outgoing@.len() ==> final(self).connection.outgoing@[i] == old(self).connection.outgoing@[i],
            final(self).dispatcher.cmd_subs == old(self).dispatcher.cmd_subs,
            final(self).dispatcher.timer_installed == old(self).dispatcher.timer_installed,
            final(self).seq == old(self).seq,
            final(self).is_ready == old(self).is_ready,
            final(self).next_request_id == old(self).next_request_id,
            final(self).canceled_ids == old(self).canceled_ids,
            request.need_rsp ==> rest is None && final(self).dispatcher.pending_map() == old(self).dispatcher.pending_map().insert(
                request.seq,
                (Request { sends: crate::request::sat_inc(request.sends), ..request }),
            ),
            !request.need_rsp ==> rest == Some(
                (Request { sends: crate::request::sat_inc(request.sends), ..request }),
            ) && final(self).dispatcher.pending == old(self).dispatcher.pending,
    {
        let mut req = request;
        if req.sends < u64::MAX {
            req.sends = req.sends + 1;
        }
        let t: u8 = TYPE_COMMAND | (if req.is_ping {
            TYPE_PING
        } else {
            0
        }) | (if req.need_rsp {
            TYPE_NEED_RSP
        } else {
            0
        });
        proof {
            assert((1u8 | 8u8 | 4u8) < 64 && (1u8 | 8u8 | 0u8) < 64 && (1u8 | 0u8 | 4u8) < 64 && (
            1u8 | 0u8 | 0u8) < 64) by (bit_vector);
            assert(t == outbound_type(request));
        }
        let msg = MsgWrapper {
            seq: req.seq,
            type_: t,
            cmd: req.cmd.clone(),
            data: match &req.payload {
                Some(p) => vstd::slice::slice_to_vec(p.as_slice()),
                None => Vec::new(),
            },
            request_payload: None,
        };
        proof {
            assert(msg.cmd_bytes() == encode_utf8(request.cmd@));
        }
        let frame = codec::serialize(&msg);
        proof {
            assert(frame@ =~= outbound_frame(request));
        }
        self.connection.send_package(frame);
        if req.need_rsp {
            self.dispatcher.subscribe_rsp(req);
            None
        } else {
            Some(req)
        }
    }

    /// Run a call: check cancellation and readiness, mint the sequence
    /// number, send the frame, and either finish at once (canceled, not
    /// ready, or fire-and-forget) or leave the request in flight.
    pub fn call(&mut self, request: Request) -> (r: CallResult)
        requires
            old(self).wf(),
            !request.waiting_rsp,
            !request.finished(),
            encode_utf8(request.cmd@).len() <= 0xFFFF,
        ensures
            final(self).wf(),
            ({
                let armed = Request { waiting_rsp: true, ..request };
                let canceled_now = request.canceled || (request.binding is Some && old(self).has_canceled_id(request.binding.unwrap()));
                let sent = Request {
                    seq: old(self).seq,
                    sends: crate::request::sat_inc(armed.sends),
                    ..armed
                };
                if canceled_now {
                    &&& r matches CallResult::Finished(f) && f == armed.spec_finish(
                        FinallyType::Canceled,
                    )
                    &&& *final(self) == *old(self)
                } else if !old(self).is_ready {
                    &&& r matches CallResult::Finished(f) && f == armed.spec_finish(
                        FinallyType::RpcNotReady,
                    )
                    &&& *final(self) == *old(self)
                } else {
                    &&& final(self).seq == spec_next_seq(old(self).seq)
                    &&& final(self).connection.outgoing@.len() == old(self).connection.outgoing@.len() + 1
                    &&& final(self).connection.outgoing@.last()@ == outbound_frame(sent)
                    &&& forall|i: int|
                        0 <= i < old(self).connection.outgoing@.len() ==> final(self).connection.outgoing@[i] == old(self).connection.outgoing@[i]
                    &&& final(self).dispatcher.cmd_subs == old(self).dispatcher.cmd_subs
                    &&& final(self).dispatcher.timer_installed == old(self).dispatcher.timer_installed
                    &&& final(self).is_ready == old(self).is_ready
                    &&& final(self).next_request_id == old(self).next_request_id
                    &&& final(self).canceled_ids == old(self).canceled_ids
                    &&& if request.need_rsp {
                        &&& r matches CallResult::InFlight { seq, timer } && seq == old(self).seq
                            && timer == (if old(self).dispatcher.timer_installed {
                            Some(request.timeout_ms)
                        } else {
                            Option::<u32>::None
                        })
                        &&& final(self).dispatcher.pending_map() == old(self).dispatcher.pending_map().insert(old(self).seq, sent)
                    } else {
                        &&& r matches CallResult::Finished(f) && f == sent.spec_finish(
                            FinallyType::NoNeedRsp,
                        )
                        &&& final(self).dispatcher.pending == old(self).dispatcher.pending
                    }
                }
            }),
    {
        let mut req = request;
        req.waiting_rsp = true;
        let canceled_now = req.is_canceled() || match req.get_rpc() {
            Some(id) => self.id_canceled(id),
            None => false,
        };
        if canceled_now {
            req.finish(FinallyType::Canceled);
            return CallResult::Finished(req);
        }
        if !self.is_ready {
            req.finish(FinallyType::RpcNotReady);
            return CallResult::Finished(req);
        }
        let seq = self.make_seq();
        req.seq = seq;
        let ms = req.timeout_ms;
        let timer_installed = self.dispatcher.timer_installed;
        match self.send_request(req) {
            Some(mut rest) => {
                rest.finish(FinallyType::NoNeedRsp);
                CallResult::Finished(rest)
            },
            None => CallResult::InFlight {
                seq,
                timer: if timer_installed {
                    Some(ms)
                } else {
                    None
                },
            },
        }
    }
}

impl Request {
    /// A fresh request bound to the given facade; the same as
    /// [`Rpc::create_request`].
    pub fn create_with_rpc(rpc: &mut Rpc) -> (r: Request)
        ensures
            *final(rpc) == (Rpc {
                next_request_id: (if old(rpc).next_request_id == u64::MAX {
                    0
                } else {
                    (old(rpc).next_request_id + 1) as u64
                }),
                ..*old(rpc)
            }),
            r.binding == Some(old(rpc).next_request_id),
            r.cmd@ == Seq::<char>::empty(),
            r.payload is None,
            !r.need_rsp,
            !r.is_ping,
            !r.canceled,
            !r.waiting_rsp,
            r.timeout_ms == crate::request::DEFAULT_TIMEOUT_MS,
            r.retry_count == 0,
            r.finally_type is None,
            r.sends == 0,
            r.timeouts == 0,
            r.seq == 0,
    {
        rpc.create_request()
    }

    /// Bind this request to a facade: it takes a fresh identity there, so
    /// cancel groups can reach it through that facade.
    pub fn rpc(&mut self, rpc: &mut Rpc)
        ensures
            *final(rpc) == (Rpc {
                next_request_id: (if old(rpc).next_request_id == u64::MAX {
                    0
                } else {
                    (old(rpc).next_request_id + 1) as u64
                }),
                ..*old(rpc)
            }),
            *final(self) == (Request {
                binding: Some(old(rpc).next_request_id),
                ..*old(self)
            }),
    {
        let fresh = rpc.create_request();
        self.binding = fresh.get_rpc();
    }

    /// The terminal builder action, run against an explicit facade: the
    /// same checks, mint, send and outcome as [`Rpc::call`].
    pub fn call_with_rpc(self, rpc: &mut Rpc) -> (r: CallResult)
        requires
            old(rpc).wf(),
            !self.waiting_rsp,
            !self.finished(),
            encode_utf8(self.cmd@).len() <= 0xFFFF,
        ensures
            final(rpc).wf(),
            ({
                let armed = Request { waiting_rsp: true, ..self };
                let canceled_now = self.canceled || (self.binding is Some && old(rpc).has_canceled_id(self.binding.unwrap()));
                let sent = Request {
                    seq: old(rpc).seq,
                    sends: crate::request::sat_inc(armed.sends),
                    ..armed
                };
                if canceled_now {
                    &&& r matches CallResult::Finished(f) && f == armed.spec_finish(
                        FinallyType::Canceled,
                    )
                    &&& *final(rpc) == *old(rpc)
                } else if !old(rpc).is_ready {
                    &&& r matches CallResult::Finished(f) && f == armed.spec_finish(
                        FinallyType::RpcNotReady,
                    )
                    &&& *final(rpc) == *old(rpc)
                } else if self.need_rsp {
                    &&& r matches CallResult::InFlight { seq, timer } && seq == old(rpc).seq
                    &&& final(rpc).dispatcher.pending_map() == old(rpc).dispatcher.pending_map().insert(old(rpc).seq, sent)
                    &&& final(rpc).connection.outgoing@.last()@ == outbound_frame(sent)
                    &&& final(rpc).connection.outgoing@.len() == old(rpc).connection.outgoing@.len() + 1
                } else {
                    &&& r matches CallResult::Finished(f) && f == sent.spec_finish(
                        FinallyType::NoNeedRsp,
                    )
                    &&& final(rpc).connection.outgoing@.last()@ == outbound_frame(sent)
                    &&& final(rpc).connection.outgoing@.len() == old(rpc).connection.outgoing@.len() + 1
                }
            }),
    {
        rpc.call(self)
    }
}

impl Rpc {
    /// Route one inbound package, as delivered by the transport: parse it,
    /// answer pings and unknown commands on the spot, hand subscribed
    /// commands to the driver, and match responses to their pending
    /// request by sequence number.
    pub fn on_recv_package(&mut self, package: Vec<u8>) -> (r: Incoming)
        requires
            old(self).wf(),
        ensures
            final(self).wf(),
            final(self).seq == old(self).seq,
            final(self).is_ready == old(self).is_ready,
            final(self).next_request_id == old(self).next_request_id,
            final(self).canceled_ids == old(self).canceled_ids,
            final(self).dispatcher.cmd_subs == old(self).dispatcher.cmd_subs,
            final(self).dispatcher.timer_installed == old(self).dispatcher.timer_installed,
            !codec::frame_ok(package@) ==> r is MalformedFrame && *final(self) == *old(self),
            ({
                let b = package@;
                let ty = codec::frame_type(b);
                let s = codec::frame_seq(b);
                let is_cmd = spec_has_flag(ty, TYPE_COMMAND);
                let is_rsp = spec_has_flag(ty, TYPE_RESPONSE);
                codec::frame_ok(b) ==> {
                    &&& is_cmd && spec_has_flag(ty, TYPE_PING) ==> r is PongSent && final(self).dispatcher == old(self).dispatcher && final(self).connection.outgoing@.len() == old(self).connection.outgoing@.len() + 1
                        && final(self).connection.outgoing@.last()@ == b.update(
                        6 + codec::frame_cmd_len(b),
                        TYPE_RESPONSE | TYPE_PONG,
                    )
                    &&& is_cmd && !spec_has_flag(ty, TYPE_PING) && old(self).dispatcher.has_sub(
                        codec::frame_cmd(b),
                    ) ==> (r matches Incoming::RunHandler(m) && codec::decodes_to(b, m) && m.wf())
                        && *final(self) == *old(self)
                    &&& is_cmd && !spec_has_flag(ty, TYPE_PING) && !old(self).dispatcher.has_sub(
                        codec::frame_cmd(b),
                    ) && spec_has_flag(ty, TYPE_NEED_RSP) ==> r is NoSuchCmdSent && final(self).dispatcher == old(self).dispatcher && final(self).connection.outgoing@.len() == old(self).connection.outgoing@.len() + 1
                        && final(self).connection.outgoing@.last()@ == no_such_cmd_frame(s)
                    &&& is_cmd && !spec_has_flag(ty, TYPE_PING) && !old(self).dispatcher.has_sub(
                        codec::frame_cmd(b),
                    ) && !spec_has_flag(ty, TYPE_NEED_RSP) ==> r is CommandDropped && *final(self)
                        == *old(self)
                    &&& !is_cmd && is_rsp && old(self).dispatcher.has_pending(s) ==> final(self).connection == old(self).connection && final(self).dispatcher.pending_map()
                        == old(self).dispatcher.pending_map().remove(s) && ({
                        let entry = old(self).dispatcher.pending_map()[s];
                        if entry.canceled {
                            r matches Incoming::Completed(c) && c == entry.spec_finish(
                                FinallyType::Canceled,
                            )
                        } else if spec_has_flag(ty, TYPE_NO_SUCH_CMD) {
                            r matches Incoming::Completed(c) && c == entry.spec_finish(
                                FinallyType::NoSuchCmd,
                            )
                        } else {
                            r matches Incoming::NeedsDecode { request, msg } && request == entry
                                && codec::decodes_to(b, msg) && request.waiting_rsp
                                && request.wf()
                        }
                    })
                    &&& !is_cmd && is_rsp && !old(self).dispatcher.has_pending(s)
                        ==> r is LateResponse && *final(self) == *old(self)
                    &&& !is_cmd && !is_rsp ==> r is UnknownType && *final(self) == *old(self)
                }
            }),
    {
        let msg = match codec::deserialize(&package) {
            Some(m) => m,
            None => {
                return Incoming::MalformedFrame;
            },
        };
        let ghost b = package@;
        let ghost decoded = msg;
        match self.dispatcher.dispatch(msg) {
            DispatchStep::PongReply(p) => {
                proof {
                    assert((TYPE_RESPONSE | TYPE_PONG) < 64) by (bit_vector);
                    codec::lemma_decode_reencode(b, decoded);
                    codec::lemma_serialize_update_type(decoded, TYPE_RESPONSE | TYPE_PONG);
                    vstd::utf8::decode_utf8_encode_utf8(
                        b.subrange(6, 6 + codec::frame_cmd_len(b)),
                    );
                    assert(decoded.cmd_bytes() =~= b.subrange(6, 6 + codec::frame_cmd_len(b)));
                }
                let frame = codec::serialize(&p);
                self.connection.send_package(frame);
                Incoming::PongSent
            },
            DispatchStep::RunHandler(m) => Incoming::RunHandler(m),
            DispatchStep::NoSuchCmdReply(p) => {
                let frame = codec::serialize(&p);
                proof {
                    assert(p.cmd_bytes() =~= Seq::<u8>::empty());
                    assert(frame@ =~= no_such_cmd_frame(codec::frame_seq(b)));
                }
                self.connection.send_package(frame);
                Incoming::NoSuchCmdSent
            },
            DispatchStep::CommandDropped => Incoming::CommandDropped,
            DispatchStep::ResponseMatched { request, msg } => {
                let mut request = request;
                match request.on_response(&msg) {
                    RspStep::Done => Incoming::Completed(request),
                    RspStep::NeedsPayload => Incoming::NeedsDecode { request, msg },
                }
            },
            DispatchStep::LateResponse => Incoming::LateResponse,
            DispatchStep::UnknownType => Incoming::UnknownType,
        }
    }

    /// Answer a handled command: when the command asked for a response and
    /// the handler produced one, the reply goes out under the command's
    /// sequence number; otherwise nothing is sent.
    pub fn send_reply(&mut self, req_msg: &MsgWrapper, data: Option<Vec<u8>>) -> (sent: bool)
        ensures
            sent == (spec_has_flag(req_msg.type_, crate::msg::TYPE_NEED_RSP) && data is Some),
            !sent ==> *final(self) == *old(self),
            sent ==> *final(self) == (Rpc {
                connection: final(self).connection,
                ..*old(self)
            }) && final(self).connection.outgoing@.len() == old(self).connection.outgoing@.len()
                + 1 && final(self).connection.outgoing@.last()@ == rsp_frame(
                req_msg.seq,
                data.unwrap()@,
            ) && forall|i: int|
                0 <= i < old(self).connection.outgoing@.len() ==> final(self).connection.outgoing@[i] == old(self).connection.outgoing@[i],
    {
        if crate::msg::has_flag(req_msg.type_, TYPE_NEED_RSP) {
            match data {
                Some(d) => {
                    let ghost dv = d@;
                    let reply = MsgWrapper::make_rsp(req_msg.seq, d);
                    let frame = codec::serialize(&reply);
                    proof {
                        assert(reply.cmd_bytes() =~= Seq::<u8>::empty());
                        assert(frame@ =~= rsp_frame(req_msg.seq, dv));
                    }
                    self.connection.send_package(frame);
                    true
                },
                None => false,
            }
        } else {
            false
        }
    }

    /// Answer a handled command with a string value, sent as JSON text.
    pub fn send_reply_str(&mut self, req_msg: &MsgWrapper, value: &str) -> (sent: bool)
        ensures
            sent == spec_has_flag(req_msg.type_, crate::msg::TYPE_NEED_RSP),
            !sent ==> *final(self) == *old(self),
            sent ==> *final(self) == (Rpc {
                connection: final(self).connection,
                ..*old(self)
            }) && final(self).connection.outgoing@.len() == old(self).connection.outgoing@.len()
                + 1 && final(self).connection.outgoing@.last()@ == rsp_frame(
                req_msg.seq,
                crate::payload::json_of_str(value@),
            ),
    {
        let data = crate::payload::json_encode_str(value);
        self.send_reply(req_msg, Some(data))
    }

    /// Handle the expiry of the one-shot timer armed for `seq`: when the
    /// entry is still pending, count the expiry and either send the request
    /// again under a fresh number (retries left, or unbounded) or end it in
    /// `Timeout`.  When the response or a cancellation already removed the
    /// entry, the expiry is a no-op.
    pub fn on_timeout(&mut self, seq: u32) -> (r: TimeoutStep)
        requires
            old(self).wf(),
        ensures
            final(self).wf(),
            final(self).is_ready == old(self).is_ready,
            final(self).next_request_id == old(self).next_request_id,
            final(self).canceled_ids == old(self).canceled_ids,
            final(self).dispatcher.cmd_subs == old(self).dispatcher.cmd_subs,
            final(self).dispatcher.timer_installed == old(self).dispatcher.timer_installed,
            !old(self).dispatcher.has_pending(seq) ==> r is Stale && *final(self) == *old(self),
            old(self).dispatcher.has_pending(seq) ==> ({
                let entry = old(self).dispatcher.pending_map()[seq];
                let stepped = entry.spec_timeout_step();
                if entry.spec_timeout_retries() {
                    &&& r matches TimeoutStep::Retried { seq: s2, timer } && s2 == old(self).seq
                        && timer == (if old(self).dispatcher.timer_installed {
                        Some(entry.timeout_ms)
                    } else {
                        Option::<u32>::None
                    })
                    &&& final(self).seq == spec_next_seq(old(self).seq)
                    &&& final(self).dispatcher.pending_map() == old(self).dispatcher.pending_map().remove(seq).insert(
                        old(self).seq,
                        (Request { seq: old(self).seq, ..stepped }),
                    )
                    &&& final(self).connection.outgoing@.len() == old(self).connection.outgoing@.len() + 1
                    &&& final(self).connection.outgoing@.last()@ == outbound_frame(
                        (Request { seq: old(self).seq, ..stepped }),
                    )
                } else {
                    &&& r matches TimeoutStep::Completed(c) && c == stepped
                        && c.finally_type == Some(FinallyType::Timeout)
                    &&& final(self).dispatcher.pending_map() == old(self).dispatcher.pending_map().remove(seq)
                    &&& final(self).connection == old(self).connection
                    &&& final(self).seq == old(self).seq
                }
            }),
    {
        let mut req = match self.dispatcher.take_pending(seq) {
            Some(req) => req,
            None => {
                return TimeoutStep::Stale;
            },
        };
        let retry = req.timeout();
        if !retry {
            return TimeoutStep::Completed(req);
        }
        let new_seq = self.make_seq();
        req.seq = new_seq;
        let ms = req.timeout_ms;
        let timer_installed = self.dispatcher.timer_installed;
        let rest = self.send_request(req);
        proof {
            assert(rest is None);
        }
        TimeoutStep::Retried {
            seq: new_seq,
            timer: if timer_installed {
                Some(ms)
            } else {
                None
            },
        }
    }

    /// Cancel the request of an identity: an in-flight request leaves the
    /// pending table and comes back finished `Canceled`; an identity with
    /// no pending entry is recorded, so that a later call under it
    /// finishes `Canceled` at once.
    pub fn cancel_request_id(&mut self, id: u64) -> (r: Option<Request>)
        requires
            old(self).wf(),
        ensures
            final(self).wf(),
            final(self).connection == old(self).connection,
            final(self).seq == old(self).seq,
            final(self).is_ready == old(self).is_ready,
            final(self).next_request_id == old(self).next_request_id,
            final(self).dispatcher.cmd_subs == old(self).dispatcher.cmd_subs,
            final(self).dispatcher.timer_installed == old(self).dispatcher.timer_installed,
            r is Some ==> ({
                let c = r.unwrap();
                &&& c == (Request {
                    canceled: true,
                    ..old(self).dispatcher.pending_map()[c.seq]
                }).spec_finish(FinallyType::Canceled)
                &&& c.finally_type == Some(FinallyType::Canceled)
                &&& c.canceled
                &&& !c.waiting_rsp
                &&& c.binding == Some(id)
                &&& old(self).dispatcher.has_pending(c.seq)
                &&& final(self).dispatcher.pending_map() == old(
                    self,
                ).dispatcher.pending_map().remove(c.seq)
                &&& final(self).dispatcher.pending@.len() + 1 == old(
                    self,
                ).dispatcher.pending@.len()
                &&& final(self).canceled_ids == old(self).canceled_ids
            }),
            r is None ==> !old(self).dispatcher.has_pending_binding(id) && final(self).dispatcher
                == old(self).dispatcher && final(self).canceled_ids@ == old(self).canceled_ids@.push(id) && final(self).has_canceled_id(id),
            forall|id2: u64|
                final(self).dispatcher.has_pending_binding(id2) ==> old(
                    self,
                ).dispatcher.has_pending_binding(id2),
            forall|id2: u64| old(self).has_canceled_id(id2) ==> final(self).has_canceled_id(id2),
            final(self).dispatcher.pending_map().submap_of(old(self).dispatcher.pending_map()),
    {
        match self.dispatcher.take_pending_by_binding(id) {
            Some(req) => {
                let ghost taken = req;
                let mut req = req;
                req.cancel();
                proof {
                    assert(req.seq == taken.seq);
                    assert(self.dispatcher.pending_map().submap_of(
                        old(self).dispatcher.pending_map(),
                    ));
                }
                Some(req)
            },
            None => {
                self.canceled_ids.push(id);
                proof {
                    let n = old(self).canceled_ids@.len() as int;
                    assert(self.canceled_ids@[n] == id);
                    assert forall|id2: u64|
                        old(self).has_canceled_id(id2) implies self.has_canceled_id(id2) by {
                        let j = choose|j: int|
                            0 <= j < old(self).canceled_ids@.len() && old(self).canceled_ids@[j]
                                == id2;
                        assert(self.canceled_ids@[j] == id2);
                    }
                }
                None
            },
        }
    }
}

/// Sequence numbers minted one after another, starting from `s0`: the
/// `k`-th value.
pub open spec fn seq_after(s0: u32, k: nat) -> u32
    decreases k,
{
    if k == 0 {
        s0
    } else {
        spec_next_seq(seq_after(s0, (k - 1) as nat))
    }
}

/// Seq monotonicity: within one facade, successive mints yield strictly
/// increasing values until the counter wraps.
pub proof fn lemma_seq_monotonic(s0: u32, k1: nat, k2: nat)
    requires
        k1 < k2,
        s0 + k2 <= u32::MAX,
    ensures
        seq_after(s0, k1) < seq_after(s0, k2),
{
    lemma_seq_after_value(s0, k1);
    lemma_seq_after_value(s0, k2);
}

/// Before the wrap, the `k`-th minted value is the start plus `k`.
pub proof fn lemma_seq_after_value(s0: u32, k: nat)
    requires
        s0 + k <= u32::MAX,
    ensures
        seq_after(s0, k) == s0 + k,
    decreases k,
{
    if k > 0 {
        lemma_seq_after_value(s0, (k - 1) as nat);
    }
}

} // verus!

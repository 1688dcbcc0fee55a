//! The user-facing request object: a builder for one outgoing call and the
//! state machine that routes its completion.
//!
//! A request is built, handed to a facade by value when called, and comes
//! back as a finished record carrying its terminal [`FinallyType`].  Every
//! terminal path runs through [`Request::finish`], which records the outcome
//! exactly once; later events are no-ops.

use vstd::prelude::*;

use crate::msg::{spec_has_flag, MsgWrapper, TYPE_NO_SUCH_CMD};

verus! {

/// Terminal outcome of one call.
#[derive(Clone, Copy, Debug, PartialEq, Eq, Structural)]
pub enum FinallyType {
    /// Response received and decoded.
    Normal,
    /// Fire-and-forget call succeeded at send time.
    NoNeedRsp,
    /// No response within the deadline and retries exhausted.
    Timeout,
    /// Canceled by the user, directly or through a cancel group.
    Canceled,
    /// No facade was reachable when the call ran.
    RpcExpired,
    /// The facade was present but not ready.
    RpcNotReady,
    /// A response arrived but the user codec refused it.
    RspSerializeError,
    /// The peer had no handler for the command.
    NoSuchCmd,
}

/// The display name of each terminal outcome.
pub open spec fn spec_finally_name(t: FinallyType) -> Seq<char> {
    match t {
        FinallyType::Normal => "normal"@,
        FinallyType::NoNeedRsp => "no_need_rsp"@,
        FinallyType::Timeout => "timeout"@,
        FinallyType::Canceled => "canceled"@,
        FinallyType::RpcExpired => "rpc_expired"@,
        FinallyType::RpcNotReady => "rpc_not_ready"@,
        FinallyType::RspSerializeError => "rsp_serialize_error"@,
        FinallyType::NoSuchCmd => "no_such_cmd"@,
    }
}

impl FinallyType {
    /// A short name for logs and messages.
    pub fn to_str(&self) -> (r: &'static str)
        ensures
            r@ == spec_finally_name(*self),
    {
        match self {
            FinallyType::Normal => "normal",
            FinallyType::NoNeedRsp => "no_need_rsp",
            FinallyType::Timeout => "timeout",
            FinallyType::Canceled => "canceled",
            FinallyType::RpcExpired => "rpc_expired",
            FinallyType::RpcNotReady => "rpc_not_ready",
            FinallyType::RspSerializeError => "rsp_serialize_error",
            FinallyType::NoSuchCmd => "no_such_cmd",
        }
    }
}

/// Saturating increment for the event counters.
pub open spec fn sat_inc(x: u64) -> u64 {
    if x == u64::MAX {
        x
    } else {
        (x + 1) as u64
    }
}

/// One outgoing call: its command, payload and options, and the record of
/// what has happened to it.
pub struct Request {
    /// Identity minted by the facade that created the request; `None` for a
    /// standalone request that was never bound to a facade.
    pub binding: Option<u64>,
    /// Sequence number of the latest send; assigned at each send.
    pub seq: u32,
    /// Command name.
    pub cmd: String,
    /// Outbound payload; `None` sends an empty payload.
    pub payload: Option<Vec<u8>>,
    /// True when the caller expects a response.
    pub need_rsp: bool,
    /// True when the call is a liveness probe.
    pub is_ping: bool,
    /// Cancellation flag; consulted when the call runs and when a response
    /// arrives.
    pub canceled: bool,
    /// True from the moment the call runs until the terminal outcome.
    pub waiting_rsp: bool,
    /// Deadline per attempt, in milliseconds.
    pub timeout_ms: u32,
    /// Bounded retries when non-negative; `-1` retries without bound.
    pub retry_count: i32,
    /// The terminal outcome; set exactly once, by `finish`.
    pub finally_type: Option<FinallyType>,
    /// How many frames have been sent on behalf of this request.
    pub sends: u64,
    /// How many timer expiries this request has observed.
    pub timeouts: u64,
}

/// The default deadline per attempt.
pub const DEFAULT_TIMEOUT_MS: u32 = 3000;

impl Request {
    /// The terminal outcome has been recorded.
    pub open spec fn finished(self) -> bool {
        self.finally_type is Some
    }

    /// A request never both waits and holds a terminal outcome.
    pub open spec fn wf(self) -> bool {
        !(self.waiting_rsp && self.finished())
    }

    /// The state after recording outcome `t`: a no-op unless the request is
    /// still waiting; otherwise waiting ends and the outcome is set.
    pub open spec fn spec_finish(self, t: FinallyType) -> Request {
        if self.waiting_rsp {
            Request { waiting_rsp: false, finally_type: Some(t), ..self }
        } else {
            self
        }
    }

    /// The decision taken on a timer expiry: the expiry is counted; with
    /// retries left (or unbounded) the request stays in flight, else it
    /// ends in `Timeout`.
    pub open spec fn spec_timeout_decision(self) -> Request {
        if !self.waiting_rsp {
            self
        } else {
            let counted = Request { timeouts: sat_inc(self.timeouts), ..self };
            if self.retry_count == -1 {
                counted
            } else if self.retry_count > 0 {
                Request { retry_count: (self.retry_count - 1) as i32, ..counted }
            } else {
                counted.spec_finish(FinallyType::Timeout)
            }
        }
    }

    /// The full effect of a timer expiry on an in-flight request: the
    /// decision above, plus the frame the facade sends again on a retry.
    pub open spec fn spec_timeout_step(self) -> Request {
        let d = self.spec_timeout_decision();
        if self.waiting_rsp && self.spec_timeout_retries() {
            Request { sends: sat_inc(d.sends), ..d }
        } else {
            d
        }
    }

    /// Whether a timer expiry leads to a retry rather than a terminal
    /// outcome.
    pub open spec fn spec_timeout_retries(self) -> bool {
        self.retry_count == -1 || self.retry_count > 0
    }

    /// A fresh request: no command, no payload, fire-and-forget, with the
    /// default deadline.
    pub fn new() -> (r: Request)
        ensures
            r.binding is None,
            r.seq == 0,
            r.cmd@ == Seq::<char>::empty(),
            r.payload is None,
            !r.need_rsp,
            !r.is_ping,
            !r.canceled,
            !r.waiting_rsp,
            r.timeout_ms == DEFAULT_TIMEOUT_MS,
            r.retry_count == 0,
            r.finally_type is None,
            r.sends == 0,
            r.timeouts == 0,
            r.wf(),
    {
        Request {
            binding: None,
            seq: 0,
            cmd: String::new(),
            payload: None,
            need_rsp: false,
            is_ping: false,
            canceled: false,
            waiting_rsp: false,
            timeout_ms: DEFAULT_TIMEOUT_MS,
            retry_count: 0,
            finally_type: None,
            sends: 0,
            timeouts: 0,
        }
    }

    /// Record the terminal outcome: a no-op when the request is not
    /// waiting, so the outcome is set at most once.
    pub fn finish(&mut self, t: FinallyType)
        ensures
            *final(self) == old(self).spec_finish(t),
    {
        if self.waiting_rsp {
            self.waiting_rsp = false;
            self.finally_type = Some(t);
        }
    }

    /// Set the command name.
    pub fn cmd(&mut self, cmd: String)
        ensures
            *final(self) == (Request { cmd: cmd, ..*old(self) }),
    {
        self.cmd = cmd;
    }

    /// Attach a string payload, encoded as JSON text.
    pub fn msg(&mut self, payload: &str)
        ensures
            final(self).payload is Some,
            final(self).payload.unwrap()@ == crate::payload::json_of_str(payload@),
            *final(self) == (Request { payload: final(self).payload, ..*old(self) }),
    {
        let encoded = crate::payload::json_encode_str(payload);
        self.payload = Some(encoded);
    }

    /// Attach an opaque byte payload.
    pub fn msg_bytes(&mut self, payload: Vec<u8>)
        ensures
            *final(self) == (Request { payload: Some(payload), ..*old(self) }),
    {
        self.payload = Some(payload);
    }

    /// Ask for a response: the peer's reply will be routed back by sequence
    /// number.
    pub fn rsp(&mut self)
        ensures
            *final(self) == (Request { need_rsp: true, ..*old(self) }),
    {
        self.need_rsp = true;
    }

    /// The terminal outcome, once recorded.
    pub fn finally(&self) -> (r: Option<FinallyType>)
        ensures
            r == self.finally_type,
    {
        self.finally_type
    }

    /// Run the call with no facade reachable: it ends immediately, in
    /// `Canceled` when the request was canceled, else in `RpcExpired`.
    pub fn call(self) -> (r: Request)
        ensures
            r == (if self.canceled {
                (Request { waiting_rsp: true, ..self }).spec_finish(FinallyType::Canceled)
            } else {
                (Request { waiting_rsp: true, ..self }).spec_finish(FinallyType::RpcExpired)
            }),
    {
        let mut r = self;
        r.waiting_rsp = true;
        if r.canceled {
            r.finish(FinallyType::Canceled);
        } else {
            r.finish(FinallyType::RpcExpired);
        }
        r
    }

    /// Mark the call as a liveness probe.
    pub fn ping(&mut self)
        ensures
            *final(self) == (Request { is_ping: true, ..*old(self) }),
    {
        self.is_ping = true;
    }

    /// Set the deadline per attempt.
    pub fn timeout_ms(&mut self, timeout_ms: u32)
        ensures
            *final(self) == (Request { timeout_ms: timeout_ms, ..*old(self) }),
    {
        self.timeout_ms = timeout_ms;
    }

    /// Handle a timer expiry: count it, then either decide to retry
    /// (unbounded, or bounded with retries left) or end in `Timeout`.
    pub fn timeout(&mut self) -> (retry: bool)
        requires
            old(self).waiting_rsp,
            old(self).wf(),
        ensures
            *final(self) == old(self).spec_timeout_decision(),
            retry == old(self).spec_timeout_retries(),
            final(self).wf(),
    {
        if self.timeouts < u64::MAX {
            self.timeouts = self.timeouts + 1;
        }
        if self.retry_count == -1 {
            true
        } else if self.retry_count > 0 {
            self.retry_count = self.retry_count - 1;
            true
        } else {
            self.finish(FinallyType::Timeout);
            false
        }
    }

    /// Set the cancellation flag and record `Canceled` when still waiting.
    pub fn cancel(&mut self)
        ensures
            *final(self) == (Request { canceled: true, ..*old(self) }).spec_finish(
                FinallyType::Canceled,
            ),
    {
        self.canceled = true;
        self.finish(FinallyType::Canceled);
    }

    /// Clear the cancellation flag.
    pub fn reset_cancel(&mut self)
        ensures
            *final(self) == (Request { canceled: false, ..*old(self) }),
    {
        self.canceled = false;
    }

    /// Set the retry budget: `n >= 0` bounded, `-1` unbounded.
    pub fn retry(&mut self, count: i32)
        ensures
            *final(self) == (Request { retry_count: count, ..*old(self) }),
    {
        self.retry_count = count;
    }

    /// Make the call fire-and-forget.
    pub fn disable_rsp(&mut self)
        ensures
            *final(self) == (Request { need_rsp: false, ..*old(self) }),
    {
        self.need_rsp = false;
    }

    /// The identity under which the owning facade knows this request.
    pub fn get_rpc(&self) -> (r: Option<u64>)
        ensures
            r == self.binding,
    {
        self.binding
    }

    /// Whether the cancellation flag is set.
    pub fn is_canceled(&self) -> (r: bool)
        ensures
            r == self.canceled,
    {
        self.canceled
    }

    /// Set or clear the cancellation flag.
    pub fn canceled(&mut self, canceled: bool)
        ensures
            *final(self) == (Request { canceled: canceled, ..*old(self) }),
    {
        self.canceled = canceled;
    }

    /// Handle the matching response.  A canceled request ends in
    /// `Canceled`; a `NoSuchCmd` reply ends in `NoSuchCmd`; otherwise the
    /// payload still has to pass the user codec (see [`Request::on_decoded`])
    /// and the state is unchanged.
    pub fn on_response(&mut self, msg: &MsgWrapper) -> (r: RspStep)
        requires
            old(self).waiting_rsp,
            old(self).wf(),
        ensures
            old(self).canceled ==> r is Done && *final(self) == old(self).spec_finish(
                FinallyType::Canceled,
            ),
            !old(self).canceled && spec_has_flag(msg.type_, TYPE_NO_SUCH_CMD) ==> r is Done
                && *final(self) == old(self).spec_finish(FinallyType::NoSuchCmd),
            !old(self).canceled && !spec_has_flag(msg.type_, TYPE_NO_SUCH_CMD) ==> r is NeedsPayload
                && *final(self) == *old(self),
            final(self).wf(),
    {
        if self.canceled {
            self.finish(FinallyType::Canceled);
            RspStep::Done
        } else if crate::msg::has_flag(msg.type_, TYPE_NO_SUCH_CMD) {
            self.finish(FinallyType::NoSuchCmd);
            RspStep::Done
        } else {
            RspStep::NeedsPayload
        }
    }

    /// Report whether the user codec accepted the response payload: the
    /// request ends in `Normal` on success, `RspSerializeError` on failure.
    pub fn on_decoded(&mut self, ok: bool)
        requires
            old(self).waiting_rsp,
            old(self).wf(),
        ensures
            ok ==> *final(self) == old(self).spec_finish(FinallyType::Normal),
            !ok ==> *final(self) == old(self).spec_finish(FinallyType::RspSerializeError),
            final(self).wf(),
    {
        if ok {
            self.finish(FinallyType::Normal);
        } else {
            self.finish(FinallyType::RspSerializeError);
        }
    }

    /// Register this request with a cancel group.
    pub fn add_to(&self, dispose: &mut crate::dispose::Dispose)
        ensures
            final(dispose).ids@ == (match self.binding {
                Some(id) => old(dispose).ids@.push(id),
                None => old(dispose).ids@,
            }),
    {
        dispose.add(self);
    }

    /// Turn a finished request into the future-style result record: the
    /// decoded payload travels with the record exactly on the `Normal`
    /// outcome.
    pub fn into_future_ret(self, result: Option<Vec<u8>>) -> (r: FutureRet)
        requires
            self.finished(),
            result is Some <==> self.finally_type == Some(FinallyType::Normal),
        ensures
            r.type_ == self.finally_type.unwrap(),
            r.result == result,
    {
        let type_ = match self.finally_type {
            Some(t) => t,
            None => FinallyType::Normal,
        };
        FutureRet { type_, result }
    }
}

/// What a response still needs after [`Request::on_response`].
pub enum RspStep {
    /// The request reached its terminal outcome.
    Done,
    /// The payload must pass the user codec; report with
    /// [`Request::on_decoded`].
    NeedsPayload,
}

/// The packaged outcome of an awaited call: the terminal outcome and, when
/// the call produced one, the decoded response payload.
#[derive(Debug)]
pub struct FutureRet {
    pub type_: FinallyType,
    pub result: Option<Vec<u8>>,
}

impl FutureRet {
    /// The decoded payload of a normally completed call.  Calling this on
    /// any other outcome is a caller error, so those inputs are excluded.
    pub fn unwrap(self) -> (r: Vec<u8>)
        requires
            self.type_ == FinallyType::Normal,
            self.result is Some,
        ensures
            r == self.result.unwrap(),
    {
        match self.result {
            Some(v) => v,
            None => Vec::new(),
        }
    }
}

} // verus!

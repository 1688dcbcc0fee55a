//! Properties the engine guarantees across whole event sequences, stated
//! over the same transition functions that the executable methods are
//! specified with.

use vstd::prelude::*;

use crate::codec;
use crate::dispatcher::MsgDispatcher;
use crate::msg::{spec_has_flag, TYPE_COMMAND, TYPE_NO_SUCH_CMD, TYPE_RESPONSE};
use crate::request::{FinallyType, Request};
use crate::rpc::no_such_cmd_frame;

verus! {

/// One event that can reach a request once its call is in flight.
pub enum ReqEvent {
    /// The matching response arrived: whether it carries the `NoSuchCmd`
    /// flag, and whether the user codec accepted its payload.
    Response { no_such_cmd: bool, decode_ok: bool },
    /// The one-shot timer for the current attempt fired.
    TimerFired,
    /// The user canceled the request.
    Cancel,
}

/// The request's state after one event, combining the transitions that the
/// executable event handlers are specified with: `Request::on_response`
/// followed by `Request::on_decoded` for a response, the timeout decision
/// plus the retry re-send for a timer expiry, and `Request::cancel`.
pub open spec fn req_step(r: Request, e: ReqEvent) -> Request {
    match e {
        ReqEvent::Response { no_such_cmd, decode_ok } => {
            if r.canceled {
                r.spec_finish(FinallyType::Canceled)
            } else if no_such_cmd {
                r.spec_finish(FinallyType::NoSuchCmd)
            } else if decode_ok {
                r.spec_finish(FinallyType::Normal)
            } else {
                r.spec_finish(FinallyType::RspSerializeError)
            }
        },
        ReqEvent::TimerFired => r.spec_timeout_step(),
        ReqEvent::Cancel => (Request { canceled: true, ..r }).spec_finish(FinallyType::Canceled),
    }
}

/// Whether the event records the terminal outcome now.
pub open spec fn req_fires(r: Request, e: ReqEvent) -> bool {
    r.waiting_rsp && match e {
        ReqEvent::Response { .. } => true,
        ReqEvent::TimerFired => !r.spec_timeout_retries(),
        ReqEvent::Cancel => true,
    }
}

/// The request's state after a sequence of events.
pub open spec fn req_run(r: Request, es: Seq<ReqEvent>) -> Request
    decreases es.len(),
{
    if es.len() == 0 {
        r
    } else {
        req_run(req_step(r, es[0]), es.drop_first())
    }
}

/// How many events of the sequence record the terminal outcome.
pub open spec fn req_fire_count(r: Request, es: Seq<ReqEvent>) -> nat
    decreases es.len(),
{
    if es.len() == 0 {
        0
    } else {
        (if req_fires(r, es[0]) {
            1nat
        } else {
            0nat
        }) + req_fire_count(req_step(r, es[0]), es.drop_first())
    }
}

/// A request that is no longer waiting ignores every later event: nothing
/// fires again, the recorded outcome stays, and waiting never comes back.
pub proof fn lemma_finished_is_final(r: Request, es: Seq<ReqEvent>)
    requires
        !r.waiting_rsp,
    ensures
        req_fire_count(r, es) == 0,
        !req_run(r, es).waiting_rsp,
        req_run(r, es).finally_type == r.finally_type,
    decreases es.len(),
{
    if es.len() > 0 {
        let r1 = req_step(r, es[0]);
        assert(!r1.waiting_rsp && r1.finally_type == r.finally_type);
        lemma_finished_is_final(r1, es.drop_first());
    }
}

/// Finally-once: across any sequence of events — response, timeout,
/// cancel, decode failure, repeated cancels — the terminal outcome is
/// recorded at most once; exactly once on every run that ends with the
/// request no longer waiting; and `waiting_rsp` moves from true to false
/// at most once, never back.
pub proof fn lemma_finally_once(r: Request, es: Seq<ReqEvent>)
    requires
        r.wf(),
    ensures
        req_fire_count(r, es) <= 1,
        req_run(r, es).wf(),
        !r.waiting_rsp ==> req_fire_count(r, es) == 0 && !req_run(r, es).waiting_rsp,
        r.waiting_rsp && !req_run(r, es).waiting_rsp ==> req_fire_count(r, es) == 1
            && req_run(r, es).finished(),
    decreases es.len(),
{
    if !r.waiting_rsp {
        lemma_finished_is_final(r, es);
    } else if es.len() > 0 {
        let r1 = req_step(r, es[0]);
        if req_fires(r, es[0]) {
            assert(!r1.waiting_rsp && r1.finally_type is Some);
            lemma_finished_is_final(r1, es.drop_first());
        } else {
            assert(r1.waiting_rsp && r1.finally_type == r.finally_type);
            lemma_finally_once(r1, es.drop_first());
        }
    }
}

/// Cancel beats a late response: a canceled request that is still waiting
/// ends in `Canceled` on its response, whatever the response carries, and
/// the decode path — the only way to the user's response callback — is
/// never reached (`Normal` is impossible).
pub proof fn lemma_cancel_beats_response(r: Request, no_such_cmd: bool, decode_ok: bool)
    requires
        r.waiting_rsp,
        r.canceled,
    ensures
        req_step(
            r,
            ReqEvent::Response { no_such_cmd, decode_ok },
        ).finally_type == Some(FinallyType::Canceled),
{
}

/// And once a cancellation has removed the pending entry of a sequence
/// number, a dispatcher in that state drops the matching response as late:
/// nothing is pending under the number any more.
pub proof fn lemma_canceled_entry_gone(d: MsgDispatcher, d2: MsgDispatcher, seq: u32)
    requires
        d2.pending_map() == d.pending_map().remove(seq),
    ensures
        !d2.has_pending(seq),
{
    assert(!d2.pending_map().dom().contains(seq));
}

/// The state after `k` timer expiries, each re-sent by the facade.
pub open spec fn timer_run(r: Request, k: nat) -> Request
    decreases k,
{
    if k == 0 {
        r
    } else {
        timer_run(r.spec_timeout_step(), (k - 1) as nat)
    }
}

/// Timeout retry, bounded: a call in flight with `retry(n)` stays in
/// flight through the first `n` expiries, sending once more on each, and
/// the `(n+1)`-th expiry ends it in `Timeout` — so exactly `n + 1` frames
/// go out before `Timeout` is reported.
pub proof fn lemma_timeout_retry_bound(r: Request, k: nat)
    requires
        r.waiting_rsp,
        !r.finished(),
        r.retry_count >= 0,
        k <= r.retry_count + 1,
        r.sends + r.retry_count < u64::MAX,
        r.timeouts + r.retry_count + 1 < u64::MAX,
    ensures
        k <= r.retry_count ==> {
            let run = timer_run(r, k);
            &&& run.waiting_rsp
            &&& !run.finished()
            &&& run.retry_count == r.retry_count - k
            &&& run.sends == r.sends + k
            &&& run.timeouts == r.timeouts + k
            &&& run.canceled == r.canceled
        },
        k == r.retry_count + 1 ==> {
            let run = timer_run(r, k);
            &&& run.finally_type == Some(FinallyType::Timeout)
            &&& !run.waiting_rsp
            &&& run.sends == r.sends + r.retry_count
            &&& run.timeouts == r.timeouts + k
        },
    decreases k,
{
    if k > 0 {
        let r1 = r.spec_timeout_step();
        if r.retry_count == 0 {
            assert(r1.finally_type == Some(FinallyType::Timeout));
            lemma_timer_run_finished(r1, (k - 1) as nat);
        } else {
            lemma_timeout_retry_bound(r1, (k - 1) as nat);
        }
    }
}

/// A finished request is unmoved by further timer expiries.
pub proof fn lemma_timer_run_finished(r: Request, k: nat)
    requires
        !r.waiting_rsp,
    ensures
        timer_run(r, k) == r,
    decreases k,
{
    if k > 0 {
        assert(r.spec_timeout_step() == r);
        lemma_timer_run_finished(r.spec_timeout_step(), (k - 1) as nat);
    }
}

/// The retry bound read from a fresh call: a request that has just been
/// sent for the first time with `retry(n)` set survives `n` expiries and
/// reports `Timeout` on the `(n+1)`-th, after exactly `n + 1` sends in
/// total.
pub proof fn lemma_retry_sends_n_plus_one(r: Request)
    requires
        r.waiting_rsp,
        !r.finished(),
        r.retry_count >= 0,
        r.sends == 1,
        r.timeouts == 0,
    ensures
        ({
            let run = timer_run(r, (r.retry_count + 1) as nat);
            &&& run.finally_type == Some(FinallyType::Timeout)
            &&& !run.waiting_rsp
            &&& run.sends == r.retry_count + 1
        }),
        forall|k: nat| k <= r.retry_count ==> (#[trigger] timer_run(r, k)).waiting_rsp
            && timer_run(r, k).sends == 1 + k,
{
    lemma_timeout_retry_bound(r, (r.retry_count + 1) as nat);
    assert forall|k: nat| k <= r.retry_count implies (#[trigger] timer_run(r, k)).waiting_rsp
        && timer_run(r, k).sends == 1 + k by {
        lemma_timeout_retry_bound(r, k);
    }
}

/// Timeout retry, unbounded: with `retry(-1)` the call survives any number
/// of expiries, sending once more on each, and a late response that
/// decodes ends it in `Normal`.
pub proof fn lemma_infinite_retry_late_response(r: Request, k: nat)
    requires
        r.waiting_rsp,
        !r.finished(),
        !r.canceled,
        r.retry_count == -1,
        r.sends + k < u64::MAX,
        r.timeouts + k < u64::MAX,
    ensures
        ({
            let run = timer_run(r, k);
            &&& run.waiting_rsp
            &&& !run.finished()
            &&& run.sends == r.sends + k
            &&& req_step(
                run,
                ReqEvent::Response { no_such_cmd: false, decode_ok: true },
            ).finally_type == Some(FinallyType::Normal)
        }),
    decreases k,
{
    if k > 0 {
        lemma_infinite_retry_late_response(r.spec_timeout_step(), (k - 1) as nat);
    }
}

/// `NoSuchCmd`, end to end: the reply frame the dispatcher synthesizes for
/// an unsubscribed command parses as a response under the request's own
/// sequence number with the `NoSuchCmd` flag and an empty payload, and it
/// drives the waiting request to the `NoSuchCmd` outcome.  (That the
/// command is unsubscribed after `subscribe` then `unsubscribe` is the
/// contract of those two operations: `unsubscribe` leaves the name out of
/// the table whatever was there before.)
pub proof fn lemma_no_such_cmd_reply(r: Request)
    requires
        r.waiting_rsp,
        !r.canceled,
    ensures
        codec::frame_ok(no_such_cmd_frame(r.seq)),
        codec::frame_seq(no_such_cmd_frame(r.seq)) == r.seq,
        !spec_has_flag(codec::frame_type(no_such_cmd_frame(r.seq)), TYPE_COMMAND),
        spec_has_flag(codec::frame_type(no_such_cmd_frame(r.seq)), TYPE_RESPONSE),
        spec_has_flag(codec::frame_type(no_such_cmd_frame(r.seq)), TYPE_NO_SUCH_CMD),
        codec::frame_data(no_such_cmd_frame(r.seq)) == Seq::<u8>::empty(),
        req_step(
            r,
            ReqEvent::Response { no_such_cmd: true, decode_ok: false },
        ).finally_type == Some(FinallyType::NoSuchCmd),
{
    vstd::bytes::lemma_auto_spec_u32_to_from_le_bytes();
    vstd::bytes::lemma_auto_spec_u16_to_from_le_bytes();
    let b = no_such_cmd_frame(r.seq);
    let t: u8 = TYPE_RESPONSE | TYPE_NO_SUCH_CMD;
    assert((TYPE_RESPONSE | TYPE_NO_SUCH_CMD) < 64 && ((TYPE_RESPONSE | TYPE_NO_SUCH_CMD)
        & TYPE_RESPONSE) == TYPE_RESPONSE && ((TYPE_RESPONSE | TYPE_NO_SUCH_CMD)
        & TYPE_NO_SUCH_CMD) == TYPE_NO_SUCH_CMD && ((TYPE_RESPONSE | TYPE_NO_SUCH_CMD)
        & TYPE_COMMAND) != TYPE_COMMAND) by (bit_vector);
    assert(b.len() == 7);
    assert(b.subrange(0, 4) =~= vstd::bytes::spec_u32_to_le_bytes(r.seq));
    assert(b.subrange(4, 6) =~= vstd::bytes::spec_u16_to_le_bytes(0));
    assert(codec::frame_cmd_len(b) == 0);
    assert(b.subrange(6, 6) =~= Seq::<u8>::empty());
    assert(b[6] == t);
    assert(b.subrange(7, 7) =~= Seq::<u8>::empty());
}

} // verus!

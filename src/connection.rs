use vstd::prelude::*;
use crate::codec::{encode_event, event_encoded};
use crate::models::{InboundMessage, Json, Request};

verus! {

/// Connection failures in a row after which the supervisor gives up.
pub const MAX_RETRIES: u32 = 10;

/// Pause between connection attempts, in milliseconds.
pub const RETRY_SLEEP_DURATION_MILLIS: u64 = 1000;

/// Where the supervisor stands.
#[derive(Clone, Copy, Debug, PartialEq, Eq, Structural)]
pub enum Phase {
    /// About to make a connection attempt.
    Connecting,
    /// Both directional loops of an attempt are running.
    Connected,
    /// No further attempt will be made.
    Terminated,
}

/// What the supervisor does next.
#[derive(Clone, Copy, Debug, PartialEq, Eq, Structural)]
pub enum SupervisorAction {
    /// Run both directional loops of the new connection and report how they ended.
    Run,
    /// Tell local listeners of the restart, wait, then make another attempt.
    Backoff,
    /// Wait, then make another attempt.
    Reconnect,
    /// Tell local listeners of the restart, then send the terminal close
    /// notices and stop.
    GiveUp,
    /// Stop without further notice.
    Stop,
}

/// How a directional loop ended.
#[derive(Clone, Copy, Debug, PartialEq, Eq, Structural)]
pub enum LoopOutcome {
    /// The connection should be made again.
    Restart,
    /// The connection should not be made again.
    Terminate,
}

/// The reconnect policy: a budget of consecutive failed attempts, with a fixed
/// pause between attempts.
#[derive(Clone, Copy, Debug, PartialEq, Eq, Structural)]
pub struct Supervisor {
    pub retries: u32,
    pub phase: Phase,
}

/// A notice to local listeners that the supervisor emits.
#[derive(Clone, Copy, Debug, PartialEq, Eq, Structural)]
pub enum Notice {
    Restart,
    Terminal,
}

pub open spec fn supervisor_wf(s: Supervisor) -> bool {
    s.retries <= MAX_RETRIES && (s.phase == Phase::Connecting ==> s.retries < MAX_RETRIES) && (s.phase
        == Phase::Connected ==> s.retries == 0)
}

/// The state and action after a failed connection attempt.
pub open spec fn after_failure(s: Supervisor) -> (Supervisor, SupervisorAction) {
    let n = (s.retries + 1) as u32;
    if n >= MAX_RETRIES {
        (Supervisor { retries: n, phase: Phase::Terminated }, SupervisorAction::GiveUp)
    } else {
        (Supervisor { retries: n, phase: Phase::Connecting }, SupervisorAction::Backoff)
    }
}

/// The notices that local listeners receive for an action.
pub open spec fn notices(a: SupervisorAction) -> Seq<Notice> {
    match a {
        SupervisorAction::Backoff => seq![Notice::Restart],
        SupervisorAction::GiveUp => seq![Notice::Restart, Notice::Terminal],
        _ => Seq::empty(),
    }
}

/// The state after `n` failed attempts in a row from `s`, and the notices
/// they produced.
pub open spec fn failures(s: Supervisor, n: nat) -> (Supervisor, Seq<Notice>)
    decreases n,
{
    if n == 0 {
        (s, Seq::empty())
    } else {
        let (t, ns) = failures(s, (n - 1) as nat);
        let (u, a) = after_failure(t);
        (u, ns + notices(a))
    }
}

pub open spec fn restarts(n: nat) -> Seq<Notice> {
    Seq::new(n, |i: int| Notice::Restart)
}

impl Supervisor {
    pub fn new() -> (r: Supervisor)
        ensures
            r.retries == 0,
            r.phase == Phase::Connecting,
            supervisor_wf(r),
    {
        Supervisor { retries: 0, phase: Phase::Connecting }
    }

    /// A connection attempt failed: one more failure is counted; the
    /// supervisor backs off, or gives up once the budget is spent.
    pub fn on_connect_failed(&mut self) -> (r: SupervisorAction)
        requires
            supervisor_wf(*old(self)),
            old(self).phase == Phase::Connecting,
        ensures
            supervisor_wf(*final(self)),
            (*final(self), r) == after_failure(*old(self)),
    {
        self.retries = self.retries + 1;
        if self.retries >= MAX_RETRIES {
            self.phase = Phase::Terminated;
            SupervisorAction::GiveUp
        } else {
            SupervisorAction::Backoff
        }
    }

    /// A connection attempt succeeded: the failure count starts over.
    pub fn on_connected(&mut self) -> (r: SupervisorAction)
        requires
            supervisor_wf(*old(self)),
            old(self).phase == Phase::Connecting,
        ensures
            supervisor_wf(*final(self)),
            final(self).retries == 0,
            final(self).phase == Phase::Connected,
            r == SupervisorAction::Run,
    {
        self.retries = 0;
        self.phase = Phase::Connected;
        SupervisorAction::Run
    }

    /// Both loops of the running connection ended: the supervisor reconnects
    /// when either asks for it, and stops when neither does.
    pub fn on_attempt_ended(&mut self, sender: LoopOutcome, receiver: LoopOutcome) -> (r:
        SupervisorAction)
        requires
            supervisor_wf(*old(self)),
            old(self).phase == Phase::Connected,
        ensures
            supervisor_wf(*final(self)),
            final(self).retries == 0,
            (sender == LoopOutcome::Restart || receiver == LoopOutcome::Restart) ==> (r
                == SupervisorAction::Reconnect && final(self).phase == Phase::Connecting),
            (sender == LoopOutcome::Terminate && receiver == LoopOutcome::Terminate) ==> (r
                == SupervisorAction::Stop && final(self).phase == Phase::Terminated),
    {
        if sender == LoopOutcome::Restart || receiver == LoopOutcome::Restart {
            self.phase = Phase::Connecting;
            SupervisorAction::Reconnect
        } else {
            self.phase = Phase::Terminated;
            SupervisorAction::Stop
        }
    }
}

/// Fewer than `MAX_RETRIES` failed attempts in a row, from a fresh count,
/// give one restart notice each and leave the supervisor connecting; exactly
/// `MAX_RETRIES` of them add one terminal notice and end all attempts.
pub proof fn lemma_retry_budget(s: Supervisor, n: nat)
    requires
        s.retries == 0,
        s.phase == Phase::Connecting,
        n <= MAX_RETRIES,
    ensures
        n < MAX_RETRIES ==> failures(s, n) == (
        Supervisor { retries: n as u32, phase: Phase::Connecting }, restarts(n)),
        n == MAX_RETRIES ==> failures(s, n) == (
        Supervisor { retries: MAX_RETRIES, phase: Phase::Terminated }, restarts(n).push(
            Notice::Terminal,
        )),
    decreases n,
{
    if n > 0 {
        lemma_retry_budget(s, (n - 1) as nat);
        let (t, ns) = failures(s, (n - 1) as nat);
        assert(ns == restarts((n - 1) as nat));
        if n < MAX_RETRIES {
            assert(ns + seq![Notice::Restart] =~= restarts(n));
        } else {
            assert(ns + seq![Notice::Restart, Notice::Terminal] =~= restarts(n).push(
                Notice::Terminal,
            ));
        }
    } else {
        assert(restarts(0) =~= Seq::<Notice>::empty());
    }
}

/// A frame the outbound loop sends to the remote endpoint.
#[derive(Debug, PartialEq, Eq)]
pub enum Frame {
    Text(Json),
    Pong(Vec<u8>),
    Close,
}

/// The kind of a frame, which is all the loop's decisions depend on.
#[derive(Clone, Copy, Debug, PartialEq, Eq, Structural)]
pub enum FrameKind {
    Text,
    Pong,
    Close,
}

/// What the outbound loop does once a frame has been sent, or has failed to be.
#[derive(Clone, Copy, Debug, PartialEq, Eq, Structural)]
pub enum OutboundNext {
    /// Take the next request.
    Continue,
    /// Send a close frame, whatever becomes of it, and end with this outcome.
    CloseThen(LoopOutcome),
    /// End with this outcome.
    Exit(LoopOutcome),
}

pub open spec fn request_kind(r: Request) -> FrameKind {
    match r {
        Request::Data(_) => FrameKind::Text,
        Request::Pong(_) => FrameKind::Pong,
        Request::Close => FrameKind::Close,
    }
}

pub open spec fn frame_kind(f: Frame) -> FrameKind {
    match f {
        Frame::Text(_) => FrameKind::Text,
        Frame::Pong(_) => FrameKind::Pong,
        Frame::Close => FrameKind::Close,
    }
}

/// A failed data frame is dropped; a failed pong ends the attempt, which is
/// to be made again; a close frame ends the loop for good.
pub open spec fn after_send(k: FrameKind, sent: bool) -> OutboundNext {
    match k {
        FrameKind::Text => OutboundNext::Continue,
        FrameKind::Pong => if sent {
            OutboundNext::Continue
        } else {
            OutboundNext::CloseThen(LoopOutcome::Restart)
        },
        FrameKind::Close => OutboundNext::Exit(LoopOutcome::Terminate),
    }
}

/// The frames the outbound loop sends for the queued `reqs`, where `sent[i]`
/// tells whether the frame for `reqs[i]` went out, and how the loop ended
/// (`None`: it is still waiting for requests).
pub open spec fn outbound_run(reqs: Seq<Request>, sent: Seq<bool>) -> (
    Seq<FrameKind>,
    Option<LoopOutcome>,
)
    decreases reqs.len(),
{
    if reqs.len() == 0 || sent.len() == 0 {
        (Seq::empty(), None)
    } else {
        let k = request_kind(reqs[0]);
        match after_send(k, sent[0]) {
            OutboundNext::Continue => {
                let rest = outbound_run(reqs.skip(1), sent.skip(1));
                (seq![k] + rest.0, rest.1)
            },
            OutboundNext::CloseThen(o) => (seq![k, FrameKind::Close], Some(o)),
            OutboundNext::Exit(o) => (seq![k], Some(o)),
        }
    }
}

/// The kind of frame that a request becomes.
pub fn kind_of_request(r: &Request) -> (k: FrameKind)
    ensures
        k == request_kind(*r),
{
    match r {
        Request::Data(_) => FrameKind::Text,
        Request::Pong(_) => FrameKind::Pong,
        Request::Close => FrameKind::Close,
    }
}

/// The frame for one request: an event goes out in its remote form.
pub fn outbound_frame(req: Request) -> (r: Frame)
    ensures
        frame_kind(r) == request_kind(req),
        req matches Request::Data(ev) ==> (r matches Frame::Text(j) && event_encoded(ev, j)),
        req matches Request::Pong(d) ==> (r matches Frame::Pong(p) && p@ == d@),
{
    match req {
        Request::Data(ev) => Frame::Text(encode_event(ev)),
        Request::Pong(d) => Frame::Pong(d),
        Request::Close => Frame::Close,
    }
}

/// What the outbound loop does after trying to send a frame of kind `k`.
pub fn outbound_after_send(k: FrameKind, sent: bool) -> (r: OutboundNext)
    ensures
        r == after_send(k, sent),
{
    match k {
        FrameKind::Text => OutboundNext::Continue,
        FrameKind::Pong => if sent {
            OutboundNext::Continue
        } else {
            OutboundNext::CloseThen(LoopOutcome::Restart)
        },
        FrameKind::Close => OutboundNext::Exit(LoopOutcome::Terminate),
    }
}

/// Once a close request is taken, the outbound loop sends exactly one close
/// frame, as its last frame, and ends for good: requests queued behind it,
/// data included, are never sent.
pub proof fn lemma_close_is_last(reqs: Seq<Request>, sent: Seq<bool>, k: int)
    requires
        0 <= k < reqs.len(),
        sent.len() == reqs.len(),
        reqs[k] is Close,
        forall|i: int| 0 <= i < k ==> !(#[trigger] reqs[i] is Close),
        forall|i: int| 0 <= i < k && #[trigger] reqs[i] is Pong ==> sent[i],
    ensures
        outbound_run(reqs, sent).0.len() == k + 1,
        outbound_run(reqs, sent).0.last() == FrameKind::Close,
        forall|i: int| 0 <= i < k ==> #[trigger] outbound_run(reqs, sent).0[i] != FrameKind::Close,
        outbound_run(reqs, sent).1 == Some(LoopOutcome::Terminate),
    decreases k,
{
    if k > 0 {
        let r1 = reqs.skip(1);
        let s1 = sent.skip(1);
        assert(!(reqs[0] is Close));
        assert forall|i: int| 0 <= i < k - 1 implies !(#[trigger] r1[i] is Close) by {
            assert(r1[i] == reqs[i + 1]);
        }
        assert forall|i: int| 0 <= i < k - 1 && #[trigger] r1[i] is Pong implies s1[i] by {
            assert(r1[i] == reqs[i + 1]);
        }
        lemma_close_is_last(r1, s1, k - 1);
        let rest = outbound_run(r1, s1);
        let run = outbound_run(reqs, sent);
        assert(run.0 == seq![request_kind(reqs[0])] + rest.0);
        assert forall|i: int| 0 <= i < k implies #[trigger] run.0[i] != FrameKind::Close by {
            if i > 0 {
                assert(run.0[i] == rest.0[i - 1]);
            }
        }
    }
}

/// A pong that cannot be sent ends the attempt with exactly one close frame,
/// and asks for a new connection.
pub proof fn lemma_failed_pong_closes_once(reqs: Seq<Request>, sent: Seq<bool>)
    requires
        reqs.len() > 0,
        sent.len() > 0,
        reqs[0] is Pong,
        !sent[0],
    ensures
        outbound_run(reqs, sent) == (seq![FrameKind::Pong, FrameKind::Close], Some(
            LoopOutcome::Restart,
        )),
{
}

/// What the inbound loop receives from the remote endpoint.
#[derive(Debug)]
pub enum RemoteEvent {
    Text(String),
    Binary(Vec<u8>),
    Ping(Vec<u8>),
    Pong(Vec<u8>),
    Close,
    /// Reading from the connection failed.
    ReadError,
    /// The connection yields no more messages.
    Ended,
}

/// What the inbound loop does with one remote event.
#[derive(Debug, PartialEq, Eq)]
pub struct InboundAction {
    /// A request for the remote-outbound loop.
    pub request: Option<Request>,
    /// A message for local listeners.
    pub notice: Option<InboundMessage>,
    /// Set when the loop ends here, with how it ended.
    pub exit: Option<LoopOutcome>,
}

/// `a` is what the inbound loop does with `e`: a remote close asks the
/// outbound loop to close and ends the attempt, to be made again; a ping asks
/// it for a pong; text goes to local listeners; binary data and pongs are
/// dropped; a read error closes both ways and ends for good, as does the end
/// of the stream, silently.
pub open spec fn inbound_of(e: RemoteEvent, a: InboundAction) -> bool {
    match e {
        RemoteEvent::Close => a.request matches Some(Request::Close) && a.notice is None && a.exit
            == Some(LoopOutcome::Restart),
        RemoteEvent::Ping(d) => (a.request matches Some(Request::Pong(p)) && p@ == d@)
            && a.notice is None && a.exit is None,
        RemoteEvent::Text(t) => a.request is None && (a.notice matches Some(
            InboundMessage::Data(u),
        ) && u@ == t@) && a.exit is None,
        RemoteEvent::Binary(_) => a.request is None && a.notice is None && a.exit is None,
        RemoteEvent::Pong(_) => a.request is None && a.notice is None && a.exit is None,
        RemoteEvent::ReadError => a.request matches Some(Request::Close) && a.notice matches Some(
            InboundMessage::Close,
        ) && a.exit == Some(LoopOutcome::Terminate),
        RemoteEvent::Ended => a.request is None && a.notice is None && a.exit == Some(
            LoopOutcome::Terminate,
        ),
    }
}

pub fn inbound_step(e: RemoteEvent) -> (r: InboundAction)
    ensures
        inbound_of(e, r),
{
    match e {
        RemoteEvent::Close => InboundAction {
            request: Some(Request::Close),
            notice: None,
            exit: Some(LoopOutcome::Restart),
        },
        RemoteEvent::Ping(d) => InboundAction {
            request: Some(Request::Pong(d)),
            notice: None,
            exit: None,
        },
        RemoteEvent::Text(t) => InboundAction {
            request: None,
            notice: Some(InboundMessage::Data(t)),
            exit: None,
        },
        RemoteEvent::Binary(_) | RemoteEvent::Pong(_) => InboundAction {
            request: None,
            notice: None,
            exit: None,
        },
        RemoteEvent::ReadError => InboundAction {
            request: Some(Request::Close),
            notice: Some(InboundMessage::Close),
            exit: Some(LoopOutcome::Terminate),
        },
        RemoteEvent::Ended => InboundAction {
            request: None,
            notice: None,
            exit: Some(LoopOutcome::Terminate),
        },
    }
}

/// `r` is what the inbound loop does after handing on a request of kind `k`
/// (`forwarded`: whether the outbound loop took it).
pub open spec fn after_forward_of(k: FrameKind, forwarded: bool, r: Option<InboundAction>) -> bool {
    if k == FrameKind::Pong && !forwarded {
        r matches Some(a) && a.request matches Some(Request::Close) && a.notice is None && a.exit
            == Some(LoopOutcome::Restart)
    } else {
        r is None
    }
}

/// Only a pong that the outbound loop could not take has a follow-up: the
/// loop asks it to close and ends the attempt, to be made again. Other
/// failures to hand on a request are dropped.
pub fn inbound_after_forward(k: FrameKind, forwarded: bool) -> (r: Option<InboundAction>)
    ensures
        after_forward_of(k, forwarded, r),
{
    if k == FrameKind::Pong && !forwarded {
        Some(InboundAction { request: Some(Request::Close), notice: None, exit: Some(LoopOutcome::Restart) })
    } else {
        None
    }
}

/// The number of close signals that an action sends.
pub open spec fn closes(a: InboundAction) -> nat {
    (if a.request matches Some(Request::Close) { 1nat } else { 0nat }) + (if a.notice matches Some(
        InboundMessage::Close,
    ) { 1nat } else { 0nat })
}

/// A remote ping whose pong cannot be handed on gives exactly one close
/// signal over the two steps, and the attempt ends asking for a new
/// connection.
pub proof fn lemma_ping_failure_closes_once(
    d: Vec<u8>,
    a: InboundAction,
    f: Option<InboundAction>,
)
    requires
        inbound_of(RemoteEvent::Ping(d), a),
        after_forward_of(request_kind(a.request->Some_0), false, f),
    ensures
        f matches Some(b) && closes(a) + closes(b) == 1 && a.exit is None && b.exit == Some(
            LoopOutcome::Restart,
        ),
{
}

} // verus!

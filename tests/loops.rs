use wsbridge::bridge::{
    get_time, handle_client_message, intake_step, relay_step, CreatedAt, IntakeStep,
};
use wsbridge::codec::{decode_event, encode_client_message};
use wsbridge::connection::{
    inbound_after_forward, inbound_step, kind_of_request, outbound_after_send, outbound_frame, FrameKind, Frame,
    InboundAction, LoopOutcome, OutboundNext, Phase, RemoteEvent, Supervisor, SupervisorAction,
    MAX_RETRIES,
};
use wsbridge::models::{ClientInformation, ClientMessage, Event, InboundMessage, Json, Request};
use wsbridge::registry::RegisteredTopics;

fn s(t: &str) -> String {
    t.to_string()
}

fn obj(entries: Vec<(&str, Json)>) -> Json {
    Json::Object(entries.into_iter().map(|(k, v)| (s(k), v)).collect())
}

fn at(sec: u64, ns: u32) -> CreatedAt {
    CreatedAt { seconds_since_unix: sec, nano_seconds: ns }
}

fn registered(r: &RegisteredTopics) -> Vec<String> {
    let mut v = r.topics();
    v.sort();
    v
}

#[test]
fn registration_is_an_idempotent_union() {
    let mut a = RegisteredTopics::new();
    a.register(&vec![s("x"), s("y")]);
    a.register(&vec![s("y"), s("z")]);
    a.register(&vec![s("x")]);
    let mut b = RegisteredTopics::new();
    b.register(&vec![s("y"), s("z")]);
    b.register(&vec![s("x"), s("y"), s("x")]);
    assert_eq!(registered(&a), vec![s("x"), s("y"), s("z")]);
    assert_eq!(registered(&a), registered(&b));
    assert!(a.contains("z"));
    assert!(!a.contains("w"));
}

#[test]
fn data_commands_leave_topics_alone() {
    let mut r = RegisteredTopics::new();
    let reg = ClientMessage::Register { topics: vec![s("t1")] };
    let data = ClientMessage::Data { topics: vec![s("t2")], data: Json::Null };
    handle_client_message(&mut r, data, at(1, 2));
    handle_client_message(&mut r, reg, at(1, 2));
    assert_eq!(registered(&r), vec![s("t1")]);
}

#[test]
fn intake_close_and_websocket_close() {
    let mut r = RegisteredTopics::new();
    assert_eq!(
        handle_client_message(&mut r, ClientMessage::Close, at(0, 0)),
        IntakeStep::Finish(Some(Request::Close))
    );
    assert_eq!(
        handle_client_message(&mut r, ClientMessage::WebsocketClose, at(0, 0)),
        IntakeStep::Finish(None)
    );
}

#[test]
fn intake_skips_undecodable_input() {
    let mut r = RegisteredTopics::new();
    assert_eq!(intake_step(&mut r, Json::Str(s("junk")), at(0, 0)), IntakeStep::Skip);
    assert_eq!(intake_step(&mut r, obj(vec![("type", Json::Str(s("Bogus")))]), at(0, 0)), IntakeStep::Skip);
    assert!(r.topics().is_empty());
}

#[test]
fn end_to_end_register_then_data() {
    let info = ClientInformation::new("dev_1", "type_1", "acct1", "key1");
    assert_eq!(info.account_id, "acct1");
    assert_eq!(info.api_key, "key1");
    let mut r = RegisteredTopics::new();
    let now = at(1_700_000_000, 123);
    let register = obj(vec![
        ("type", Json::Str(s("Register"))),
        ("topics", Json::Array(vec![Json::Str(s("t1"))])),
    ]);
    let data = obj(vec![
        ("type", Json::Str(s("Data"))),
        ("topics", Json::Array(vec![Json::Str(s("t1"))])),
        ("data", obj(vec![("x", Json::UInt(1))])),
    ]);
    let mut frames = Vec::new();
    for input in [register, data] {
        match intake_step(&mut r, input, now) {
            IntakeStep::Forward(req) => frames.push(outbound_frame(req)),
            other => panic!("unexpected {:?}", other),
        }
    }
    let events: Vec<Event> = frames
        .into_iter()
        .map(|f| match f {
            Frame::Text(j) => decode_event(j).unwrap(),
            other => panic!("unexpected {:?}", other),
        })
        .collect();
    assert_eq!(
        events,
        vec![
            Event::Register { topics: vec![s("t1")] },
            Event::Message {
                seconds_since_unix: 1_700_000_000,
                nano_seconds: 123,
                topics: vec![s("t1")],
                data: obj(vec![("x", Json::UInt(1))]),
            },
        ]
    );
    assert_eq!(registered(&r), vec![s("t1")]);
}

#[test]
fn data_is_stamped_with_capture_time() {
    let mut r = RegisteredTopics::new();
    let j = encode_client_message(ClientMessage::Data { topics: vec![], data: Json::Null });
    assert_eq!(
        intake_step(&mut r, j, at(5, 6)),
        IntakeStep::Forward(Request::Data(Event::Message {
            seconds_since_unix: 5,
            nano_seconds: 6,
            topics: vec![],
            data: Json::Null,
        }))
    );
}

#[test]
fn relay_forwards_and_tags_notices() {
    assert_eq!(relay_step(InboundMessage::Data(s("raw text"))), (s("raw text"), false));
    assert_eq!(relay_step(InboundMessage::Restart), (s("{\"type\":\"Restart\"}"), false));
    assert_eq!(relay_step(InboundMessage::Close), (s("{\"type\":\"Close\"}"), true));
}

#[test]
fn clock_reads_after_epoch() {
    let t = get_time().unwrap();
    assert!(t.nano_seconds < 1_000_000_000);
    assert!(t.seconds_since_unix > 1_600_000_000);
}

#[test]
fn fewer_failures_than_budget_only_restart() {
    for n in 0..MAX_RETRIES {
        let mut sv = Supervisor::new();
        let mut restarts = 0;
        for _ in 0..n {
            assert_eq!(sv.on_connect_failed(), SupervisorAction::Backoff);
            restarts += 1;
        }
        assert_eq!(restarts, n);
        assert_eq!(sv.phase, Phase::Connecting);
        assert_eq!(sv.retries, n);
    }
}

#[test]
fn budget_of_failures_gives_up_once() {
    let mut sv = Supervisor::new();
    let mut actions = Vec::new();
    for _ in 0..MAX_RETRIES {
        actions.push(sv.on_connect_failed());
    }
    assert_eq!(actions.iter().filter(|a| **a == SupervisorAction::Backoff).count(), 9);
    assert_eq!(actions.last(), Some(&SupervisorAction::GiveUp));
    assert_eq!(sv.phase, Phase::Terminated);
}

#[test]
fn success_resets_failure_count() {
    let mut sv = Supervisor::new();
    sv.on_connect_failed();
    sv.on_connect_failed();
    assert_eq!(sv.on_connected(), SupervisorAction::Run);
    assert_eq!(sv.retries, 0);
    assert_eq!(
        sv.on_attempt_ended(LoopOutcome::Terminate, LoopOutcome::Restart),
        SupervisorAction::Reconnect
    );
    assert_eq!(sv.phase, Phase::Connecting);
    sv.on_connected();
    assert_eq!(
        sv.on_attempt_ended(LoopOutcome::Terminate, LoopOutcome::Terminate),
        SupervisorAction::Stop
    );
    assert_eq!(sv.phase, Phase::Terminated);
}

/// Drives the outbound decisions over a queue, as the outbound loop does.
fn run_outbound(reqs: Vec<Request>, sent: Vec<bool>) -> (Vec<FrameKind>, Option<LoopOutcome>) {
    let mut out = Vec::new();
    for (req, ok) in reqs.into_iter().zip(sent) {
        let kind = kind_of_request(&req);
        let f = outbound_frame(req);
        assert_eq!(
            kind,
            match f {
                Frame::Text(_) => FrameKind::Text,
                Frame::Pong(_) => FrameKind::Pong,
                Frame::Close => FrameKind::Close,
            }
        );
        out.push(kind);
        match outbound_after_send(kind, ok) {
            OutboundNext::Continue => {}
            OutboundNext::CloseThen(o) => {
                out.push(FrameKind::Close);
                return (out, Some(o));
            }
            OutboundNext::Exit(o) => return (out, Some(o)),
        }
    }
    (out, None)
}

fn data_req() -> Request {
    Request::Data(Event::Register { topics: vec![s("t")] })
}

#[test]
fn close_stops_queued_data() {
    let reqs = vec![data_req(), Request::Pong(vec![1]), Request::Close, data_req(), data_req()];
    let (frames, outcome) = run_outbound(reqs, vec![true, true, true, true, true]);
    assert_eq!(frames, vec![FrameKind::Text, FrameKind::Pong, FrameKind::Close]);
    assert_eq!(outcome, Some(LoopOutcome::Terminate));
}

#[test]
fn failed_data_send_is_dropped() {
    let (frames, outcome) = run_outbound(vec![data_req(), data_req()], vec![false, true]);
    assert_eq!(frames, vec![FrameKind::Text, FrameKind::Text]);
    assert_eq!(outcome, None);
}

#[test]
fn failed_pong_send_closes_once_and_restarts() {
    let (frames, outcome) =
        run_outbound(vec![Request::Pong(vec![9]), data_req(), Request::Close], vec![false, true, true]);
    assert_eq!(frames, vec![FrameKind::Pong, FrameKind::Close]);
    assert_eq!(outcome, Some(LoopOutcome::Restart));
}

#[test]
fn ping_with_failed_pong_forward_closes_once() {
    let a = inbound_step(RemoteEvent::Ping(vec![1, 2]));
    assert_eq!(
        a,
        InboundAction { request: Some(Request::Pong(vec![1, 2])), notice: None, exit: None }
    );
    let f = inbound_after_forward(FrameKind::Pong, false).unwrap();
    assert_eq!(
        f,
        InboundAction { request: Some(Request::Close), notice: None, exit: Some(LoopOutcome::Restart) }
    );
    assert_eq!(inbound_after_forward(FrameKind::Pong, true), None);
    assert_eq!(inbound_after_forward(FrameKind::Text, false), None);
}

#[test]
fn inbound_events() {
    assert_eq!(
        inbound_step(RemoteEvent::Close),
        InboundAction { request: Some(Request::Close), notice: None, exit: Some(LoopOutcome::Restart) }
    );
    assert_eq!(
        inbound_step(RemoteEvent::Text(s("hi"))),
        InboundAction { request: None, notice: Some(InboundMessage::Data(s("hi"))), exit: None }
    );
    assert_eq!(
        inbound_step(RemoteEvent::Binary(vec![1])),
        InboundAction { request: None, notice: None, exit: None }
    );
    assert_eq!(
        inbound_step(RemoteEvent::ReadError),
        InboundAction {
            request: Some(Request::Close),
            notice: Some(InboundMessage::Close),
            exit: Some(LoopOutcome::Terminate)
        }
    );
    assert_eq!(
        inbound_step(RemoteEvent::Ended),
        InboundAction { request: None, notice: None, exit: Some(LoopOutcome::Terminate) }
    );
}

use vstd::prelude::*;
use std::time::{Duration, SystemTime};
use crate::codec::{client_decodable, client_decoded, decode_client_message, views};
use crate::models::{ClientMessage, Event, InboundMessage, Json, Request};
use crate::registry::{topic_set, RegisteredTopics};

verus! {

#[verifier::external_type_specification]
#[verifier::external_body]
pub struct ExSystemTime(SystemTime);

/// Relies on `SystemTime::now`: reads the system clock.
pub assume_specification[ SystemTime::now ]() -> SystemTime;

/// Relies on `Duration::as_secs`: the whole seconds of the span.
pub assume_specification[ Duration::as_secs ](d: &Duration) -> u64;

/// Relies on `Duration::subsec_nanos`: the fractional part in nanoseconds,
/// which the documentation says is always below one billion.
pub assume_specification[ Duration::subsec_nanos ](d: &Duration) -> (r: u32)
    ensures
        r < 1_000_000_000,
;

/// Relies on `SystemTime::duration_since`: the span from the Unix epoch to
/// `t`, or `None` where `t` lies before the epoch.
#[verifier::external_body]
fn since_unix_epoch(t: &SystemTime) -> (r: Option<Duration>) {
    t.duration_since(std::time::UNIX_EPOCH).ok()
}

/// A capture time: whole seconds since the Unix epoch and the nanoseconds
/// past them.
#[derive(Clone, Copy, Debug, PartialEq, Eq, Structural)]
pub struct CreatedAt {
    pub seconds_since_unix: u64,
    pub nano_seconds: u32,
}

/// The system clock stood before the Unix epoch.
#[derive(Debug, PartialEq, Eq, Structural)]
pub enum ClockError {
    BeforeEpoch,
}

/// Reads the current time as seconds and nanoseconds since the Unix epoch.
pub fn get_time() -> (r: Result<CreatedAt, ClockError>)
    ensures
        r matches Ok(t) ==> t.nano_seconds < 1_000_000_000,
{
    let now = SystemTime::now();
    match since_unix_epoch(&now) {
        Some(d) => Ok(CreatedAt { seconds_since_unix: d.as_secs(), nano_seconds: d.subsec_nanos() }),
        None => Err(ClockError::BeforeEpoch),
    }
}

/// What the intake loop does with one local message.
#[derive(Debug, PartialEq, Eq)]
pub enum IntakeStep {
    /// The message is dropped and the loop goes on.
    Skip,
    /// The request is handed to the remote-outbound loop and the loop goes on.
    Forward(Request),
    /// The loop ends, after handing on the request if there is one.
    Finish(Option<Request>),
}

/// `r` is what the intake loop does with `m` received at `now`, and `after`
/// is the topic set it leaves when it held `before`.
pub open spec fn intake_of(
    before: Set<Seq<char>>,
    m: ClientMessage,
    now: CreatedAt,
    r: IntakeStep,
    after: Set<Seq<char>>,
) -> bool {
    match m {
        ClientMessage::Close => r matches IntakeStep::Finish(Some(Request::Close)) && after == before,
        ClientMessage::WebsocketClose => r matches IntakeStep::Finish(None) && after == before,
        ClientMessage::Register { topics } => (r matches IntakeStep::Forward(
            Request::Data(Event::Register { topics: t }),
        ) && views(t@) == views(topics@)) && after == before.union(topic_set(topics@)),
        ClientMessage::Data { topics, data } => (r matches IntakeStep::Forward(
            Request::Data(Event::Message { seconds_since_unix, nano_seconds, topics: t, data: d }),
        ) && seconds_since_unix == now.seconds_since_unix && nano_seconds == now.nano_seconds
            && views(t@) == views(topics@) && d == data) && after == before,
    }
}

/// Acts on one decoded local message: a registration joins the topic set and
/// goes on as an event, data is stamped with `now` and goes on as an event, a
/// close is handed on and ends the loop, a websocket close ends it silently.
pub fn handle_client_message(registry: &mut RegisteredTopics, m: ClientMessage, now: CreatedAt) -> (r:
    IntakeStep)
    requires
        old(registry).wf(),
    ensures
        final(registry).wf(),
        intake_of(old(registry)@, m, now, r, final(registry)@),
{
    match m {
        ClientMessage::Close => IntakeStep::Finish(Some(Request::Close)),
        ClientMessage::WebsocketClose => IntakeStep::Finish(None),
        ClientMessage::Register { topics } => {
            registry.register(&topics);
            IntakeStep::Forward(Request::Data(Event::Register { topics }))
        },
        ClientMessage::Data { topics, data } => IntakeStep::Forward(
            Request::Data(
                Event::Message {
                    seconds_since_unix: now.seconds_since_unix,
                    nano_seconds: now.nano_seconds,
                    topics,
                    data,
                },
            ),
        ),
    }
}

/// Acts on one local message in its local form: one that does not decode is
/// skipped and leaves the topic set alone.
pub fn intake_step(registry: &mut RegisteredTopics, input: Json, now: CreatedAt) -> (r: IntakeStep)
    requires
        old(registry).wf(),
    ensures
        final(registry).wf(),
        !client_decodable(input) ==> (r is Skip && final(registry)@ == old(registry)@),
        client_decodable(input) ==> exists|m: ClientMessage|
            client_decoded(input, m) && intake_of(old(registry)@, m, now, r, final(registry)@),
{
    let ghost j = input;
    match decode_client_message(input) {
        Ok(m) => {
            let ghost m0 = m;
            let r = handle_client_message(registry, m, now);
            assert(client_decoded(j, m0) && intake_of(old(registry)@, m0, now, r, registry@));
            r
        },
        Err(_) => IntakeStep::Skip,
    }
}

/// What the relay loop sends to local listeners for `m`, and whether it
/// stops afterwards: data goes out verbatim, lifecycle notices as their
/// tagged local form; a close notice ends the loop.
pub fn relay_step(m: InboundMessage) -> (r: (String, bool))
    ensures
        match m {
            InboundMessage::Data(text) => r.0@ == text@ && !r.1,
            InboundMessage::Restart => r.0@ == "{\"type\":\"Restart\"}"@ && !r.1,
            InboundMessage::Close => r.0@ == "{\"type\":\"Close\"}"@ && r.1,
        },
{
    match m {
        InboundMessage::Data(text) => (text, false),
        InboundMessage::Restart => ("{\"type\":\"Restart\"}".to_owned(), false),
        InboundMessage::Close => ("{\"type\":\"Close\"}".to_owned(), true),
    }
}

/// The topic set after registering each batch of `batches`, in order,
/// starting from `start`.
pub open spec fn replay(start: Set<Seq<char>>, batches: Seq<Set<Seq<char>>>) -> Set<Seq<char>>
    decreases batches.len(),
{
    if batches.len() == 0 {
        start
    } else {
        replay(start, batches.drop_last()).union(batches.last())
    }
}

/// After any run of registrations, a topic is registered exactly when some
/// registration named it: the result is the union of the registered sets,
/// whatever their order and however often one is repeated.
pub proof fn lemma_replay_is_union(batches: Seq<Set<Seq<char>>>, t: Seq<char>)
    ensures
        replay(Set::empty(), batches).contains(t) <==> exists|i: int|
            0 <= i < batches.len() && #[trigger] batches[i].contains(t),
    decreases batches.len(),
{
    if batches.len() > 0 {
        let p = batches.drop_last();
        lemma_replay_is_union(p, t);
        if exists|i: int| 0 <= i < p.len() && #[trigger] p[i].contains(t) {
            let i = choose|i: int| 0 <= i < p.len() && #[trigger] p[i].contains(t);
            assert(batches[i].contains(t));
        }
        if exists|i: int| 0 <= i < batches.len() && #[trigger] batches[i].contains(t) {
            let i = choose|i: int| 0 <= i < batches.len() && #[trigger] batches[i].contains(t);
            if i < p.len() {
                assert(p[i].contains(t));
            }
        }
    }
}

/// Two runs of registrations that name the same sets, in any order and with
/// any repetition, leave the same topic set.
pub proof fn lemma_replay_order_free(a: Seq<Set<Seq<char>>>, b: Seq<Set<Seq<char>>>)
    requires
        forall|i: int| 0 <= i < a.len() ==> exists|k: int| 0 <= k < b.len() && b[k] == #[trigger] a[i],
        forall|k: int| 0 <= k < b.len() ==> exists|i: int| 0 <= i < a.len() && a[i] == #[trigger] b[k],
    ensures
        replay(Set::empty(), a) == replay(Set::empty(), b),
{
    assert forall|t: Seq<char>| #[trigger] replay(Set::empty(), a).contains(t) == replay(
        Set::empty(),
        b,
    ).contains(t) by {
        lemma_replay_is_union(a, t);
        lemma_replay_is_union(b, t);
        if exists|i: int| 0 <= i < a.len() && #[trigger] a[i].contains(t) {
            let i = choose|i: int| 0 <= i < a.len() && #[trigger] a[i].contains(t);
            let k = choose|k: int| 0 <= k < b.len() && b[k] == a[i];
            assert(b[k].contains(t));
        }
        if exists|k: int| 0 <= k < b.len() && #[trigger] b[k].contains(t) {
            let k = choose|k: int| 0 <= k < b.len() && #[trigger] b[k].contains(t);
            let i = choose|i: int| 0 <= i < a.len() && a[i] == b[k];
            assert(a[i].contains(t));
        }
    }
    assert(replay(Set::empty(), a) =~= replay(Set::empty(), b));
}

/// The topics that a local message registers.
pub open spec fn registered_by(m: ClientMessage) -> Set<Seq<char>> {
    match m {
        ClientMessage::Register { topics } => topic_set(topics@),
        _ => Set::empty(),
    }
}

/// Each intake step joins what the message registers to the topic set, and
/// nothing else.
pub proof fn lemma_intake_registers(
    before: Set<Seq<char>>,
    m: ClientMessage,
    now: CreatedAt,
    r: IntakeStep,
    after: Set<Seq<char>>,
)
    requires
        intake_of(before, m, now, r, after),
    ensures
        after == before.union(registered_by(m)),
{
    assert(before.union(registered_by(m)) =~= after);
}

/// After intake of any run of local messages, from an empty set, a topic is
/// registered exactly when one of the registrations among them named it,
/// whatever the order of the messages and the data among them.
pub proof fn lemma_intake_replay(msgs: Seq<ClientMessage>, t: Seq<char>)
    ensures
        replay(Set::empty(), msgs.map_values(|m: ClientMessage| registered_by(m))).contains(t)
            <==> exists|i: int| 0 <= i < msgs.len() && #[trigger] registered_by(msgs[i]).contains(t),
{
    let b = msgs.map_values(|m: ClientMessage| registered_by(m));
    lemma_replay_is_union(b, t);
    if exists|i: int| 0 <= i < b.len() && #[trigger] b[i].contains(t) {
        let i = choose|i: int| 0 <= i < b.len() && #[trigger] b[i].contains(t);
        assert(registered_by(msgs[i]).contains(t));
    }
    if exists|i: int| 0 <= i < msgs.len() && #[trigger] registered_by(msgs[i]).contains(t) {
        let i = choose|i: int| 0 <= i < msgs.len() && #[trigger] registered_by(msgs[i]).contains(t);
        assert(b[i].contains(t));
    }
}

} // verus!

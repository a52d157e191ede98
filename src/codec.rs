use vstd::prelude::*;
use crate::models::{ClientMessage, Event, Json};

verus! {

/// The value of the last entry named `key`, as a JSON object reader keeps it.
pub open spec fn field(entries: Seq<(String, Json)>, key: Seq<char>) -> Option<Json>
    decreases entries.len(),
{
    if entries.len() == 0 {
        None
    } else if entries.last().0@ == key {
        Some(entries.last().1)
    } else {
        field(entries.drop_last(), key)
    }
}

/// The entry `key` of `j`, when `j` is an object that has one.
pub open spec fn member(j: Json, key: Seq<char>) -> Option<Json> {
    match j {
        Json::Object(e) => field(e@, key),
        _ => None,
    }
}

pub open spec fn is_str(j: Json, s: Seq<char>) -> bool {
    match j {
        Json::Str(x) => x@ == s,
        _ => false,
    }
}

pub open spec fn is_uint(j: Json, n: u64) -> bool {
    match j {
        Json::UInt(x) => x == n,
        _ => false,
    }
}

/// `j` is an array of strings whose texts are `ts`, in order.
pub open spec fn is_str_array(j: Json, ts: Seq<Seq<char>>) -> bool {
    match j {
        Json::Array(v) => v@.len() == ts.len() && forall|i: int|
            0 <= i < ts.len() ==> is_str(#[trigger] v@[i], ts[i]),
        _ => false,
    }
}

/// `j` is an array whose items are all strings.
pub open spec fn all_strs(j: Json) -> bool {
    match j {
        Json::Array(v) => forall|i: int| 0 <= i < v@.len() ==> (#[trigger] v@[i] is Str),
        _ => false,
    }
}

pub open spec fn views(ts: Seq<String>) -> Seq<Seq<char>> {
    ts.map_values(|s: String| s@)
}

/// The string held by the entry `key` of `j`.
pub open spec fn str_member(j: Json, key: Seq<char>) -> Option<Seq<char>> {
    match member(j, key) {
        Some(Json::Str(s)) => Some(s@),
        _ => None,
    }
}

/// A topic list on the wire: present and made of strings only.
pub open spec fn topics_ok(j: Json) -> bool {
    member(j, "topics"@) matches Some(t) && all_strs(t)
}

pub open spec fn client_decodable(j: Json) -> bool {
    let t = str_member(j, "type"@);
    t == Some("Close"@) || t == Some("WebsocketClose"@) || (t == Some("Register"@)
        && topics_ok(j)) || (t == Some("Data"@) && topics_ok(j) && member(j, "data"@) is Some)
}

pub open spec fn message_decodable(j: Json) -> bool {
    topics_ok(j) && member(j, "data"@) is Some && (member(j, "seconds_since_unix"@) matches Some(
        Json::UInt(_))) && (member(j, "nano_seconds"@) matches Some(Json::UInt(n))
        && n <= u32::MAX)
}

/// An event on the wire: an object of one entry, named after the variant.
pub open spec fn event_decodable(j: Json) -> bool {
    match j {
        Json::Object(e) => e@.len() == 1 && ((e@[0].0@ == "Message"@ && message_decodable(
            e@[0].1)) || (e@[0].0@ == "Register"@ && topics_ok(e@[0].1))),
        _ => false,
    }
}

/// A JSON value that is not a message of the expected shape.
#[derive(Debug, PartialEq, Eq, Structural)]
pub enum DecodeError {
    Malformed,
}

/// The local form of `m`: an object whose `type` entry names the variant,
/// followed by the variant's fields.
pub open spec fn client_encoded(m: ClientMessage, j: Json) -> bool {
    match j {
        Json::Object(e) => e@.len() >= 1 && e@[0].0@ == "type"@ && match m {
            ClientMessage::Data { topics, data } => e@.len() == 3 && is_str(e@[0].1, "Data"@)
                && e@[1].0@ == "topics"@ && is_str_array(e@[1].1, views(topics@)) && e@[2].0@
                == "data"@ && e@[2].1 == data,
            ClientMessage::Register { topics } => e@.len() == 2 && is_str(e@[0].1, "Register"@)
                && e@[1].0@ == "topics"@ && is_str_array(e@[1].1, views(topics@)),
            ClientMessage::Close => e@.len() == 1 && is_str(e@[0].1, "Close"@),
            ClientMessage::WebsocketClose => e@.len() == 1 && is_str(e@[0].1, "WebsocketClose"@),
        },
        _ => false,
    }
}

/// `m` is what the local form `j` reads as.
pub open spec fn client_decoded(j: Json, m: ClientMessage) -> bool {
    let t = str_member(j, "type"@);
    match m {
        ClientMessage::Data { topics, data } => t == Some("Data"@) && (member(j, "topics"@) matches Some(
            a) && is_str_array(a, views(topics@))) && member(j, "data"@) == Some(data),
        ClientMessage::Register { topics } => t == Some("Register"@) && (member(j, "topics"@) matches Some(
            a) && is_str_array(a, views(topics@))),
        ClientMessage::Close => t == Some("Close"@),
        ClientMessage::WebsocketClose => t == Some("WebsocketClose"@),
    }
}

/// The two messages agree field for field.
pub open spec fn same_client(a: ClientMessage, b: ClientMessage) -> bool {
    match (a, b) {
        (ClientMessage::Data { topics: t1, data: d1 }, ClientMessage::Data { topics: t2, data: d2 }) =>
            views(t1@) == views(t2@) && d1 == d2,
        (ClientMessage::Register { topics: t1 }, ClientMessage::Register { topics: t2 }) => views(t1@)
            == views(t2@),
        (ClientMessage::Close, ClientMessage::Close) => true,
        (ClientMessage::WebsocketClose, ClientMessage::WebsocketClose) => true,
        _ => false,
    }
}

/// The remote form of `ev`: an object with one entry, named after the variant,
/// that holds the variant's fields.
pub open spec fn event_encoded(ev: Event, j: Json) -> bool {
    match j {
        Json::Object(e) => e@.len() == 1 && match ev {
            Event::Message { seconds_since_unix, nano_seconds, topics, data } => e@[0].0@
                == "Message"@ && match e@[0].1 {
                Json::Object(f) => f@.len() == 4 && f@[0].0@ == "seconds_since_unix"@ && is_uint(
                    f@[0].1, seconds_since_unix) && f@[1].0@ == "nano_seconds"@ && is_uint(
                    f@[1].1, nano_seconds as u64) && f@[2].0@ == "topics"@ && is_str_array(
                    f@[2].1, views(topics@)) && f@[3].0@ == "data"@ && f@[3].1 == data,
                _ => false,
            },
            Event::Register { topics } => e@[0].0@ == "Register"@ && match e@[0].1 {
                Json::Object(f) => f@.len() == 1 && f@[0].0@ == "topics"@ && is_str_array(
                    f@[0].1, views(topics@)),
                _ => false,
            },
        },
        _ => false,
    }
}

/// `ev` is what the remote form `j` reads as.
pub open spec fn event_decoded(j: Json, ev: Event) -> bool {
    match j {
        Json::Object(e) => e@.len() == 1 && match ev {
            Event::Message { seconds_since_unix, nano_seconds, topics, data } => {
                let b = e@[0].1;
                e@[0].0@ == "Message"@ && (member(b, "seconds_since_unix"@) matches Some(s)
                    && is_uint(s, seconds_since_unix)) && (member(b, "nano_seconds"@) matches Some(
                    n) && is_uint(n, nano_seconds as u64)) && (member(b, "topics"@) matches Some(
                    a) && is_str_array(a, views(topics@))) && member(b, "data"@) == Some(data)
            },
            Event::Register { topics } => e@[0].0@ == "Register"@ && (member(
                e@[0].1,
                "topics"@,
            ) matches Some(a) && is_str_array(a, views(topics@))),
        },
        _ => false,
    }
}

/// The two events agree field for field.
pub open spec fn same_event(a: Event, b: Event) -> bool {
    match (a, b) {
        (
            Event::Message { seconds_since_unix: s1, nano_seconds: n1, topics: t1, data: d1 },
            Event::Message { seconds_since_unix: s2, nano_seconds: n2, topics: t2, data: d2 },
        ) => s1 == s2 && n1 == n2 && views(t1@) == views(t2@) && d1 == d2,
        (Event::Register { topics: t1 }, Event::Register { topics: t2 }) => views(t1@) == views(
            t2@),
        _ => false,
    }
}

fn same_text(k: &String, lit: &str) -> (r: bool)
    ensures
        r == (k@ == lit@),
{
    let l = lit.to_owned();
    *k == l
}

fn text(lit: &str) -> (r: Json)
    ensures
        is_str(r, lit@),
{
    Json::Str(lit.to_owned())
}

/// Position of the entry that a reader of the object keeps for `key`.
fn find_field(entries: &Vec<(String, Json)>, key: &str) -> (r: Option<usize>)
    ensures
        match r {
            Some(i) => i < entries@.len() && field(entries@, key@) == Some(entries@[i as int].1),
            None => field(entries@, key@) is None,
        },
{
    let mut i: usize = entries.len();
    assert(entries@.subrange(0, i as int) =~= entries@);
    while i > 0
        invariant
            i <= entries@.len(),
            field(entries@, key@) == field(entries@.subrange(0, i as int), key@),
        decreases i,
    {
        let ghost pre = entries@.subrange(0, i as int);
        assert(pre.drop_last() =~= entries@.subrange(0, i - 1));
        if same_text(&entries[i - 1].0, key) {
            return Some(i - 1);
        }
        i = i - 1;
    }
    assert(entries@.subrange(0, 0) =~= Seq::<(String, Json)>::empty());
    None
}

fn get_member<'a>(entries: &'a Vec<(String, Json)>, key: &str) -> (r: Option<&'a Json>)
    ensures
        field(entries@, key@) == match r {
            Some(v) => Some(*v),
            None => None,
        },
{
    match find_field(entries, key) {
        Some(i) => Some(&entries[i].1),
        None => None,
    }
}

/// Encodes a topic list as an array of strings.
pub fn encode_topics(ts: &Vec<String>) -> (r: Json)
    ensures
        is_str_array(r, views(ts@)),
{
    let mut v: Vec<Json> = Vec::new();
    let mut i: usize = 0;
    while i < ts.len()
        invariant
            i <= ts@.len(),
            v@.len() == i,
            forall|k: int| 0 <= k < i ==> is_str(#[trigger] v@[k], ts@[k]@),
        decreases ts@.len() - i,
    {
        v.push(Json::Str(ts[i].clone()));
        i = i + 1;
    }
    Json::Array(v)
}

/// Reads a topic list; `None` unless `j` is an array of strings.
pub fn decode_topics(j: &Json) -> (r: Option<Vec<String>>)
    ensures
        r is Some <==> all_strs(*j),
        r matches Some(ts) ==> is_str_array(*j, views(ts@)),
{
    match j {
        Json::Array(items) => {
            let mut out: Vec<String> = Vec::new();
            let mut i: usize = 0;
            while i < items.len()
                invariant
                    *j == Json::Array(*items),
                    i <= items@.len(),
                    out@.len() == i,
                    forall|k: int| 0 <= k < i ==> is_str(#[trigger] items@[k], out@[k]@),
                decreases items@.len() - i,
            {
                let item = &items[i];
                assert(*item == items@[i as int]);
                match item {
                    Json::Str(s) => {
                        out.push(s.clone());
                    },
                    _ => {
                        assert(!(items@[i as int] is Str));
                        assert(!all_strs(*j));
                        return None;
                    },
                }
                i = i + 1;
            }
            Some(out)
        },
        _ => None,
    }
}

fn entry(key: &str, value: Json) -> (r: (String, Json))
    ensures
        r.0@ == key@,
        r.1 == value,
{
    (key.to_owned(), value)
}

/// Encodes a local message in its local form.
pub fn encode_client_message(m: ClientMessage) -> (r: Json)
    ensures
        client_encoded(m, r),
{
    let ghost m0 = m;
    let mut e: Vec<(String, Json)> = Vec::new();
    match m {
        ClientMessage::Data { topics, data } => {
            e.push(entry("type", text("Data")));
            e.push(entry("topics", encode_topics(&topics)));
            e.push(entry("data", data));
        },
        ClientMessage::Register { topics } => {
            e.push(entry("type", text("Register")));
            e.push(entry("topics", encode_topics(&topics)));
        },
        ClientMessage::Close => {
            e.push(entry("type", text("Close")));
        },
        ClientMessage::WebsocketClose => {
            e.push(entry("type", text("WebsocketClose")));
        },
    }
    Json::Object(e)
}

fn member_topics(e: &Vec<(String, Json)>) -> (r: Option<Vec<String>>)
    ensures
        r is Some <==> (field(e@, "topics"@) matches Some(a) && all_strs(a)),
        r matches Some(ts) ==> (field(e@, "topics"@) matches Some(a) && is_str_array(
            a,
            views(ts@),
        )),
{
    match get_member(e, "topics") {
        Some(a) => decode_topics(a),
        None => None,
    }
}

/// Reads a local message from its local form. Entries other than the ones
/// the variant names are ignored.
pub fn decode_client_message(j: Json) -> (r: Result<ClientMessage, DecodeError>)
    ensures
        r is Ok <==> client_decodable(j),
        r matches Ok(m) ==> client_decoded(j, m),
{
    let ghost j0 = j;
    match j {
        Json::Object(mut e) => {
            let tag = match get_member(&e, "type") {
                Some(Json::Str(t)) => t.clone(),
                _ => {
                    return Err(DecodeError::Malformed);
                },
            };
            if same_text(&tag, "Close") {
                Ok(ClientMessage::Close)
            } else if same_text(&tag, "WebsocketClose") {
                Ok(ClientMessage::WebsocketClose)
            } else if same_text(&tag, "Register") {
                match member_topics(&e) {
                    Some(topics) => Ok(ClientMessage::Register { topics }),
                    None => Err(DecodeError::Malformed),
                }
            } else if same_text(&tag, "Data") {
                let topics = match member_topics(&e) {
                    Some(topics) => topics,
                    None => {
                        return Err(DecodeError::Malformed);
                    },
                };
                match find_field(&e, "data") {
                    Some(i) => {
                        let (_, data) = e.remove(i);
                        Ok(ClientMessage::Data { topics, data })
                    },
                    None => Err(DecodeError::Malformed),
                }
            } else {
                Err(DecodeError::Malformed)
            }
        },
        _ => Err(DecodeError::Malformed),
    }
}

/// Encodes an event in its remote form.
pub fn encode_event(ev: Event) -> (r: Json)
    ensures
        event_encoded(ev, r),
{
    let mut f: Vec<(String, Json)> = Vec::new();
    let mut e: Vec<(String, Json)> = Vec::new();
    match ev {
        Event::Message { seconds_since_unix, nano_seconds, topics, data } => {
            f.push(entry("seconds_since_unix", Json::UInt(seconds_since_unix)));
            f.push(entry("nano_seconds", Json::UInt(nano_seconds as u64)));
            f.push(entry("topics", encode_topics(&topics)));
            f.push(entry("data", data));
            e.push(entry("Message", Json::Object(f)));
        },
        Event::Register { topics } => {
            f.push(entry("topics", encode_topics(&topics)));
            e.push(entry("Register", Json::Object(f)));
        },
    }
    Json::Object(e)
}

fn member_uint(e: &Vec<(String, Json)>, key: &str) -> (r: Option<u64>)
    ensures
        r is Some <==> (field(e@, key@) matches Some(Json::UInt(_))),
        r matches Some(n) ==> (field(e@, key@) matches Some(v) && is_uint(v, n)),
{
    match get_member(e, key) {
        Some(Json::UInt(n)) => Some(*n),
        _ => None,
    }
}

fn decode_message_body(b: Json) -> (r: Result<Event, DecodeError>)
    ensures
        r is Ok <==> message_decodable(b),
        r matches Ok(ev) ==> (ev matches Event::Message {
            seconds_since_unix,
            nano_seconds,
            topics,
            data,
        } && (member(b, "seconds_since_unix"@) matches Some(s) && is_uint(s, seconds_since_unix))
            && (member(b, "nano_seconds"@) matches Some(n) && is_uint(n, nano_seconds as u64))
            && (member(b, "topics"@) matches Some(a) && is_str_array(a, views(topics@))) && member(
            b,
            "data"@,
        ) == Some(data)),
{
    match b {
        Json::Object(mut f) => {
            let seconds_since_unix = match member_uint(&f, "seconds_since_unix") {
                Some(s) => s,
                None => {
                    return Err(DecodeError::Malformed);
                },
            };
            let nanos = match member_uint(&f, "nano_seconds") {
                Some(n) => n,
                None => {
                    return Err(DecodeError::Malformed);
                },
            };
            if nanos > u32::MAX as u64 {
                return Err(DecodeError::Malformed);
            }
            let topics = match member_topics(&f) {
                Some(topics) => topics,
                None => {
                    return Err(DecodeError::Malformed);
                },
            };
            match find_field(&f, "data") {
                Some(i) => {
                    let (_, data) = f.remove(i);
                    Ok(
                        Event::Message {
                            seconds_since_unix,
                            nano_seconds: nanos as u32,
                            topics,
                            data,
                        },
                    )
                },
                None => Err(DecodeError::Malformed),
            }
        },
        _ => Err(DecodeError::Malformed),
    }
}

/// Reads an event from its remote form.
pub fn decode_event(j: Json) -> (r: Result<Event, DecodeError>)
    ensures
        r is Ok <==> event_decodable(j),
        r matches Ok(ev) ==> event_decoded(j, ev),
{
    match j {
        Json::Object(mut e) => {
            if e.len() != 1 {
                return Err(DecodeError::Malformed);
            }
            let ghost e0 = e@;
            let (name, body) = e.remove(0);
            proof {
                lemma_names_distinct();
                assert(e0[0].0@ == name@ && e0[0].1 == body);
            }
            if same_text(&name, "Message") {
                decode_message_body(body)
            } else if same_text(&name, "Register") {
                let topics = match &body {
                    Json::Object(f) => member_topics(f),
                    _ => None,
                };
                match topics {
                    Some(topics) => Ok(Event::Register { topics }),
                    None => Err(DecodeError::Malformed),
                }
            } else {
                Err(DecodeError::Malformed)
            }
        },
        _ => Err(DecodeError::Malformed),
    }
}

proof fn lemma_str_array_unique(j: Json, a: Seq<Seq<char>>, b: Seq<Seq<char>>)
    requires
        is_str_array(j, a),
        is_str_array(j, b),
    ensures
        a == b,
{
    if let Json::Array(v) = j {
        assert forall|i: int| 0 <= i < a.len() implies a[i] == b[i] by {
            assert(is_str(v@[i], a[i]));
            assert(is_str(v@[i], b[i]));
        }
        assert(a =~= b);
    }
}

proof fn lemma_all_strs(j: Json, a: Seq<Seq<char>>)
    requires
        is_str_array(j, a),
    ensures
        all_strs(j),
{
    if let Json::Array(v) = j {
        assert forall|i: int| 0 <= i < v@.len() implies (#[trigger] v@[i] is Str) by {
            assert(is_str(v@[i], a[i]));
        }
    }
}


proof fn lemma_names_distinct()
    ensures
        "type"@ != "topics"@,
        "type"@ != "data"@,
        "topics"@ != "data"@,
        "seconds_since_unix"@ != "nano_seconds"@,
        "seconds_since_unix"@ != "topics"@,
        "seconds_since_unix"@ != "data"@,
        "nano_seconds"@ != "topics"@,
        "nano_seconds"@ != "data"@,
        "Data"@ != "Register"@,
        "Data"@ != "Close"@,
        "Data"@ != "WebsocketClose"@,
        "Register"@ != "Close"@,
        "Register"@ != "WebsocketClose"@,
        "Close"@ != "WebsocketClose"@,
        "Message"@ != "Register"@,
{
    reveal_strlit("type");
    reveal_strlit("topics");
    reveal_strlit("data");
    reveal_strlit("seconds_since_unix");
    reveal_strlit("nano_seconds");
    reveal_strlit("Data");
    reveal_strlit("Register");
    reveal_strlit("Close");
    reveal_strlit("WebsocketClose");
    reveal_strlit("Message");
    assert("type"@[0] != "data"@[0]);
    assert("Data"@.len() != "Close"@.len());
    assert("Data"@.len() != "Register"@.len());
    assert("Close"@.len() != "Register"@.len());
    assert("Data"@.len() != "WebsocketClose"@.len());
    assert("Close"@.len() != "WebsocketClose"@.len());
    assert("Register"@.len() != "WebsocketClose"@.len());
    assert("Message"@.len() != "Register"@.len());
    assert("type"@.len() != "topics"@.len());
    assert("topics"@.len() != "data"@.len());
    assert("seconds_since_unix"@.len() != "nano_seconds"@.len());
    assert("seconds_since_unix"@.len() != "topics"@.len());
    assert("seconds_since_unix"@.len() != "data"@.len());
    assert("nano_seconds"@.len() != "topics"@.len());
    assert("nano_seconds"@.len() != "data"@.len());
}

/// Decoding the local form of a message gives back that message, field for
/// field, whatever its topics (none included) and payload.
pub proof fn lemma_client_round_trip(m: ClientMessage, j: Json, r: ClientMessage)
    requires
        client_encoded(m, j),
    ensures
        client_decodable(j),
        client_decoded(j, r) ==> same_client(r, m),
{
    lemma_names_distinct();
    let e = j->Object_0@;
    match m {
        ClientMessage::Data { topics, data } => {
            lemma_all_strs(e[1].1, views(topics@));
            assert(e.drop_last().last() == e[1]);
            assert(e.drop_last().drop_last().last() == e[0]);
            assert(field(e.drop_last().drop_last(), "type"@) == Some(e[0].1));
            assert(field(e.drop_last(), "type"@) == Some(e[0].1));
            assert(field(e.drop_last(), "topics"@) == Some(e[1].1));
            assert(field(e, "topics"@) == Some(e[1].1));
            if client_decoded(j, r) {
                if let ClientMessage::Data { topics: t2, data: d2 } = r {
                    lemma_str_array_unique(e[1].1, views(topics@), views(t2@));
                }
            }
        },
        ClientMessage::Register { topics } => {
            lemma_all_strs(e[1].1, views(topics@));
            assert(e.drop_last().last() == e[0]);
            assert(field(e.drop_last(), "type"@) == Some(e[0].1));
            assert(field(e, "topics"@) == Some(e[1].1));
            if client_decoded(j, r) {
                if let ClientMessage::Register { topics: t2 } = r {
                    lemma_str_array_unique(e[1].1, views(topics@), views(t2@));
                }
            }
        },
        _ => {},
    }
}

/// Decoding the remote form of an event gives back that event, field for
/// field, whatever its topics (none included) and payload.
pub proof fn lemma_event_round_trip(ev: Event, j: Json, r: Event)
    requires
        event_encoded(ev, j),
    ensures
        event_decodable(j),
        event_decoded(j, r) ==> same_event(r, ev),
{
    lemma_names_distinct();
    let b = j->Object_0@[0].1;
    let f = b->Object_0@;
    match ev {
        Event::Message { seconds_since_unix, nano_seconds, topics, data } => {
            lemma_all_strs(f[2].1, views(topics@));
            assert(f.drop_last().last() == f[2]);
            assert(f.drop_last().drop_last().last() == f[1]);
            assert(f.drop_last().drop_last().drop_last().last() == f[0]);
            let f1 = f.drop_last();
            let f2 = f1.drop_last();
            let f3 = f2.drop_last();
            assert(field(f3, "seconds_since_unix"@) == Some(f[0].1));
            assert(field(f2, "seconds_since_unix"@) == Some(f[0].1));
            assert(field(f1, "seconds_since_unix"@) == Some(f[0].1));
            assert(field(f2, "nano_seconds"@) == Some(f[1].1));
            assert(field(f1, "nano_seconds"@) == Some(f[1].1));
            assert(field(f1, "topics"@) == Some(f[2].1));
            if event_decoded(j, r) {
                if let Event::Message { topics: t2, .. } = r {
                    lemma_str_array_unique(f[2].1, views(topics@), views(t2@));
                }
            }
        },
        Event::Register { topics } => {
            lemma_all_strs(f[0].1, views(topics@));
            if event_decoded(j, r) {
                if let Event::Register { topics: t2 } = r {
                    lemma_str_array_unique(f[0].1, views(topics@), views(t2@));
                }
            }
        },
    }
}

} // verus!

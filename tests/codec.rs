use wsbridge::codec::{
    decode_client_message, decode_event, decode_topics, encode_client_message, encode_event,
    encode_topics, DecodeError,
};
use wsbridge::models::{ClientMessage, Event, Json};

fn s(t: &str) -> String {
    t.to_string()
}

fn obj(entries: Vec<(&str, Json)>) -> Json {
    Json::Object(entries.into_iter().map(|(k, v)| (s(k), v)).collect())
}

fn payload() -> Json {
    obj(vec![("x", Json::UInt(1)), ("y", Json::Array(vec![Json::Null, Json::Bool(true)]))])
}

#[test]
fn client_data_round_trip() {
    let m = || ClientMessage::Data { topics: vec![s("t1"), s("t2")], data: payload() };
    let j = encode_client_message(m());
    assert_eq!(decode_client_message(j), Ok(m()));
}

#[test]
fn client_round_trip_empty_topics_and_payload() {
    let m = || ClientMessage::Data { topics: vec![], data: obj(vec![]) };
    assert_eq!(decode_client_message(encode_client_message(m())), Ok(m()));
    let r = || ClientMessage::Register { topics: vec![] };
    assert_eq!(decode_client_message(encode_client_message(r())), Ok(r()));
}

#[test]
fn client_round_trip_every_variant() {
    let all = || {
        vec![
            ClientMessage::Register { topics: vec![s("a")] },
            ClientMessage::Close,
            ClientMessage::WebsocketClose,
        ]
    };
    for (m, expected) in all().into_iter().zip(all()) {
        assert_eq!(decode_client_message(encode_client_message(m)), Ok(expected));
    }
}

#[test]
fn client_encoding_is_tagged() {
    let j = encode_client_message(ClientMessage::Register { topics: vec![s("t1")] });
    assert_eq!(
        j,
        obj(vec![("type", Json::Str(s("Register"))), ("topics", Json::Array(vec![Json::Str(s("t1"))]))])
    );
    assert_eq!(encode_client_message(ClientMessage::Close), obj(vec![("type", Json::Str(s("Close")))]));
}

#[test]
fn event_round_trip() {
    let e = || Event::Message {
        seconds_since_unix: 1_700_000_000,
        nano_seconds: 999_999_999,
        topics: vec![s("t1")],
        data: payload(),
    };
    assert_eq!(decode_event(encode_event(e())), Ok(e()));
    let r = || Event::Register { topics: vec![] };
    assert_eq!(decode_event(encode_event(r())), Ok(r()));
    let m = || Event::Message { seconds_since_unix: 0, nano_seconds: 0, topics: vec![], data: obj(vec![]) };
    assert_eq!(decode_event(encode_event(m())), Ok(m()));
}

#[test]
fn event_encoding_is_externally_tagged() {
    let j = encode_event(Event::Register { topics: vec![s("t1")] });
    assert_eq!(
        j,
        obj(vec![("Register", obj(vec![("topics", Json::Array(vec![Json::Str(s("t1"))]))]))])
    );
}

#[test]
fn decode_ignores_unknown_fields_and_key_order() {
    let j = obj(vec![
        ("extra", Json::Null),
        ("data", Json::UInt(5)),
        ("topics", Json::Array(vec![Json::Str(s("a"))])),
        ("type", Json::Str(s("Data"))),
    ]);
    assert_eq!(
        decode_client_message(j),
        Ok(ClientMessage::Data { topics: vec![s("a")], data: Json::UInt(5) })
    );
}

#[test]
fn decode_rejects_malformed() {
    let bad = vec![
        Json::Null,
        obj(vec![]),
        obj(vec![("type", Json::Str(s("Nope")))]),
        obj(vec![("type", Json::UInt(1))]),
        obj(vec![("type", Json::Str(s("Register")))]),
        obj(vec![("type", Json::Str(s("Register"))), ("topics", Json::Array(vec![Json::UInt(1)]))]),
        obj(vec![("type", Json::Str(s("Data"))), ("topics", Json::Array(vec![]))]),
    ];
    for j in bad {
        assert_eq!(decode_client_message(j), Err(DecodeError::Malformed));
    }
}

#[test]
fn decode_event_rejects_malformed() {
    let too_big = obj(vec![(
        "Message",
        obj(vec![
            ("seconds_since_unix", Json::UInt(1)),
            ("nano_seconds", Json::UInt(u32::MAX as u64 + 1)),
            ("topics", Json::Array(vec![])),
            ("data", Json::Null),
        ]),
    )]);
    assert_eq!(decode_event(too_big), Err(DecodeError::Malformed));
    let two = obj(vec![
        ("Register", obj(vec![("topics", Json::Array(vec![]))])),
        ("Register", obj(vec![("topics", Json::Array(vec![]))])),
    ]);
    assert_eq!(decode_event(two), Err(DecodeError::Malformed));
    assert_eq!(decode_event(obj(vec![("Other", obj(vec![]))])), Err(DecodeError::Malformed));
}

#[test]
fn topics_codec() {
    let ts = vec![s("a"), s("b")];
    let j = encode_topics(&ts);
    assert_eq!(j, Json::Array(vec![Json::Str(s("a")), Json::Str(s("b"))]));
    assert_eq!(decode_topics(&j), Some(ts));
    assert_eq!(decode_topics(&Json::Str(s("a"))), None);
}

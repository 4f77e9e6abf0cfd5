use interconnect_core::{
    from_json, from_json_str, to_json, to_json_string, ClientWire, DecodeError, EncodeError,
    Identity, Json, Manifest, ServerWire, Wire,
};

#[derive(Debug, Clone, PartialEq)]
enum TestIntent {
    Move { x: i32, y: i32 },
    Chat { msg: String },
}

#[derive(Debug, Clone, PartialEq)]
struct TestSnapshot {
    tick: u64,
    players: Vec<String>,
}

fn obj(entries: Vec<(&str, Json)>) -> Json {
    Json::Obj(entries.into_iter().map(|(k, v)| (k.to_string(), v)).collect())
}

fn number(n: i64) -> Json {
    if n < 0 {
        Json::NegInt(n)
    } else {
        Json::UInt(n as u64)
    }
}

fn get<'a>(doc: &'a Json, key: &str) -> Option<&'a Json> {
    match doc {
        Json::Obj(entries) => entries.iter().find(|(k, _)| k == key).map(|(_, v)| v),
        _ => None,
    }
}

fn as_i32(doc: Option<&Json>) -> Result<i32, DecodeError> {
    match doc {
        Some(Json::UInt(n)) if *n <= i32::MAX as u64 => Ok(*n as i32),
        Some(Json::NegInt(n)) if *n >= i32::MIN as i64 => Ok(*n as i32),
        _ => Err(DecodeError::InvalidField),
    }
}

impl Wire for TestIntent {
    fn to_wire(&self) -> Result<Json, EncodeError> {
        Ok(match self {
            TestIntent::Move { x, y } => obj(vec![(
                "Move",
                obj(vec![("x", number(*x as i64)), ("y", number(*y as i64))]),
            )]),
            TestIntent::Chat { msg } => obj(vec![("Chat", obj(vec![("msg", Json::Str(msg.clone()))]))]),
        })
    }

    fn from_wire(doc: &Json) -> Result<Self, DecodeError> {
        if let Some(m) = get(doc, "Move") {
            return Ok(TestIntent::Move { x: as_i32(get(m, "x"))?, y: as_i32(get(m, "y"))? });
        }
        if let Some(c) = get(doc, "Chat") {
            if let Some(Json::Str(msg)) = get(c, "msg") {
                return Ok(TestIntent::Chat { msg: msg.clone() });
            }
        }
        Err(DecodeError::Payload)
    }
}

impl Wire for TestSnapshot {
    fn to_wire(&self) -> Result<Json, EncodeError> {
        Ok(obj(vec![
            ("tick", Json::UInt(self.tick)),
            ("players", Json::Arr(self.players.iter().map(|p| Json::Str(p.clone())).collect())),
        ]))
    }

    fn from_wire(doc: &Json) -> Result<Self, DecodeError> {
        let tick = match get(doc, "tick") {
            Some(Json::UInt(n)) => *n,
            _ => return Err(DecodeError::Payload),
        };
        let players = match get(doc, "players") {
            Some(Json::Arr(items)) => {
                let mut out = Vec::new();
                for item in items {
                    match item {
                        Json::Str(s) => out.push(s.clone()),
                        _ => return Err(DecodeError::Payload),
                    }
                }
                out
            }
            _ => return Err(DecodeError::Payload),
        };
        Ok(TestSnapshot { tick, players })
    }
}

#[test]
fn client_wire_roundtrip() {
    let msg: ClientWire<TestIntent> = ClientWire::Intent(TestIntent::Move { x: 1, y: 2 });
    let json = to_json_string(&msg).unwrap();
    let parsed: ClientWire<TestIntent> = from_json_str(&json).unwrap();

    match parsed {
        ClientWire::Intent(TestIntent::Move { x, y }) => {
            assert_eq!(x, 1);
            assert_eq!(y, 2);
        }
        _ => panic!("wrong variant"),
    }
}

#[test]
fn server_wire_roundtrip() {
    let msg: ServerWire<TestSnapshot> = ServerWire::Snapshot {
        seq: 42,
        data: TestSnapshot { tick: 100, players: vec!["alice".into()] },
    };
    let json = to_json_string(&msg).unwrap();
    let parsed: ServerWire<TestSnapshot> = from_json_str(&json).unwrap();

    match parsed {
        ServerWire::Snapshot { seq, data } => {
            assert_eq!(seq, 42);
            assert_eq!(data.tick, 100);
        }
        _ => panic!("wrong variant"),
    }
}

fn client_bytes_round_trip(msg: ClientWire<TestIntent>) -> ClientWire<TestIntent> {
    let bytes = to_json(&msg).unwrap();
    from_json(&bytes).unwrap()
}

#[test]
fn auth_round_trips_with_and_without_optional_fields() {
    let full: ClientWire<TestIntent> = ClientWire::Auth {
        identity: Identity::new("u1".to_string()),
        name: Some("Ann".to_string()),
        passport: Some(vec![0, 7, 255]),
    };
    match client_bytes_round_trip(full) {
        ClientWire::Auth { identity, name, passport } => {
            assert_eq!(identity.payload(), "u1");
            assert_eq!(name.as_deref(), Some("Ann"));
            assert_eq!(passport, Some(vec![0, 7, 255]));
        }
        _ => panic!("wrong variant"),
    }
    let bare: ClientWire<TestIntent> =
        ClientWire::Auth { identity: Identity::new("u2".to_string()), name: None, passport: None };
    match client_bytes_round_trip(bare) {
        ClientWire::Auth { identity, name, passport } => {
            assert_eq!(identity.payload(), "u2");
            assert_eq!(name, None);
            assert_eq!(passport, None);
        }
        _ => panic!("wrong variant"),
    }
}

#[test]
fn other_client_variants_round_trip() {
    match client_bytes_round_trip(ClientWire::Ack { seq: u64::MAX }) {
        ClientWire::Ack { seq } => assert_eq!(seq, u64::MAX),
        _ => panic!("wrong variant"),
    }
    match client_bytes_round_trip(ClientWire::TransferRequest { destination: "roomB".to_string() }) {
        ClientWire::TransferRequest { destination } => assert_eq!(destination, "roomB"),
        _ => panic!("wrong variant"),
    }
    assert!(matches!(client_bytes_round_trip(ClientWire::Ping), ClientWire::Ping));
    match client_bytes_round_trip(ClientWire::Intent(TestIntent::Chat { msg: "hi".to_string() })) {
        ClientWire::Intent(i) => assert_eq!(i, TestIntent::Chat { msg: "hi".to_string() }),
        _ => panic!("wrong variant"),
    }
    match client_bytes_round_trip(ClientWire::Intent(TestIntent::Move { x: -5, y: 0 })) {
        ClientWire::Intent(i) => assert_eq!(i, TestIntent::Move { x: -5, y: 0 }),
        _ => panic!("wrong variant"),
    }
}

#[test]
fn server_variants_round_trip() {
    let msgs: Vec<ServerWire<TestSnapshot>> = vec![
        ServerWire::Manifest(Manifest {
            identity: Identity::local("srv"),
            name: "Room A".to_string(),
            substrate: Some("abc".to_string()),
            metadata: obj(vec![("type", Json::Str("chat".to_string()))]),
        }),
        ServerWire::Transfer { destination: "roomB".to_string(), passport: vec![1, 2, 3] },
        ServerWire::error("bad".to_string(), "worse".to_string()),
        ServerWire::system("hello".to_string()),
        ServerWire::Pong,
    ];
    for msg in msgs {
        let bytes = to_json(&msg).unwrap();
        let back: ServerWire<TestSnapshot> = from_json(&bytes).unwrap();
        match (msg, back) {
            (ServerWire::Manifest(a), ServerWire::Manifest(b)) => {
                assert_eq!(a.identity.payload(), b.identity.payload());
                assert_eq!(a.name, b.name);
                assert_eq!(a.substrate, b.substrate);
                match get(&b.metadata, "type") {
                    Some(Json::Str(s)) => assert_eq!(s, "chat"),
                    _ => panic!("metadata lost"),
                }
            }
            (
                ServerWire::Transfer { destination: d1, passport: p1 },
                ServerWire::Transfer { destination: d2, passport: p2 },
            ) => {
                assert_eq!(d1, d2);
                assert_eq!(p1, p2);
            }
            (
                ServerWire::Error { code: c1, message: m1 },
                ServerWire::Error { code: c2, message: m2 },
            ) => {
                assert_eq!(c1, c2);
                assert_eq!(m1, m2);
            }
            (ServerWire::System { message: m1 }, ServerWire::System { message: m2 }) => {
                assert_eq!(m1, m2)
            }
            (ServerWire::Pong, ServerWire::Pong) => {}
            _ => panic!("wrong variant"),
        }
    }
}

#[test]
fn wire_text_uses_snake_case_tags() {
    let text = to_json_string(&ClientWire::<TestIntent>::TransferRequest {
        destination: "roomB".to_string(),
    })
    .unwrap();
    assert_eq!(text, "{\"type\":\"transfer_request\",\"destination\":\"roomB\"}");
    let bytes = to_json(&ClientWire::<TestIntent>::Ack { seq: 7 }).unwrap();
    assert_eq!(bytes, b"{\"type\":\"ack\",\"seq\":7}".to_vec());
    // Printing is a function of the message: two calls give the same bytes.
    assert_eq!(bytes, to_json(&ClientWire::<TestIntent>::Ack { seq: 7 }).unwrap());
    let text = to_json_string(&ServerWire::<TestSnapshot>::Pong).unwrap();
    assert_eq!(text, "{\"type\":\"pong\"}");
}

#[test]
fn decodes_text_written_elsewhere() {
    let msg: ClientWire<TestIntent> =
        from_json_str("{\"type\":\"auth\",\"identity\":\"u1\",\"name\":\"Ann\"}").unwrap();
    match msg {
        ClientWire::Auth { identity, name, passport } => {
            assert_eq!(identity.payload(), "u1");
            assert_eq!(name.as_deref(), Some("Ann"));
            assert_eq!(passport, None);
        }
        _ => panic!("wrong variant"),
    }
    let msg: ClientWire<TestIntent> =
        from_json_str("{\"type\":\"intent\",\"Move\":{\"x\":3,\"y\":-4}}").unwrap();
    match msg {
        ClientWire::Intent(i) => assert_eq!(i, TestIntent::Move { x: 3, y: -4 }),
        _ => panic!("wrong variant"),
    }
}

#[test]
fn unknown_tag_is_refused() {
    let r: Result<ClientWire<TestIntent>, DecodeError> = from_json_str("{\"type\":\"teleport\"}");
    assert_eq!(r.err(), Some(DecodeError::UnknownTag));
    let r: Result<ServerWire<TestSnapshot>, DecodeError> = from_json_str("{\"type\":\"ping\"}");
    assert_eq!(r.err(), Some(DecodeError::UnknownTag));
    let r: Result<ClientWire<TestIntent>, DecodeError> = from_json_str("{\"type\":\"Ping\"}");
    assert_eq!(r.err(), Some(DecodeError::UnknownTag));
}

#[test]
fn each_decode_error_has_an_input() {
    let cases: Vec<(&str, DecodeError)> = vec![
        ("{not json", DecodeError::Syntax),
        ("[1,2]", DecodeError::NotAnObject),
        ("{\"seq\":1}", DecodeError::MissingTag),
        ("{\"type\":5}", DecodeError::MissingTag),
        ("{\"type\":\"ack\"}", DecodeError::MissingField),
        ("{\"type\":\"ack\",\"seq\":\"1\"}", DecodeError::InvalidField),
        ("{\"type\":\"auth\",\"identity\":\"u\",\"passport\":[1,300]}", DecodeError::InvalidField),
        ("{\"type\":\"intent\",\"Fly\":{}}", DecodeError::Payload),
        ("{\"type\":\"ack\",\"seq\":1.5}", DecodeError::InvalidField),
    ];
    for (text, want) in cases {
        let r: Result<ClientWire<TestIntent>, DecodeError> = from_json_str(text);
        assert_eq!(r.err(), Some(want), "input {}", text);
    }
    assert_eq!(DecodeError::UnknownTag.reason(), "unrecognized \"type\" discriminator");
    assert_eq!(DecodeError::TooDeep.reason(), "the document nests too deeply");
}

#[test]
fn intent_that_is_not_an_object_cannot_be_framed() {
    let msg: ClientWire<Json> = ClientWire::Intent(Json::UInt(3));
    assert_eq!(to_json(&msg).err(), Some(EncodeError::Payload));
    let clash: ClientWire<Json> =
        ClientWire::Intent(obj(vec![("type", Json::Str("x".to_string()))]));
    assert_eq!(to_json(&clash).err(), Some(EncodeError::Payload));
}

#[test]
fn intent_document_round_trips_at_document_level() {
    let payload = obj(vec![("a", Json::UInt(1)), ("b", Json::Null)]);
    let msg: ClientWire<Json> = ClientWire::Intent(payload);
    let bytes = to_json(&msg).unwrap();
    let back: ClientWire<Json> = from_json(&bytes).unwrap();
    match back {
        ClientWire::Intent(Json::Obj(entries)) => {
            assert_eq!(entries.len(), 2);
            assert!(entries.iter().all(|(k, _)| k != "type"));
        }
        _ => panic!("wrong variant"),
    }
}

#[test]
fn fractional_numbers_are_carried_through() {
    let text = "{\"type\":\"snapshot\",\"seq\":3,\"data\":{\"x\":1.5,\"y\":[-0.25,2]}}";
    let msg: ServerWire<Json> = from_json_str(text).unwrap();
    match &msg {
        ServerWire::Snapshot { seq, data } => {
            assert_eq!(*seq, 3);
            assert!(matches!(get(data, "x"), Some(Json::Frac(_))));
        }
        _ => panic!("wrong variant"),
    }
    assert_eq!(to_json_string(&msg).unwrap(), text);
}

#[test]
fn nesting_past_the_limit_is_too_deep() {
    let v: serde_json::Value = serde_json::from_str("[[[1]]]").unwrap();
    assert!(matches!(interconnect_core::text::from_value(v.clone(), 3), Err(DecodeError::TooDeep)));
    assert!(interconnect_core::text::from_value(v, 4).is_ok());
}

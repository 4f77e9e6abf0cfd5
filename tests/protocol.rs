use interconnect_core::{
    from_json, from_json_str, to_json, ClientWire, Admission, Authority, Connection, ConnectionState, DecodeError,
    EncodeError, Identity, ImportResult, IntentError, Json, Rejection, ServerWire, Session,
    SimpleAuthority, Wire,
};

#[derive(Debug, Clone, PartialEq)]
struct Passport {
    name: String,
    origin: String,
}

impl Wire for Passport {
    fn to_wire(&self) -> Result<Json, EncodeError> {
        Ok(Json::Obj(vec![
            ("name".to_string(), Json::Str(self.name.clone())),
            ("origin".to_string(), Json::Str(self.origin.clone())),
        ]))
    }

    fn from_wire(doc: &Json) -> Result<Self, DecodeError> {
        let field = |key: &str| match doc {
            Json::Obj(entries) => entries.iter().find_map(|(k, v)| match v {
                Json::Str(s) if k == key => Some(s.clone()),
                _ => None,
            }),
            _ => None,
        };
        match (field("name"), field("origin")) {
            (Some(name), Some(origin)) => Ok(Passport { name, origin }),
            _ => Err(DecodeError::Payload),
        }
    }
}

/// A room that counts the calls made on it.
#[derive(Debug, Default)]
struct Room {
    name: String,
    peer: Option<String>,
    users: Vec<(u64, String)>,
    messages: Vec<String>,
    connects: usize,
    transfers_in: usize,
    disconnects: usize,
    passports: std::sync::atomic::AtomicUsize,
    reject_items: Vec<Rejection>,
    refuse_connect: bool,
}

#[derive(Debug, PartialEq)]
enum RoomError {
    Full,
    Unknown,
}

impl SimpleAuthority for Room {
    type Intent = String;
    type Snapshot = Vec<String>;
    type Passport = Passport;
    type Error = RoomError;

    fn on_connect(&mut self, session: &Session) -> Result<(), RoomError> {
        if self.refuse_connect {
            return Err(RoomError::Full);
        }
        self.connects += 1;
        self.users.push((session.id, session.name.clone()));
        Ok(())
    }

    fn on_transfer_in(
        &mut self,
        session: &Session,
        passport: Passport,
    ) -> Result<ImportResult<Passport>, RoomError> {
        self.transfers_in += 1;
        self.users.push((session.id, passport.name.clone()));
        if self.reject_items.is_empty() {
            Ok(ImportResult::accept(passport))
        } else {
            Ok(ImportResult::with_rejections(passport, self.reject_items.clone()))
        }
    }

    fn on_disconnect(&mut self, session: &Session) {
        self.disconnects += 1;
        self.users.retain(|(id, _)| *id != session.id);
    }

    fn handle_intent(&mut self, session: &Session, intent: String) -> Result<(), RoomError> {
        if !self.users.iter().any(|(id, _)| *id == session.id) {
            return Err(RoomError::Unknown);
        }
        self.messages.push(intent);
        Ok(())
    }

    fn snapshot(&self) -> Vec<String> {
        self.messages.clone()
    }

    fn emit_passport(&self, session: &Session) -> Passport {
        self.passports.fetch_add(1, std::sync::atomic::Ordering::SeqCst);
        let name = self
            .users
            .iter()
            .find(|(id, _)| *id == session.id)
            .map(|(_, n)| n.clone())
            .unwrap_or_else(|| session.name.clone());
        Passport { name, origin: self.name.clone() }
    }

    fn validate_destination(&self, destination: &str) -> bool {
        self.peer.as_deref() == Some(destination)
    }
}

fn room(name: &str, peer: Option<&str>) -> Room {
    Room { name: name.to_string(), peer: peer.map(|p| p.to_string()), ..Room::default() }
}

fn session(id: u64, identity: &str, name: &str) -> Session {
    Session::new(id, Identity::new(identity.to_string()), name.to_string())
}

#[test]
fn constructors_keep_their_arguments() {
    let s = session(7, "u7", "Gil");
    assert_eq!(s.id, 7);
    assert_eq!(s.identity.payload(), "u7");
    assert_eq!(s.name, "Gil");
    let r = Rejection::new("sword".to_string(), "too sharp".to_string());
    assert_eq!(r.item, "sword");
    assert_eq!(r.reason, "too sharp");
    let a = ImportResult::accept(5u8);
    assert_eq!(a.passport, 5);
    assert!(a.rejected.is_empty());
    let w = ImportResult::with_rejections(6u8, vec![r]);
    assert_eq!(w.passport, 6);
    assert_eq!(w.rejected.len(), 1);
    assert_eq!(w.rejected[0].item, "sword");
}

#[test]
fn adapter_shows_every_session_the_shared_snapshot() {
    let mut r = room("roomA", None);
    r.messages = vec!["hello".to_string(), "world".to_string()];
    let a = session(1, "u1", "Ann");
    let b = session(2, "u2", "Bob");
    let shared = SimpleAuthority::snapshot(&r);
    assert_eq!(Authority::snapshot_for(&r, &a), shared);
    assert_eq!(Authority::snapshot_for(&r, &b), shared);
}

#[test]
fn connect_without_passport_goes_live_after_first_snapshot() {
    let mut r = room("roomA", None);
    let mut c = Connection::new();
    assert_eq!(c.state(), ConnectionState::Connecting);
    let auth: ClientWire<Json> =
        from_json_str("{\"type\":\"auth\",\"identity\":\"u1\",\"name\":\"Ann\"}").unwrap();
    let (identity, name, passport) = match auth {
        ClientWire::Auth { identity, name, passport } => (identity, name.unwrap(), passport),
        _ => panic!("expected auth"),
    };
    assert!(passport.is_none());
    let admission = c.authenticate(&mut r, Session::new(1, identity, name), passport).unwrap();
    assert!(matches!(admission, Admission::Connected));
    assert!(admission.notice::<Json>().is_none());
    assert_eq!(r.connects, 1);
    assert_eq!(r.transfers_in, 0);
    assert_eq!(c.state(), ConnectionState::Syncing);
    assert_eq!(c.session().unwrap().name, "Ann");
    c.snapshot_delivered();
    assert_eq!(c.state(), ConnectionState::Live);
    // A second authentication on the same connection is ignored.
    let again = c.authenticate(&mut r, session(2, "u1", "Ann"), None).unwrap();
    assert!(matches!(again, Admission::Ignored));
    assert_eq!(r.connects, 1);
}

#[test]
fn refused_connect_leaves_connection_unregistered() {
    let mut r = room("roomA", None);
    r.refuse_connect = true;
    let mut c = Connection::new();
    assert_eq!(c.authenticate(&mut r, session(1, "u1", "Ann"), None).err(), Some(RoomError::Full));
    assert_eq!(c.state(), ConnectionState::Connecting);
    assert!(c.session().is_none());
    assert!(!c.close(&mut r));
    assert_eq!(r.disconnects, 0);
}

#[test]
fn invalid_destination_gets_error_and_no_passport() {
    let mut r = room("roomA", Some("roomC"));
    let mut c = Connection::new();
    c.authenticate(&mut r, session(1, "u1", "Ann"), None).unwrap();
    c.snapshot_delivered();
    let reply: Option<ServerWire<Json>> =
        c.transfer_request(&r, "roomB".to_string()).unwrap();
    match reply {
        Some(ServerWire::Error { code, message }) => {
            assert_eq!(code, "invalid_destination");
            assert!(message.contains("roomB"));
            assert_eq!(message, "Unknown destination: roomB");
        }
        _ => panic!("expected an error"),
    }
    assert_eq!(r.passports.load(std::sync::atomic::Ordering::SeqCst), 0);
    assert_eq!(c.state(), ConnectionState::Live);
}

#[test]
fn valid_transfer_reports_rejections_once_then_goes_live() {
    let mut source = room("roomA", Some("roomB"));
    let mut from = Connection::new();
    from.authenticate(&mut source, session(1, "u1", "Ann"), None).unwrap();
    from.snapshot_delivered();
    let reply: Option<ServerWire<Json>> =
        from.transfer_request(&source, "roomB".to_string()).unwrap();
    let bytes = match reply {
        Some(ServerWire::Transfer { destination, passport }) => {
            assert_eq!(destination, "roomB");
            passport
        }
        _ => panic!("expected a transfer"),
    };
    let emitted: Passport = from_json(&bytes).unwrap();
    assert_eq!(source.passports.load(std::sync::atomic::Ordering::SeqCst), 1);
    assert_eq!(emitted, Passport { name: "Ann".to_string(), origin: "roomA".to_string() });

    let mut dest = room("roomB", None);
    dest.reject_items = vec![Rejection::new("x".to_string(), "y".to_string())];
    let mut to = Connection::new();
    let admission = to.authenticate(&mut dest, session(9, "u1", "Ann"), Some(bytes)).unwrap();
    assert_eq!(dest.transfers_in, 1);
    assert_eq!(dest.connects, 0);
    let notices: Vec<ServerWire<Json>> = admission.notice().into_iter().collect();
    assert_eq!(notices.len(), 1);
    match &notices[0] {
        ServerWire::System { message } => assert_eq!(message, "Import: 1 items rejected"),
        _ => panic!("expected a system message"),
    }
    assert_eq!(to.state(), ConnectionState::Syncing);
    to.snapshot_delivered();
    assert_eq!(to.state(), ConnectionState::Live);
}

#[test]
fn transfer_without_rejections_sends_no_notice() {
    let mut dest = room("roomB", None);
    let bytes = to_json(&Passport { name: "Ann".to_string(), origin: "roomA".to_string() }).unwrap();
    let mut c = Connection::new();
    let admission = c.authenticate(&mut dest, session(3, "u1", "Ann"), Some(bytes)).unwrap();
    assert!(matches!(admission, Admission::TransferredIn { .. }));
    assert!(admission.notice::<Json>().is_none());
    assert_eq!(dest.users, vec![(3, "Ann".to_string())]);
}

#[test]
fn undecodable_passport_falls_back_to_connect() {
    let mut dest = room("roomB", None);
    let mut c = Connection::new();
    let admission = c
        .authenticate(&mut dest, session(4, "u1", "Ann"), Some(b"\xff garbage".to_vec()))
        .unwrap();
    assert!(matches!(admission, Admission::Connected));
    assert!(admission.notice::<Json>().is_none());
    assert_eq!(dest.connects, 1);
    assert_eq!(dest.transfers_in, 0);
    assert_eq!(c.state(), ConnectionState::Syncing);
    assert!(!c.is_closed());
    // Well-formed JSON of the wrong shape does not decode either.
    let mut d2 = room("roomB", None);
    let mut c2 = Connection::new();
    let wrong = b"{\"colour\":\"red\"}".to_vec();
    assert!(matches!(
        c2.authenticate(&mut d2, session(5, "u2", "Bo"), Some(wrong)).unwrap(),
        Admission::Connected
    ));
}

#[test]
fn intents_only_flow_while_live() {
    let mut r = room("roomA", None);
    let mut c = Connection::new();
    assert!(matches!(c.intent(&mut r, "early".to_string()), Err(IntentError::NotLive)));
    c.authenticate(&mut r, session(1, "u1", "Ann"), None).unwrap();
    assert!(matches!(c.intent(&mut r, "syncing".to_string()), Err(IntentError::NotLive)));
    c.snapshot_delivered();
    assert!(c.intent(&mut r, "hello".to_string()).is_ok());
    assert_eq!(r.messages, vec!["hello".to_string()]);
    c.authority_lost();
    assert_eq!(c.state(), ConnectionState::Ghosted);
    assert!(matches!(c.intent(&mut r, "ghost".to_string()), Err(IntentError::NotLive)));
    assert_eq!(r.messages.len(), 1);
}

#[test]
fn authority_error_is_handed_back() {
    let mut r = room("roomA", None);
    let mut c = Connection::new();
    c.authenticate(&mut r, session(1, "u1", "Ann"), None).unwrap();
    c.snapshot_delivered();
    r.users.clear();
    assert!(matches!(
        c.intent(&mut r, "x".to_string()),
        Err(IntentError::Authority(RoomError::Unknown))
    ));
}

#[test]
fn lifecycle_steps_only_forward() {
    let mut c = Connection::new();
    c.snapshot_delivered();
    assert_eq!(c.state(), ConnectionState::Connecting);
    c.authority_lost();
    assert_eq!(c.state(), ConnectionState::Connecting);
    let mut r = room("roomA", None);
    c.authenticate(&mut r, session(1, "u1", "Ann"), None).unwrap();
    c.authority_lost();
    assert_eq!(c.state(), ConnectionState::Syncing);
    c.snapshot_delivered();
    c.snapshot_delivered();
    assert_eq!(c.state(), ConnectionState::Live);
    c.authority_lost();
    c.snapshot_delivered();
    assert_eq!(c.state(), ConnectionState::Ghosted);
}

#[test]
fn disconnect_is_called_exactly_once() {
    let mut r = room("roomA", None);
    let mut c = Connection::new();
    c.authenticate(&mut r, session(1, "u1", "Ann"), None).unwrap();
    c.snapshot_delivered();
    c.authority_lost();
    assert!(c.close(&mut r));
    assert!(!c.close(&mut r));
    assert_eq!(r.disconnects, 1);
    assert!(c.is_closed());
    assert!(r.users.is_empty());
    let reply: Option<ServerWire<Json>> = c.transfer_request(&r, "x".to_string()).unwrap();
    assert!(reply.is_none());
}

#[test]
fn rejection_count_is_written_in_decimal() {
    let many: Vec<Rejection> =
        (0..12).map(|i| Rejection::new(format!("item{}", i), "no".to_string())).collect();
    let admission = Admission::TransferredIn { rejected: many };
    match admission.notice::<Json>() {
        Some(ServerWire::System { message }) => assert_eq!(message, "Import: 12 items rejected"),
        _ => panic!("expected a system message"),
    }
    assert_eq!(interconnect_core::connection::decimal_string(0), "0");
    assert_eq!(interconnect_core::connection::decimal_string(1050), "1050");
    assert_eq!(interconnect_core::connection::decimal_string(u64::MAX), "18446744073709551615");
}

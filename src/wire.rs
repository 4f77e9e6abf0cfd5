//! Wire messages and their framing as tagged JSON objects.
//!
//! Every message is a JSON object whose `"type"` entry names its variant in
//! snake case; the variant's fields stand beside it. An intent's own fields
//! are merged into the object, as are a manifest's.

use crate::identity::Identity;
use crate::json::{
    all_bytes, bytes_json, bytes_to_json, fields_view, json_bytes, json_to_bytes, lemma_view_shape, lookup,
    same_text, strip_key, Json, JsonV,
};
use crate::Manifest;
use vstd::prelude::*;

verus! {

/// A type that can be written to and read from the wire format. An
/// application's intent, snapshot and passport types implement it.
pub trait Wire: Sized {
    /// The document this value is written as, or why it cannot be written.
    /// An implementation verified with this library defines it; others leave
    /// it unspecified.
    closed spec fn written(&self) -> Result<JsonV, EncodeError> {
        arbitrary()
    }

    /// Whether `r` is what reading `doc` gives. An implementation verified
    /// with this library defines it; others leave it unspecified.
    closed spec fn read_as(doc: JsonV, r: Result<Self, DecodeError>) -> bool {
        arbitrary()
    }

    /// The document for this value.
    fn to_wire(&self) -> (r: Result<Json, EncodeError>)
        ensures
            match r {
                Ok(j) => self.written() == Ok::<JsonV, EncodeError>(j@),
                Err(e) => self.written() == Err::<JsonV, EncodeError>(e),
            },
    ;

    /// The value that a document stands for.
    fn from_wire(doc: &Json) -> (r: Result<Self, DecodeError>)
        ensures
            Self::read_as(doc@, r),
    ;
}

/// Messages sent from client to server.
#[derive(Debug, Clone)]
pub enum ClientWire<I> {
    /// Authenticate with the server.
    Auth { identity: Identity, name: Option<String>, passport: Option<Vec<u8>> },
    /// Send an intent.
    Intent(I),
    /// Acknowledge a snapshot.
    Ack { seq: u64 },
    /// Request transfer to another server.
    TransferRequest { destination: String },
    /// Keep-alive.
    Ping,
}

/// Messages sent from server to client.
#[derive(Debug, Clone)]
pub enum ServerWire<S> {
    /// Server manifest.
    Manifest(Manifest),
    /// State snapshot.
    Snapshot { seq: u64, data: S },
    /// Transfer directive.
    Transfer { destination: String, passport: Vec<u8> },
    /// Error message.
    Error { code: String, message: String },
    /// Informational message.
    System { message: String },
    /// Keep-alive response.
    Pong,
}

/// Why bytes or a document could not be read as a message.
#[derive(Debug, Clone, Copy, PartialEq, Eq, Structural)]
pub enum DecodeError {
    /// The bytes are not JSON text.
    Syntax,
    /// The document nests deeper than the codec reads.
    TooDeep,
    /// The document is not an object.
    NotAnObject,
    /// The `"type"` entry is absent or not a string.
    MissingTag,
    /// The `"type"` entry names no variant.
    UnknownTag,
    /// A required field is absent.
    MissingField,
    /// A field has the wrong shape.
    InvalidField,
    /// The application payload rejected its part of the document.
    Payload,
}

impl DecodeError {
    /// A human-readable reason.
    pub fn reason(&self) -> (r: &'static str)
        ensures
            match self {
                DecodeError::Syntax => r@ == "input is not valid JSON"@,
                DecodeError::TooDeep => r@ == "the document nests too deeply"@,
                DecodeError::NotAnObject => r@ == "message is not a JSON object"@,
                DecodeError::MissingTag => r@ == "missing or non-string \"type\" discriminator"@,
                DecodeError::UnknownTag => r@ == "unrecognized \"type\" discriminator"@,
                DecodeError::MissingField => r@ == "a required field is missing"@,
                DecodeError::InvalidField => r@ == "a field has the wrong type"@,
                DecodeError::Payload => r@ == "the application payload could not be decoded"@,
            },
    {
        match self {
            DecodeError::Syntax => "input is not valid JSON",
            DecodeError::TooDeep => "the document nests too deeply",
            DecodeError::NotAnObject => "message is not a JSON object",
            DecodeError::MissingTag => "missing or non-string \"type\" discriminator",
            DecodeError::UnknownTag => "unrecognized \"type\" discriminator",
            DecodeError::MissingField => "a required field is missing",
            DecodeError::InvalidField => "a field has the wrong type",
            DecodeError::Payload => "the application payload could not be decoded",
        }
    }
}

/// Why a message could not be written.
#[derive(Debug, Clone, Copy, PartialEq, Eq, Structural)]
pub enum EncodeError {
    /// The application payload cannot be framed: an intent must be an object
    /// without a `"type"` entry of its own.
    Payload,
}

/// The mathematical value of a client message.
pub enum ClientMsg<P> {
    Auth { identity: Seq<char>, name: Option<Seq<char>>, passport: Option<Seq<u8>> },
    Intent(P),
    Ack { seq: u64 },
    TransferRequest { destination: Seq<char> },
    Ping,
}

/// The mathematical value of a server message.
pub enum ServerMsg<P> {
    Manifest { identity: Seq<char>, name: Seq<char>, substrate: Option<Seq<char>>, metadata: JsonV },
    Snapshot { seq: u64, data: P },
    Transfer { destination: Seq<char>, passport: Seq<u8> },
    Error { code: Seq<char>, message: Seq<char> },
    System { message: Seq<char> },
    Pong,
}

pub open spec fn opt_text(o: Option<String>) -> Option<Seq<char>> {
    match o {
        Some(s) => Some(s@),
        None => None,
    }
}

pub open spec fn opt_bytes(o: Option<Vec<u8>>) -> Option<Seq<u8>> {
    match o {
        Some(b) => Some(b@),
        None => None,
    }
}

impl<I: View> View for ClientWire<I> {
    type V = ClientMsg<I::V>;

    open spec fn view(&self) -> ClientMsg<I::V> {
        match self {
            ClientWire::Auth { identity, name, passport } => ClientMsg::Auth {
                identity: identity@,
                name: opt_text(*name),
                passport: opt_bytes(*passport),
            },
            ClientWire::Intent(i) => ClientMsg::Intent(i@),
            ClientWire::Ack { seq } => ClientMsg::Ack { seq: *seq },
            ClientWire::TransferRequest { destination } => ClientMsg::TransferRequest {
                destination: destination@,
            },
            ClientWire::Ping => ClientMsg::Ping,
        }
    }
}

impl<S: View> View for ServerWire<S> {
    type V = ServerMsg<S::V>;

    open spec fn view(&self) -> ServerMsg<S::V> {
        match self {
            ServerWire::Manifest(m) => ServerMsg::Manifest {
                identity: m.identity@,
                name: m.name@,
                substrate: opt_text(m.substrate),
                metadata: m.metadata@,
            },
            ServerWire::Snapshot { seq, data } => ServerMsg::Snapshot { seq: *seq, data: data@ },
            ServerWire::Transfer { destination, passport } => ServerMsg::Transfer {
                destination: destination@,
                passport: passport@,
            },
            ServerWire::Error { code, message } => ServerMsg::Error {
                code: code@,
                message: message@,
            },
            ServerWire::System { message } => ServerMsg::System { message: message@ },
            ServerWire::Pong => ServerMsg::Pong,
        }
    }
}

// ---------------------------------------------------------------------------
// The encoding, stated over views.

pub type Fields = Seq<(Seq<char>, JsonV)>;

pub open spec fn tag_key() -> Seq<char> {
    "type"@
}

/// An object whose first entry is the tag, followed by `fields`.
pub open spec fn tagged(tag: Seq<char>, fields: Fields) -> JsonV {
    JsonV::Obj(seq![(tag_key(), JsonV::Str(tag))] + fields)
}

pub open spec fn opt_text_json(o: Option<Seq<char>>) -> JsonV {
    match o {
        Some(s) => JsonV::Str(s),
        None => JsonV::Null,
    }
}

pub open spec fn opt_bytes_json(o: Option<Seq<u8>>) -> JsonV {
    match o {
        Some(b) => bytes_json(b),
        None => JsonV::Null,
    }
}

/// Whether a client message can be framed: an intent must be an object
/// without a `"type"` entry.
pub open spec fn client_encodable(m: ClientMsg<JsonV>) -> bool {
    match m {
        ClientMsg::Intent(p) => p is Obj && lookup(p->Obj_0, tag_key()) is None,
        _ => true,
    }
}

/// The document for a client message that can be framed.
pub open spec fn client_json(m: ClientMsg<JsonV>) -> JsonV {
    match m {
        ClientMsg::Auth { identity, name, passport } => tagged(
            "auth"@,
            seq![
                ("identity"@, JsonV::Str(identity)),
                ("name"@, opt_text_json(name)),
                ("passport"@, opt_bytes_json(passport)),
            ],
        ),
        ClientMsg::Intent(p) => tagged("intent"@, p->Obj_0),
        ClientMsg::Ack { seq } => tagged("ack"@, seq![("seq"@, JsonV::UInt(seq))]),
        ClientMsg::TransferRequest { destination } => tagged(
            "transfer_request"@,
            seq![("destination"@, JsonV::Str(destination))],
        ),
        ClientMsg::Ping => tagged("ping"@, seq![]),
    }
}

/// The document for a server message.
pub open spec fn server_json(m: ServerMsg<JsonV>) -> JsonV {
    match m {
        ServerMsg::Manifest { identity, name, substrate, metadata } => tagged(
            "manifest"@,
            seq![
                ("identity"@, JsonV::Str(identity)),
                ("name"@, JsonV::Str(name)),
                ("substrate"@, opt_text_json(substrate)),
                ("metadata"@, metadata),
            ],
        ),
        ServerMsg::Snapshot { seq, data } => tagged(
            "snapshot"@,
            seq![("seq"@, JsonV::UInt(seq)), ("data"@, data)],
        ),
        ServerMsg::Transfer { destination, passport } => tagged(
            "transfer"@,
            seq![("destination"@, JsonV::Str(destination)), ("passport"@, bytes_json(passport))],
        ),
        ServerMsg::Error { code, message } => tagged(
            "error"@,
            seq![("code"@, JsonV::Str(code)), ("message"@, JsonV::Str(message))],
        ),
        ServerMsg::System { message } => tagged("system"@, seq![("message"@, JsonV::Str(message))]),
        ServerMsg::Pong => tagged("pong"@, seq![]),
    }
}

// ---------------------------------------------------------------------------
// The decoding, stated over views.

/// A required string field.
pub open spec fn text_field(fs: Fields, k: Seq<char>) -> Result<Seq<char>, DecodeError> {
    match lookup(fs, k) {
        None => Err(DecodeError::MissingField),
        Some(JsonV::Str(s)) => Ok(s),
        Some(_) => Err(DecodeError::InvalidField),
    }
}

/// An optional string field: absent or `null` is `None`.
pub open spec fn opt_text_field(fs: Fields, k: Seq<char>) -> Result<Option<Seq<char>>, DecodeError> {
    match lookup(fs, k) {
        None => Ok(None),
        Some(JsonV::Null) => Ok(None),
        Some(JsonV::Str(s)) => Ok(Some(s)),
        Some(_) => Err(DecodeError::InvalidField),
    }
}

/// A required unsigned integer field.
pub open spec fn u64_field(fs: Fields, k: Seq<char>) -> Result<u64, DecodeError> {
    match lookup(fs, k) {
        None => Err(DecodeError::MissingField),
        Some(JsonV::UInt(n)) => Ok(n),
        Some(_) => Err(DecodeError::InvalidField),
    }
}

/// A required byte-string field.
pub open spec fn bytes_field(fs: Fields, k: Seq<char>) -> Result<Seq<u8>, DecodeError> {
    match lookup(fs, k) {
        None => Err(DecodeError::MissingField),
        Some(j) => match json_bytes(j) {
            Some(b) => Ok(b),
            None => Err(DecodeError::InvalidField),
        },
    }
}

/// An optional byte-string field: absent or `null` is `None`.
pub open spec fn opt_bytes_field(fs: Fields, k: Seq<char>) -> Result<Option<Seq<u8>>, DecodeError> {
    match lookup(fs, k) {
        None => Ok(None),
        Some(JsonV::Null) => Ok(None),
        Some(j) => match json_bytes(j) {
            Some(b) => Ok(Some(b)),
            None => Err(DecodeError::InvalidField),
        },
    }
}

/// A required field of any shape.
pub open spec fn any_field(fs: Fields, k: Seq<char>) -> Result<JsonV, DecodeError> {
    match lookup(fs, k) {
        None => Err(DecodeError::MissingField),
        Some(j) => Ok(j),
    }
}

/// The tag of a message document and its entries.
pub open spec fn tag_of(j: JsonV) -> Result<Seq<char>, DecodeError> {
    match j {
        JsonV::Obj(fs) => match lookup(fs, tag_key()) {
            Some(JsonV::Str(t)) => Ok(t),
            _ => Err(DecodeError::MissingTag),
        },
        _ => Err(DecodeError::NotAnObject),
    }
}

/// Whether `t` names a client message variant.
pub open spec fn is_client_tag(t: Seq<char>) -> bool {
    t == "auth"@ || t == "intent"@ || t == "ack"@ || t == "transfer_request"@ || t == "ping"@
}

/// Whether `t` names a server message variant.
pub open spec fn is_server_tag(t: Seq<char>) -> bool {
    t == "manifest"@ || t == "snapshot"@ || t == "transfer"@ || t == "error"@ || t == "system"@
        || t == "pong"@
}

/// The client message that a document stands for. The tag decides the
/// variant; fields are checked in the order in which the variant lists them.
pub open spec fn client_parse(j: JsonV) -> Result<ClientMsg<JsonV>, DecodeError> {
    match tag_of(j) {
        Err(e) => Err(e),
        Ok(t) => {
            let fs = j->Obj_0;
            if t == "auth"@ {
                match text_field(fs, "identity"@) {
                    Err(e) => Err(e),
                    Ok(identity) => match opt_text_field(fs, "name"@) {
                        Err(e) => Err(e),
                        Ok(name) => match opt_bytes_field(fs, "passport"@) {
                            Err(e) => Err(e),
                            Ok(passport) => Ok(ClientMsg::Auth { identity, name, passport }),
                        },
                    },
                }
            } else if t == "intent"@ {
                Ok(ClientMsg::Intent(JsonV::Obj(strip_key(fs, tag_key()))))
            } else if t == "ack"@ {
                match u64_field(fs, "seq"@) {
                    Err(e) => Err(e),
                    Ok(seq) => Ok(ClientMsg::Ack { seq }),
                }
            } else if t == "transfer_request"@ {
                match text_field(fs, "destination"@) {
                    Err(e) => Err(e),
                    Ok(destination) => Ok(ClientMsg::TransferRequest { destination }),
                }
            } else if t == "ping"@ {
                Ok(ClientMsg::Ping)
            } else {
                Err(DecodeError::UnknownTag)
            }
        },
    }
}

/// The server message that a document stands for.
pub open spec fn server_parse(j: JsonV) -> Result<ServerMsg<JsonV>, DecodeError> {
    match tag_of(j) {
        Err(e) => Err(e),
        Ok(t) => {
            let fs = j->Obj_0;
            if t == "manifest"@ {
                match text_field(fs, "identity"@) {
                    Err(e) => Err(e),
                    Ok(identity) => match text_field(fs, "name"@) {
                        Err(e) => Err(e),
                        Ok(name) => match opt_text_field(fs, "substrate"@) {
                            Err(e) => Err(e),
                            Ok(substrate) => Ok(
                                ServerMsg::Manifest {
                                    identity,
                                    name,
                                    substrate,
                                    metadata: match lookup(fs, "metadata"@) {
                                        Some(m) => m,
                                        None => JsonV::Null,
                                    },
                                },
                            ),
                        },
                    },
                }
            } else if t == "snapshot"@ {
                match u64_field(fs, "seq"@) {
                    Err(e) => Err(e),
                    Ok(seq) => match any_field(fs, "data"@) {
                        Err(e) => Err(e),
                        Ok(data) => Ok(ServerMsg::Snapshot { seq, data }),
                    },
                }
            } else if t == "transfer"@ {
                match text_field(fs, "destination"@) {
                    Err(e) => Err(e),
                    Ok(destination) => match bytes_field(fs, "passport"@) {
                        Err(e) => Err(e),
                        Ok(passport) => Ok(ServerMsg::Transfer { destination, passport }),
                    },
                }
            } else if t == "error"@ {
                match text_field(fs, "code"@) {
                    Err(e) => Err(e),
                    Ok(code) => match text_field(fs, "message"@) {
                        Err(e) => Err(e),
                        Ok(message) => Ok(ServerMsg::Error { code, message }),
                    },
                }
            } else if t == "system"@ {
                match text_field(fs, "message"@) {
                    Err(e) => Err(e),
                    Ok(message) => Ok(ServerMsg::System { message }),
                }
            } else if t == "pong"@ {
                Ok(ServerMsg::Pong)
            } else {
                Err(DecodeError::UnknownTag)
            }
        },
    }
}

// ---------------------------------------------------------------------------
// Laws of the codec.

proof fn lemma_lookup_at(fs: Fields, i: int, k: Seq<char>)
    requires
        0 <= i < fs.len(),
        fs[i].0 == k,
        forall|j: int| 0 <= j < i ==> #[trigger] fs[j].0 != k,
    ensures
        lookup(fs, k) == Some(fs[i].1),
    decreases i,
{
    if i > 0 {
        assert(fs[0].0 != k);
        assert forall|j: int| 0 <= j < i - 1 implies #[trigger] fs.drop_first()[j].0 != k by {
            assert(fs.drop_first()[j] == fs[j + 1]);
        }
        lemma_lookup_at(fs.drop_first(), i - 1, k);
    }
}

proof fn lemma_strip_absent(fs: Fields, k: Seq<char>)
    requires
        lookup(fs, k) is None,
    ensures
        strip_key(fs, k) == fs,
    decreases fs.len(),
{
    if fs.len() > 0 {
        lemma_strip_absent(fs.drop_first(), k);
        assert(seq![fs[0]] + fs.drop_first() =~= fs);
    }
}

proof fn lemma_bytes_round_trip(b: Seq<u8>)
    ensures
        json_bytes(bytes_json(b)) == Some(b),
{
    let items = bytes_json(b)->Arr_0;
    assert(all_bytes(items));
    assert(Seq::new(items.len(), |i: int| items[i]->UInt_0 as u8) =~= b);
}

proof fn lemma_tag_names()
    ensures
        tag_key() != "identity"@,
        tag_key() != "name"@,
        tag_key() != "passport"@,
        tag_key() != "seq"@,
        tag_key() != "destination"@,
        tag_key() != "substrate"@,
        tag_key() != "metadata"@,
        tag_key() != "data"@,
        tag_key() != "code"@,
        tag_key() != "message"@,
        "identity"@ != "name"@,
        "identity"@ != "passport"@,
        "name"@ != "passport"@,
        "name"@ != "substrate"@,
        "name"@ != "metadata"@,
        "identity"@ != "substrate"@,
        "identity"@ != "metadata"@,
        "substrate"@ != "metadata"@,
        "seq"@ != "data"@,
        "destination"@ != "passport"@,
        "code"@ != "message"@,
        "auth"@ != "intent"@,
        "auth"@ != "ack"@,
        "auth"@ != "transfer_request"@,
        "auth"@ != "ping"@,
        "intent"@ != "ack"@,
        "intent"@ != "transfer_request"@,
        "intent"@ != "ping"@,
        "ack"@ != "transfer_request"@,
        "ack"@ != "ping"@,
        "transfer_request"@ != "ping"@,
        "manifest"@ != "snapshot"@,
        "manifest"@ != "transfer"@,
        "manifest"@ != "error"@,
        "manifest"@ != "system"@,
        "manifest"@ != "pong"@,
        "snapshot"@ != "transfer"@,
        "snapshot"@ != "error"@,
        "snapshot"@ != "system"@,
        "snapshot"@ != "pong"@,
        "transfer"@ != "error"@,
        "transfer"@ != "system"@,
        "transfer"@ != "pong"@,
        "error"@ != "system"@,
        "error"@ != "pong"@,
        "system"@ != "pong"@,
{
    reveal_strlit("ack");
    reveal_strlit("auth");
    reveal_strlit("code");
    reveal_strlit("data");
    reveal_strlit("destination");
    reveal_strlit("error");
    reveal_strlit("identity");
    reveal_strlit("intent");
    reveal_strlit("manifest");
    reveal_strlit("message");
    reveal_strlit("metadata");
    reveal_strlit("name");
    reveal_strlit("passport");
    reveal_strlit("ping");
    reveal_strlit("pong");
    reveal_strlit("seq");
    reveal_strlit("snapshot");
    reveal_strlit("substrate");
    reveal_strlit("system");
    reveal_strlit("transfer");
    reveal_strlit("transfer_request");
    reveal_strlit("type");
    assert("type"@[0] != "identity"@[0]);
    assert("type"@[0] != "name"@[0]);
    assert("type"@[0] != "passport"@[0]);
    assert("type"@[0] != "seq"@[0]);
    assert("type"@[0] != "destination"@[0]);
    assert("type"@[0] != "substrate"@[0]);
    assert("type"@[0] != "metadata"@[0]);
    assert("type"@[0] != "data"@[0]);
    assert("type"@[0] != "code"@[0]);
    assert("type"@[0] != "message"@[0]);
    assert("identity"@[0] != "name"@[0]);
    assert("identity"@[0] != "passport"@[0]);
    assert("name"@[0] != "passport"@[0]);
    assert("name"@[0] != "substrate"@[0]);
    assert("name"@[0] != "metadata"@[0]);
    assert("identity"@[0] != "substrate"@[0]);
    assert("identity"@[0] != "metadata"@[0]);
    assert("substrate"@[0] != "metadata"@[0]);
    assert("seq"@[0] != "data"@[0]);
    assert("destination"@[0] != "passport"@[0]);
    assert("code"@[0] != "message"@[0]);
    assert("auth"@[0] != "intent"@[0]);
    assert("auth"@.len() != "ack"@.len());
    assert("auth"@[0] != "transfer_request"@[0]);
    assert("auth"@[0] != "ping"@[0]);
    assert("intent"@[0] != "ack"@[0]);
    assert("intent"@[0] != "transfer_request"@[0]);
    assert("intent"@[0] != "ping"@[0]);
    assert("ack"@[0] != "transfer_request"@[0]);
    assert("ack"@[0] != "ping"@[0]);
    assert("transfer_request"@[0] != "ping"@[0]);
    assert("manifest"@[0] != "snapshot"@[0]);
    assert("manifest"@[0] != "transfer"@[0]);
    assert("manifest"@[0] != "error"@[0]);
    assert("manifest"@[0] != "system"@[0]);
    assert("manifest"@[0] != "pong"@[0]);
    assert("snapshot"@[0] != "transfer"@[0]);
    assert("snapshot"@[0] != "error"@[0]);
    assert("snapshot"@.len() != "system"@.len());
    assert("snapshot"@[0] != "pong"@[0]);
    assert("transfer"@[0] != "error"@[0]);
    assert("transfer"@[0] != "system"@[0]);
    assert("transfer"@[0] != "pong"@[0]);
    assert("error"@[0] != "system"@[0]);
    assert("error"@[0] != "pong"@[0]);
    assert("system"@[0] != "pong"@[0]);
}

/// Round trip of client messages: for every client message that can be
/// framed, decoding its document gives the same message back.
pub proof fn lemma_client_round_trip(m: ClientMsg<JsonV>)
    requires
        client_encodable(m),
    ensures
        client_parse(client_json(m)) == Ok::<ClientMsg<JsonV>, DecodeError>(m),
{
    lemma_tag_names();
    let j = client_json(m);
    let fs = j->Obj_0;
    lemma_lookup_at(fs, 0, tag_key());
    match m {
        ClientMsg::Auth { identity, name, passport } => {
            lemma_lookup_at(fs, 1, "identity"@);
            lemma_lookup_at(fs, 2, "name"@);
            lemma_lookup_at(fs, 3, "passport"@);
            if let Some(b) = passport {
                lemma_bytes_round_trip(b);
            }
        },
        ClientMsg::Intent(p) => {
            let rest = p->Obj_0;
            assert(fs.drop_first() =~= rest);
            lemma_strip_absent(rest, tag_key());
        },
        ClientMsg::Ack { seq } => {
            lemma_lookup_at(fs, 1, "seq"@);
        },
        ClientMsg::TransferRequest { destination } => {
            lemma_lookup_at(fs, 1, "destination"@);
        },
        ClientMsg::Ping => {},
    }
}

/// Round trip of server messages: decoding the document of any server
/// message gives the same message back.
pub proof fn lemma_server_round_trip(m: ServerMsg<JsonV>)
    ensures
        server_parse(server_json(m)) == Ok::<ServerMsg<JsonV>, DecodeError>(m),
{
    lemma_tag_names();
    let j = server_json(m);
    let fs = j->Obj_0;
    lemma_lookup_at(fs, 0, tag_key());
    match m {
        ServerMsg::Manifest { identity, name, substrate, metadata } => {
            lemma_lookup_at(fs, 1, "identity"@);
            lemma_lookup_at(fs, 2, "name"@);
            lemma_lookup_at(fs, 3, "substrate"@);
            lemma_lookup_at(fs, 4, "metadata"@);
        },
        ServerMsg::Snapshot { seq, data } => {
            lemma_lookup_at(fs, 1, "seq"@);
            lemma_lookup_at(fs, 2, "data"@);
        },
        ServerMsg::Transfer { destination, passport } => {
            lemma_lookup_at(fs, 1, "destination"@);
            lemma_lookup_at(fs, 2, "passport"@);
            lemma_bytes_round_trip(passport);
        },
        ServerMsg::Error { code, message } => {
            lemma_lookup_at(fs, 1, "code"@);
            lemma_lookup_at(fs, 2, "message"@);
        },
        ServerMsg::System { message } => {
            lemma_lookup_at(fs, 1, "message"@);
        },
        ServerMsg::Pong => {},
    }
}

/// Discriminator fidelity: an object whose tag names no client variant is
/// refused, whatever else it holds.
pub proof fn lemma_client_unknown_tag(j: JsonV)
    requires
        tag_of(j) is Ok,
        !is_client_tag(tag_of(j)->Ok_0),
    ensures
        client_parse(j) == Err::<ClientMsg<JsonV>, DecodeError>(DecodeError::UnknownTag),
{
}

/// Discriminator fidelity: an object whose tag names no server variant is
/// refused, whatever else it holds.
pub proof fn lemma_server_unknown_tag(j: JsonV)
    requires
        tag_of(j) is Ok,
        !is_server_tag(tag_of(j)->Ok_0),
    ensures
        server_parse(j) == Err::<ServerMsg<JsonV>, DecodeError>(DecodeError::UnknownTag),
{
}

/// Only documents with a recognized tag decode: a successful decode always
/// names one of the client variants.
pub proof fn lemma_client_decoded_tag(j: JsonV)
    requires
        client_parse(j) is Ok,
    ensures
        tag_of(j) is Ok,
        is_client_tag(tag_of(j)->Ok_0),
{
}

/// Only documents with a recognized tag decode: a successful decode always
/// names one of the server variants.
pub proof fn lemma_server_decoded_tag(j: JsonV)
    requires
        server_parse(j) is Ok,
    ensures
        tag_of(j) is Ok,
        is_server_tag(tag_of(j)->Ok_0),
{
}

// ---------------------------------------------------------------------------
// Building documents.

fn fields1(k1: &str, v1: Json) -> (r: Vec<(String, Json)>)
    ensures
        fields_view(r) == seq![(k1@, v1@)],
{
    let mut r: Vec<(String, Json)> = Vec::new();
    r.push((k1.to_owned(), v1));
    assert(fields_view(r) =~= seq![(k1@, v1@)]);
    r
}

fn fields2(k1: &str, v1: Json, k2: &str, v2: Json) -> (r: Vec<(String, Json)>)
    ensures
        fields_view(r) == seq![(k1@, v1@), (k2@, v2@)],
{
    let mut r: Vec<(String, Json)> = Vec::new();
    r.push((k1.to_owned(), v1));
    r.push((k2.to_owned(), v2));
    assert(fields_view(r) =~= seq![(k1@, v1@), (k2@, v2@)]);
    r
}

fn fields3(k1: &str, v1: Json, k2: &str, v2: Json, k3: &str, v3: Json) -> (r: Vec<(String, Json)>)
    ensures
        fields_view(r) == seq![(k1@, v1@), (k2@, v2@), (k3@, v3@)],
{
    let mut r: Vec<(String, Json)> = Vec::new();
    r.push((k1.to_owned(), v1));
    r.push((k2.to_owned(), v2));
    r.push((k3.to_owned(), v3));
    assert(fields_view(r) =~= seq![(k1@, v1@), (k2@, v2@), (k3@, v3@)]);
    r
}

fn fields4(k1: &str, v1: Json, k2: &str, v2: Json, k3: &str, v3: Json, k4: &str, v4: Json) -> (r: Vec<
    (String, Json),
>)
    ensures
        fields_view(r) == seq![(k1@, v1@), (k2@, v2@), (k3@, v3@), (k4@, v4@)],
{
    let mut r: Vec<(String, Json)> = Vec::new();
    r.push((k1.to_owned(), v1));
    r.push((k2.to_owned(), v2));
    r.push((k3.to_owned(), v3));
    r.push((k4.to_owned(), v4));
    assert(fields_view(r) =~= seq![(k1@, v1@), (k2@, v2@), (k3@, v3@), (k4@, v4@)]);
    r
}

fn tagged_obj(tag: &str, rest: Vec<(String, Json)>) -> (r: Json)
    ensures
        r@ == tagged(tag@, fields_view(rest)),
{
    let ghost old_rest = rest;
    let mut fs = rest;
    let head = ("type".to_owned(), Json::Str(tag.to_owned()));
    assert(head.0@ == tag_key() && head.1@ == JsonV::Str(tag@));
    fs.insert(0, head);
    let r = Json::Obj(fs);
    let ghost want = tagged(tag@, fields_view(old_rest))->Obj_0;
    assert(r@->Obj_0.len() == want.len());
    assert forall|i: int| 0 <= i < want.len() implies r@->Obj_0[i] == want[i] by {
        if i > 0 {
            assert(fs@[i] == old_rest@[i - 1]);
        }
    }
    assert(r@->Obj_0 =~= want);
    r
}

fn text_json(s: &String) -> (r: Json)
    ensures
        r@ == JsonV::Str(s@),
{
    Json::Str(s.clone())
}

fn opt_text_to_json(o: &Option<String>) -> (r: Json)
    ensures
        r@ == opt_text_json(opt_text(*o)),
{
    match o {
        Some(s) => Json::Str(s.clone()),
        None => Json::Null,
    }
}

fn opt_bytes_to_json(o: &Option<Vec<u8>>) -> (r: Json)
    ensures
        r@ == opt_bytes_json(opt_bytes(*o)),
{
    match o {
        Some(b) => bytes_to_json(b),
        None => Json::Null,
    }
}

/// The document for a client message whose payload is a document.
pub fn encode_client(m: &ClientWire<Json>) -> (r: Result<Json, EncodeError>)
    ensures
        r is Ok <==> client_encodable(m@),
        r is Ok ==> r->Ok_0@ == client_json(m@),
{
    match m {
        ClientWire::Auth { identity, name, passport } => {
            let id = Json::Str(identity.payload().to_owned());
            Ok(
                tagged_obj(
                    "auth",
                    fields3(
                        "identity",
                        id,
                        "name",
                        opt_text_to_json(name),
                        "passport",
                        opt_bytes_to_json(passport),
                    ),
                ),
            )
        },
        ClientWire::Intent(p) => {
            proof {
                lemma_view_shape(*p);
            }
            match p {
                Json::Obj(fs) => {
                    if Json::find(fs, "type").is_some() {
                        Err(EncodeError::Payload)
                    } else {
                        let c = p.copy();
                        proof {
                            lemma_view_shape(c);
                        }
                        match c {
                            Json::Obj(cfs) => Ok(tagged_obj("intent", cfs)),
                            _ => Err(EncodeError::Payload),
                        }
                    }
                },
                _ => Err(EncodeError::Payload),
            }
        },
        ClientWire::Ack { seq } => Ok(tagged_obj("ack", fields1("seq", Json::UInt(*seq)))),
        ClientWire::TransferRequest { destination } => Ok(
            tagged_obj("transfer_request", fields1("destination", text_json(destination))),
        ),
        ClientWire::Ping => Ok(tagged_obj("ping", Vec::new())),
    }
}

/// The document for a server message whose payload is a document.
pub fn encode_server(m: &ServerWire<Json>) -> (r: Json)
    ensures
        r@ == server_json(m@),
{
    match m {
        ServerWire::Manifest(man) => {
            let id = Json::Str(man.identity.payload().to_owned());
            tagged_obj(
                "manifest",
                fields4(
                    "identity",
                    id,
                    "name",
                    text_json(&man.name),
                    "substrate",
                    opt_text_to_json(&man.substrate),
                    "metadata",
                    man.metadata.copy(),
                ),
            )
        },
        ServerWire::Snapshot { seq, data } => tagged_obj(
            "snapshot",
            fields2("seq", Json::UInt(*seq), "data", data.copy()),
        ),
        ServerWire::Transfer { destination, passport } => tagged_obj(
            "transfer",
            fields2("destination", text_json(destination), "passport", bytes_to_json(passport)),
        ),
        ServerWire::Error { code, message } => tagged_obj(
            "error",
            fields2("code", text_json(code), "message", text_json(message)),
        ),
        ServerWire::System { message } => tagged_obj(
            "system",
            fields1("message", text_json(message)),
        ),
        ServerWire::Pong => tagged_obj("pong", Vec::new()),
    }
}

// ---------------------------------------------------------------------------
// Reading documents.

fn text_at(fs: &Vec<(String, Json)>, k: &str) -> (r: Result<String, DecodeError>)
    ensures
        match r {
            Ok(t) => text_field(fields_view(*fs), k@) == Ok::<Seq<char>, DecodeError>(t@),
            Err(e) => text_field(fields_view(*fs), k@) == Err::<Seq<char>, DecodeError>(e),
        },
{
    match Json::find(fs, k) {
        None => Err(DecodeError::MissingField),
        Some(i) => {
            proof {
                lemma_view_shape(fs@[i as int].1);
            }
            match &fs[i].1 {
                Json::Str(t) => Ok(t.clone()),
                _ => Err(DecodeError::InvalidField),
            }
        },
    }
}

fn opt_text_at(fs: &Vec<(String, Json)>, k: &str) -> (r: Result<Option<String>, DecodeError>)
    ensures
        match r {
            Ok(t) => opt_text_field(fields_view(*fs), k@) == Ok::<Option<Seq<char>>, DecodeError>(
                opt_text(t),
            ),
            Err(e) => opt_text_field(fields_view(*fs), k@) == Err::<Option<Seq<char>>, DecodeError>(
                e,
            ),
        },
{
    match Json::find(fs, k) {
        None => Ok(None),
        Some(i) => {
            proof {
                lemma_view_shape(fs@[i as int].1);
            }
            match &fs[i].1 {
                Json::Null => Ok(None),
                Json::Str(t) => Ok(Some(t.clone())),
                _ => Err(DecodeError::InvalidField),
            }
        },
    }
}

fn u64_at(fs: &Vec<(String, Json)>, k: &str) -> (r: Result<u64, DecodeError>)
    ensures
        r == u64_field(fields_view(*fs), k@),
{
    match Json::find(fs, k) {
        None => Err(DecodeError::MissingField),
        Some(i) => {
            proof {
                lemma_view_shape(fs@[i as int].1);
            }
            match &fs[i].1 {
                Json::UInt(n) => Ok(*n),
                _ => Err(DecodeError::InvalidField),
            }
        },
    }
}

fn bytes_at(fs: &Vec<(String, Json)>, k: &str) -> (r: Result<Vec<u8>, DecodeError>)
    ensures
        match r {
            Ok(b) => bytes_field(fields_view(*fs), k@) == Ok::<Seq<u8>, DecodeError>(b@),
            Err(e) => bytes_field(fields_view(*fs), k@) == Err::<Seq<u8>, DecodeError>(e),
        },
{
    match Json::find(fs, k) {
        None => Err(DecodeError::MissingField),
        Some(i) => match json_to_bytes(&fs[i].1) {
            Some(b) => Ok(b),
            None => Err(DecodeError::InvalidField),
        },
    }
}

fn opt_bytes_at(fs: &Vec<(String, Json)>, k: &str) -> (r: Result<Option<Vec<u8>>, DecodeError>)
    ensures
        match r {
            Ok(b) => opt_bytes_field(fields_view(*fs), k@) == Ok::<Option<Seq<u8>>, DecodeError>(
                opt_bytes(b),
            ),
            Err(e) => opt_bytes_field(fields_view(*fs), k@) == Err::<Option<Seq<u8>>, DecodeError>(
                e,
            ),
        },
{
    match Json::find(fs, k) {
        None => Ok(None),
        Some(i) => {
            proof {
                lemma_view_shape(fs@[i as int].1);
            }
            match &fs[i].1 {
                Json::Null => Ok(None),
                other => match json_to_bytes(other) {
                    Some(b) => Ok(Some(b)),
                    None => Err(DecodeError::InvalidField),
                },
            }
        },
    }
}

fn any_at(fs: &Vec<(String, Json)>, k: &str) -> (r: Result<Json, DecodeError>)
    ensures
        match r {
            Ok(j) => any_field(fields_view(*fs), k@) == Ok::<JsonV, DecodeError>(j@),
            Err(e) => any_field(fields_view(*fs), k@) == Err::<JsonV, DecodeError>(e),
        },
{
    match Json::find(fs, k) {
        None => Err(DecodeError::MissingField),
        Some(i) => Ok(fs[i].1.copy()),
    }
}

/// The entries of an object without its tag.
fn strip_tag(fs: &Vec<(String, Json)>) -> (r: Vec<(String, Json)>)
    ensures
        fields_view(r) == strip_key(fields_view(*fs), tag_key()),
{
    let ghost all = fields_view(*fs);
    let mut out: Vec<(String, Json)> = Vec::new();
    let mut i: usize = 0;
    assert(all.subrange(0, all.len() as int) =~= all);
    assert(fields_view(out) =~= Seq::<(Seq<char>, JsonV)>::empty());
    while i < fs.len()
        invariant
            i <= fs@.len(),
            all == fields_view(*fs),
            all.len() == fs@.len(),
            strip_key(all, tag_key()) == fields_view(out) + strip_key(
                all.subrange(i as int, all.len() as int),
                tag_key(),
            ),
        decreases fs@.len() - i,
    {
        let ghost rest = all.subrange(i as int, all.len() as int);
        assert(rest.drop_first() =~= all.subrange(i + 1, all.len() as int));
        assert(rest[0] == all[i as int]);
        assert(all[i as int] == (fs@[i as int].0@, fs@[i as int].1@));
        if !same_text(&fs[i].0, "type") {
            let ghost before = fields_view(out);
            let entry = (fs[i].0.clone(), fs[i].1.copy());
            out.push(entry);
            assert(fields_view(out) =~= before.push(all[i as int]));
            assert(seq![all[i as int]] + strip_key(rest.drop_first(), tag_key()) == strip_key(
                rest,
                tag_key(),
            ));
            assert(before + strip_key(rest, tag_key()) =~= fields_view(out) + strip_key(
                rest.drop_first(),
                tag_key(),
            ));
        }
        i = i + 1;
    }
    assert(all.subrange(fs@.len() as int, all.len() as int) =~= Seq::<(Seq<char>, JsonV)>::empty());
    assert(fields_view(out) + Seq::<(Seq<char>, JsonV)>::empty() =~= fields_view(out));
    out
}

/// The tag of a message document, with the object's entries.
fn tag_at(j: &Json) -> (r: Result<(&String, &Vec<(String, Json)>), DecodeError>)
    ensures
        match r {
            Ok((t, fs)) => tag_of(j@) == Ok::<Seq<char>, DecodeError>(t@) && j@->Obj_0 == fields_view(
                *fs,
            ),
            Err(e) => tag_of(j@) == Err::<Seq<char>, DecodeError>(e),
        },
{
    proof {
        lemma_view_shape(*j);
    }
    match j {
        Json::Obj(fs) => match Json::find(fs, "type") {
            None => Err(DecodeError::MissingTag),
            Some(i) => {
                proof {
                    lemma_view_shape(fs@[i as int].1);
                }
                match &fs[i].1 {
                    Json::Str(t) => Ok((t, fs)),
                    _ => Err(DecodeError::MissingTag),
                }
            },
        },
        _ => Err(DecodeError::NotAnObject),
    }
}

/// The client message, with a document as payload, that a document stands
/// for.
pub fn decode_client(j: &Json) -> (r: Result<ClientWire<Json>, DecodeError>)
    ensures
        match r {
            Ok(m) => client_parse(j@) == Ok::<ClientMsg<JsonV>, DecodeError>(m@),
            Err(e) => client_parse(j@) == Err::<ClientMsg<JsonV>, DecodeError>(e),
        },
{
    let (t, fs) = match tag_at(j) {
        Ok(p) => p,
        Err(e) => return Err(e),
    };
    if same_text(t, "auth") {
        let identity = match text_at(fs, "identity") {
            Ok(s) => s,
            Err(e) => return Err(e),
        };
        let name = match opt_text_at(fs, "name") {
            Ok(s) => s,
            Err(e) => return Err(e),
        };
        let passport = match opt_bytes_at(fs, "passport") {
            Ok(b) => b,
            Err(e) => return Err(e),
        };
        Ok(ClientWire::Auth { identity: Identity::new(identity), name, passport })
    } else if same_text(t, "intent") {
        Ok(ClientWire::Intent(Json::Obj(strip_tag(fs))))
    } else if same_text(t, "ack") {
        match u64_at(fs, "seq") {
            Ok(seq) => Ok(ClientWire::Ack { seq }),
            Err(e) => Err(e),
        }
    } else if same_text(t, "transfer_request") {
        match text_at(fs, "destination") {
            Ok(destination) => Ok(ClientWire::TransferRequest { destination }),
            Err(e) => Err(e),
        }
    } else if same_text(t, "ping") {
        Ok(ClientWire::Ping)
    } else {
        Err(DecodeError::UnknownTag)
    }
}

/// The server message, with a document as payload, that a document stands
/// for.
pub fn decode_server(j: &Json) -> (r: Result<ServerWire<Json>, DecodeError>)
    ensures
        match r {
            Ok(m) => server_parse(j@) == Ok::<ServerMsg<JsonV>, DecodeError>(m@),
            Err(e) => server_parse(j@) == Err::<ServerMsg<JsonV>, DecodeError>(e),
        },
{
    let (t, fs) = match tag_at(j) {
        Ok(p) => p,
        Err(e) => return Err(e),
    };
    if same_text(t, "manifest") {
        let identity = match text_at(fs, "identity") {
            Ok(s) => s,
            Err(e) => return Err(e),
        };
        let name = match text_at(fs, "name") {
            Ok(s) => s,
            Err(e) => return Err(e),
        };
        let substrate = match opt_text_at(fs, "substrate") {
            Ok(s) => s,
            Err(e) => return Err(e),
        };
        let metadata = match Json::find(fs, "metadata") {
            Some(i) => fs[i].1.copy(),
            None => Json::Null,
        };
        Ok(
            ServerWire::Manifest(
                Manifest { identity: Identity::new(identity), name, substrate, metadata },
            ),
        )
    } else if same_text(t, "snapshot") {
        let seq = match u64_at(fs, "seq") {
            Ok(n) => n,
            Err(e) => return Err(e),
        };
        match any_at(fs, "data") {
            Ok(data) => Ok(ServerWire::Snapshot { seq, data }),
            Err(e) => Err(e),
        }
    } else if same_text(t, "transfer") {
        let destination = match text_at(fs, "destination") {
            Ok(s) => s,
            Err(e) => return Err(e),
        };
        match bytes_at(fs, "passport") {
            Ok(passport) => Ok(ServerWire::Transfer { destination, passport }),
            Err(e) => Err(e),
        }
    } else if same_text(t, "error") {
        let code = match text_at(fs, "code") {
            Ok(s) => s,
            Err(e) => return Err(e),
        };
        match text_at(fs, "message") {
            Ok(message) => Ok(ServerWire::Error { code, message }),
            Err(e) => Err(e),
        }
    } else if same_text(t, "system") {
        match text_at(fs, "message") {
            Ok(message) => Ok(ServerWire::System { message }),
            Err(e) => Err(e),
        }
    } else if same_text(t, "pong") {
        Ok(ServerWire::Pong)
    } else {
        Err(DecodeError::UnknownTag)
    }
}

// ---------------------------------------------------------------------------
// Messages with application payloads.

/// The frame of a client message, with `payload` in place of an intent.
pub open spec fn client_frame<I>(m: ClientWire<I>, payload: JsonV) -> ClientMsg<JsonV> {
    match m {
        ClientWire::Auth { identity, name, passport } => ClientMsg::Auth {
            identity: identity@,
            name: opt_text(name),
            passport: opt_bytes(passport),
        },
        ClientWire::Intent(_) => ClientMsg::Intent(payload),
        ClientWire::Ack { seq } => ClientMsg::Ack { seq },
        ClientWire::TransferRequest { destination } => ClientMsg::TransferRequest {
            destination: destination@,
        },
        ClientWire::Ping => ClientMsg::Ping,
    }
}

/// The frame of a server message, with `payload` in place of snapshot data.
pub open spec fn server_frame<S>(m: ServerWire<S>, payload: JsonV) -> ServerMsg<JsonV> {
    match m {
        ServerWire::Manifest(man) => ServerMsg::Manifest {
            identity: man.identity@,
            name: man.name@,
            substrate: opt_text(man.substrate),
            metadata: man.metadata@,
        },
        ServerWire::Snapshot { seq, data: _ } => ServerMsg::Snapshot { seq, data: payload },
        ServerWire::Transfer { destination, passport } => ServerMsg::Transfer {
            destination: destination@,
            passport: passport@,
        },
        ServerWire::Error { code, message } => ServerMsg::Error { code: code@, message: message@ },
        ServerWire::System { message } => ServerMsg::System { message: message@ },
        ServerWire::Pong => ServerMsg::Pong,
    }
}

fn copy_bytes(b: &Vec<u8>) -> (r: Vec<u8>)
    ensures
        r@ == b@,
{
    let mut out: Vec<u8> = Vec::new();
    let mut i: usize = 0;
    while i < b.len()
        invariant
            i <= b@.len(),
            out@ == b@.subrange(0, i as int),
        decreases b@.len() - i,
    {
        out.push(b[i]);
        i = i + 1;
        assert(out@ =~= b@.subrange(0, i as int));
    }
    assert(b@.subrange(0, b@.len() as int) =~= b@);
    out
}

fn copy_text(o: &Option<String>) -> (r: Option<String>)
    ensures
        opt_text(r) == opt_text(*o),
{
    match o {
        Some(s) => Some(s.clone()),
        None => None,
    }
}

impl Wire for Json {
    open spec fn written(&self) -> Result<JsonV, EncodeError> {
        Ok(self@)
    }

    open spec fn read_as(doc: JsonV, r: Result<Json, DecodeError>) -> bool {
        r matches Ok(j) && j@ == doc
    }

    fn to_wire(&self) -> (r: Result<Json, EncodeError>) {
        Ok(self.copy())
    }

    fn from_wire(doc: &Json) -> (r: Result<Json, DecodeError>) {
        Ok(doc.copy())
    }
}

impl<I: Wire> Wire for ClientWire<I> {
    /// Written as the frame of the message, with the intent's own document
    /// merged in.
    open spec fn written(&self) -> Result<JsonV, EncodeError> {
        match self {
            ClientWire::Intent(i) => match i.written() {
                Err(e) => Err(e),
                Ok(p) => if client_encodable(ClientMsg::Intent(p)) {
                    Ok(client_json(ClientMsg::Intent(p)))
                } else {
                    Err(EncodeError::Payload)
                },
            },
            _ => Ok(client_json(client_frame(*self, JsonV::Null))),
        }
    }

    /// Read as the frame that the document stands for; an intent's part of
    /// the document is read by the intent type.
    open spec fn read_as(doc: JsonV, r: Result<ClientWire<I>, DecodeError>) -> bool {
        match client_parse(doc) {
            Err(e) => r == Err::<ClientWire<I>, DecodeError>(e),
            Ok(ClientMsg::Intent(p)) => match r {
                Ok(ClientWire::Intent(i)) => I::read_as(p, Ok(i)),
                Ok(_) => false,
                Err(e) => I::read_as(p, Err(e)),
            },
            Ok(f) => r matches Ok(m) && !(m is Intent) && client_frame(m, JsonV::Null) == f,
        }
    }

    fn to_wire(&self) -> (r: Result<Json, EncodeError>) {
        let frame: ClientWire<Json> = match self {
            ClientWire::Auth { identity, name, passport } => ClientWire::Auth {
                identity: Identity::new(identity.payload().to_owned()),
                name: copy_text(name),
                passport: match passport {
                    Some(b) => Some(copy_bytes(b)),
                    None => None,
                },
            },
            ClientWire::Intent(i) => match i.to_wire() {
                Ok(j) => ClientWire::Intent(j),
                Err(e) => return Err(e),
            },
            ClientWire::Ack { seq } => ClientWire::Ack { seq: *seq },
            ClientWire::TransferRequest { destination } => ClientWire::TransferRequest {
                destination: destination.clone(),
            },
            ClientWire::Ping => ClientWire::Ping,
        };
        match encode_client(&frame) {
            Ok(j) => Ok(j),
            Err(e) => Err(e),
        }
    }

    fn from_wire(doc: &Json) -> (r: Result<ClientWire<I>, DecodeError>) {
        match decode_client(doc) {
            Err(e) => Err(e),
            Ok(frame) => match frame {
                ClientWire::Auth { identity, name, passport } => Ok(
                    ClientWire::Auth { identity, name, passport },
                ),
                ClientWire::Intent(j) => match I::from_wire(&j) {
                    Ok(i) => Ok(ClientWire::Intent(i)),
                    Err(e) => Err(e),
                },
                ClientWire::Ack { seq } => Ok(ClientWire::Ack { seq }),
                ClientWire::TransferRequest { destination } => Ok(
                    ClientWire::TransferRequest { destination },
                ),
                ClientWire::Ping => Ok(ClientWire::Ping),
            },
        }
    }
}

impl<S: Wire> Wire for ServerWire<S> {
    /// Written as the frame of the message, with the snapshot's own document
    /// as its data.
    open spec fn written(&self) -> Result<JsonV, EncodeError> {
        match self {
            ServerWire::Snapshot { seq, data } => match data.written() {
                Err(e) => Err(e),
                Ok(p) => Ok(server_json(ServerMsg::Snapshot { seq: *seq, data: p })),
            },
            _ => Ok(server_json(server_frame(*self, JsonV::Null))),
        }
    }

    /// Read as the frame that the document stands for; snapshot data is read
    /// by the snapshot type.
    open spec fn read_as(doc: JsonV, r: Result<ServerWire<S>, DecodeError>) -> bool {
        match server_parse(doc) {
            Err(e) => r == Err::<ServerWire<S>, DecodeError>(e),
            Ok(ServerMsg::Snapshot { seq, data }) => match r {
                Ok(ServerWire::Snapshot { seq: n, data: d }) => n == seq && S::read_as(data, Ok(d)),
                Ok(_) => false,
                Err(e) => S::read_as(data, Err(e)),
            },
            Ok(f) => r matches Ok(m) && !(m is Snapshot) && server_frame(m, JsonV::Null) == f,
        }
    }

    fn to_wire(&self) -> (r: Result<Json, EncodeError>) {
        let frame: ServerWire<Json> = match self {
            ServerWire::Manifest(m) => ServerWire::Manifest(
                Manifest {
                    identity: Identity::new(m.identity.payload().to_owned()),
                    name: m.name.clone(),
                    substrate: copy_text(&m.substrate),
                    metadata: m.metadata.copy(),
                },
            ),
            ServerWire::Snapshot { seq, data } => match data.to_wire() {
                Ok(j) => ServerWire::Snapshot { seq: *seq, data: j },
                Err(e) => return Err(e),
            },
            ServerWire::Transfer { destination, passport } => ServerWire::Transfer {
                destination: destination.clone(),
                passport: copy_bytes(passport),
            },
            ServerWire::Error { code, message } => ServerWire::Error {
                code: code.clone(),
                message: message.clone(),
            },
            ServerWire::System { message } => ServerWire::System { message: message.clone() },
            ServerWire::Pong => ServerWire::Pong,
        };
        Ok(encode_server(&frame))
    }

    fn from_wire(doc: &Json) -> (r: Result<ServerWire<S>, DecodeError>) {
        match decode_server(doc) {
            Err(e) => Err(e),
            Ok(frame) => match frame {
                ServerWire::Manifest(m) => Ok(ServerWire::Manifest(m)),
                ServerWire::Snapshot { seq, data } => match S::from_wire(&data) {
                    Ok(d) => Ok(ServerWire::Snapshot { seq, data: d }),
                    Err(e) => Err(e),
                },
                ServerWire::Transfer { destination, passport } => Ok(
                    ServerWire::Transfer { destination, passport },
                ),
                ServerWire::Error { code, message } => Ok(ServerWire::Error { code, message }),
                ServerWire::System { message } => Ok(ServerWire::System { message }),
                ServerWire::Pong => Ok(ServerWire::Pong),
            },
        }
    }
}

impl<S> ServerWire<S> {
    /// Create an error message.
    pub fn error(code: String, message: String) -> (r: ServerWire<S>)
        ensures
            r matches ServerWire::Error { code: c, message: m } && c == code && m == message,
    {
        ServerWire::Error { code, message }
    }

    /// Create a system message.
    pub fn system(message: String) -> (r: ServerWire<S>)
        ensures
            r matches ServerWire::System { message: m } && m == message,
    {
        ServerWire::System { message }
    }
}

/// Round trip through the `Wire` impls: a client message with a document as
/// payload that can be written reads back as a message with the same view.
pub proof fn lemma_client_wire_round_trip(m: ClientWire<Json>, r: Result<ClientWire<Json>, DecodeError>)
    requires
        m.written() is Ok,
        ClientWire::<Json>::read_as(m.written()->Ok_0, r),
    ensures
        r matches Ok(back) && back@ == m@,
{
    match m {
        ClientWire::Intent(i) => {
            lemma_client_round_trip(m@);
        },
        _ => {
            assert(client_frame(m, JsonV::Null) == m@);
            lemma_client_round_trip(m@);
            if let Ok(back) = r {
                assert(client_frame(back, JsonV::Null) == back@);
            }
        },
    }
}

/// Round trip through the `Wire` impls: a server message with a document as
/// snapshot data reads back as a message with the same view.
pub proof fn lemma_server_wire_round_trip(m: ServerWire<Json>, r: Result<ServerWire<Json>, DecodeError>)
    requires
        ServerWire::<Json>::read_as(m.written()->Ok_0, r),
    ensures
        m.written() is Ok,
        r matches Ok(back) && back@ == m@,
{
    match m {
        ServerWire::Snapshot { seq, data } => {
            lemma_server_round_trip(m@);
        },
        _ => {
            assert(server_frame(m, JsonV::Null) == m@);
            lemma_server_round_trip(m@);
            if let Ok(back) = r {
                assert(server_frame(back, JsonV::Null) == back@);
            }
        },
    }
}

} // verus!

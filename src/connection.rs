//! The per-connection lifecycle and the passport transfer protocol.
//!
//! The transport owns a [`Connection`] for each socket. It hands each event
//! (an authentication, a delivered snapshot, an intent, a transfer request,
//! the loss of the authority, the socket closing) to the connection, which
//! calls the authority as the protocol requires and says what to send.

use crate::authority::{Authority, Rejection, Session};
use crate::authority::ImportResult;
use crate::text::{canon, fits, from_json, json_text, text_doc, to_json, MAX_DEPTH};
use crate::wire::{DecodeError, EncodeError, ServerWire, Wire};
use crate::ConnectionState;
use vstd::prelude::*;
use vstd::string::StringExecFns;

verus! {

/// Whether the lifecycle may go from `a` to `b` in one step. Connecting,
/// Syncing and Live follow one another once; Ghosted is entered from Live
/// only. Closing the socket is not a state: see [`Connection::is_closed`].
pub open spec fn may_step(a: ConnectionState, b: ConnectionState) -> bool {
    ||| a == ConnectionState::Connecting && b == ConnectionState::Syncing
    ||| a == ConnectionState::Syncing && b == ConnectionState::Live
    ||| a == ConnectionState::Live && b == ConnectionState::Ghosted
}

/// The position of a state along the lifecycle; every step raises it.
pub open spec fn rank(s: ConnectionState) -> int {
    match s {
        ConnectionState::Connecting => 0,
        ConnectionState::Syncing => 1,
        ConnectionState::Live => 2,
        ConnectionState::Ghosted => 3,
    }
}

/// The lifecycle never goes back: every step raises the rank, so no state is
/// entered twice and nothing re-enters Connecting.
pub proof fn lemma_steps_are_monotonic(a: ConnectionState, b: ConnectionState)
    requires
        may_step(a, b),
    ensures
        rank(a) < rank(b),
        b != ConnectionState::Connecting,
{
}

/// The decimal digit for `d`.
pub open spec fn digit_char(d: int) -> char {
    if d == 0 {
        '0'
    } else if d == 1 {
        '1'
    } else if d == 2 {
        '2'
    } else if d == 3 {
        '3'
    } else if d == 4 {
        '4'
    } else if d == 5 {
        '5'
    } else if d == 6 {
        '6'
    } else if d == 7 {
        '7'
    } else if d == 8 {
        '8'
    } else {
        '9'
    }
}

/// The decimal text of `n`.
pub open spec fn decimal(n: nat) -> Seq<char>
    decreases n,
{
    if n < 10 {
        seq![digit_char(n as int)]
    } else {
        decimal(n / 10).push(digit_char((n % 10) as int))
    }
}

fn digit_text(d: u64) -> (r: &'static str)
    requires
        d < 10,
    ensures
        r@ == seq![digit_char(d as int)],
{
    proof {
        reveal_strlit("0");
        reveal_strlit("1");
        reveal_strlit("2");
        reveal_strlit("3");
        reveal_strlit("4");
        reveal_strlit("5");
        reveal_strlit("6");
        reveal_strlit("7");
        reveal_strlit("8");
        reveal_strlit("9");
    }
    if d == 0 {
        "0"
    } else if d == 1 {
        "1"
    } else if d == 2 {
        "2"
    } else if d == 3 {
        "3"
    } else if d == 4 {
        "4"
    } else if d == 5 {
        "5"
    } else if d == 6 {
        "6"
    } else if d == 7 {
        "7"
    } else if d == 8 {
        "8"
    } else {
        "9"
    }
}

/// `n` written in decimal.
pub fn decimal_string(n: u64) -> (r: String)
    ensures
        r@ == decimal(n as nat),
    decreases n,
{
    if n < 10 {
        String::from_str(digit_text(n))
    } else {
        let mut s = decimal_string(n / 10);
        s.append(digit_text(n % 10));
        s
    }
}

/// The text of the informational message that reports `n` rejected items.
pub open spec fn rejection_text(n: nat) -> Seq<char> {
    "Import: "@ + decimal(n) + " items rejected"@
}

/// The text of the error message for an unknown transfer destination.
pub open spec fn unknown_destination_text(destination: Seq<char>) -> Seq<char> {
    "Unknown destination: "@ + destination
}

/// Whether passport bytes decode, as the passport type reads them, to `p`.
pub open spec fn decodes_to<P: Wire>(bytes: Option<Vec<u8>>, p: P) -> bool {
    &&& bytes is Some
    &&& text_doc(bytes->0@) matches Some(d)
    &&& fits(d, MAX_DEPTH as nat)
    &&& P::read_as(d, Ok::<P, DecodeError>(p))
}

/// Whether passport bytes are absent or do not decode as the passport type.
pub open spec fn fails_to_decode<P: Wire>(bytes: Option<Vec<u8>>) -> bool {
    ||| bytes is None
    ||| text_doc(bytes->0@) is None
    ||| !fits(text_doc(bytes->0@)->0, MAX_DEPTH as nat)
    ||| exists|e: DecodeError| #[trigger] P::read_as(text_doc(bytes->0@)->0, Err::<P, DecodeError>(e))
}

/// How an authentication was handled.
#[derive(Debug)]
pub enum Admission {
    /// The connection was past authentication: nothing was done.
    Ignored,
    /// Registered without transfer context (no passport, or one that did not
    /// decode).
    Connected,
    /// Registered from a passport; the import policy rejected these items.
    TransferredIn { rejected: Vec<Rejection> },
}

impl Admission {
    /// The informational message to send the client, if any: one message
    /// counting the rejected items, when a transfer-in rejected some.
    pub fn notice<S>(&self) -> (r: Option<ServerWire<S>>)
        ensures
            match self {
                Admission::TransferredIn { rejected } => if rejected@.len() > 0 {
                    r matches Some(ServerWire::System { message }) && message@ == rejection_text(
                        rejected@.len(),
                    )
                } else {
                    r is None
                },
                _ => r is None,
            },
    {
        match self {
            Admission::TransferredIn { rejected } => {
                if rejected.len() > 0 {
                    let n = decimal_string(rejected.len() as u64);
                    let message = String::from_str("Import: ").concat(n.as_str()).concat(
                        " items rejected",
                    );
                    Some(ServerWire::System { message })
                } else {
                    None
                }
            },
            _ => None,
        }
    }
}

/// Why an intent was not applied.
#[derive(Debug)]
pub enum IntentError<E> {
    /// The connection is not Live: intents are accepted only there.
    NotLive,
    /// The authority refused the intent.
    Authority(E),
}

/// The authority's own outcome inside the result of [`Connection::intent`].
pub open spec fn authority_outcome<E>(r: Result<(), IntentError<E>>) -> Result<(), E> {
    match r {
        Ok(u) => Ok(u),
        Err(IntentError::Authority(e)) => Err(e),
        Err(IntentError::NotLive) => Ok(()),
    }
}

/// One connection's lifecycle.
pub struct Connection {
    state: ConnectionState,
    session: Option<Session>,
    closed: bool,
}

impl Connection {
    /// The state.
    pub closed spec fn state_spec(&self) -> ConnectionState {
        self.state
    }

    /// The session registered with the authority, if any.
    pub closed spec fn session_spec(&self) -> Option<Session> {
        self.session
    }

    /// Whether the socket has closed.
    pub closed spec fn closed_spec(&self) -> bool {
        self.closed
    }

    /// A session is registered exactly when authentication went through.
    pub closed spec fn wf(&self) -> bool {
        (self.state == ConnectionState::Connecting) == (self.session is None)
    }

    /// A connection that has not authenticated yet.
    pub fn new() -> (r: Connection)
        ensures
            r.wf(),
            r.state_spec() == ConnectionState::Connecting,
            r.session_spec() is None,
            !r.closed_spec(),
    {
        Connection { state: ConnectionState::Connecting, session: None, closed: false }
    }

    /// The state.
    pub fn state(&self) -> (r: ConnectionState)
        ensures
            r == self.state_spec(),
    {
        self.state
    }

    /// The registered session, if any.
    pub fn session(&self) -> (r: Option<&Session>)
        ensures
            match r {
                Some(s) => self.session_spec() == Some(*s),
                None => self.session_spec() is None,
            },
    {
        match &self.session {
            Some(s) => Some(s),
            None => None,
        }
    }

    /// Whether the socket has closed.
    pub fn is_closed(&self) -> (r: bool)
        ensures
            r == self.closed_spec(),
    {
        self.closed
    }

    /// Handle an accepted authentication for `session`, with the passport
    /// bytes that it carried. Without a passport, or with one that does not
    /// decode as the authority's passport type, the session is registered by
    /// `on_connect`; otherwise by `on_transfer_in`. An error from the
    /// authority refuses the connection and leaves it as it was. Past
    /// Connecting, or once closed, nothing is done.
    pub fn authenticate<A: Authority>(
        &mut self,
        authority: &mut A,
        session: Session,
        passport: Option<Vec<u8>>,
    ) -> (r: Result<Admission, A::Error>)
        requires
            old(self).wf(),
        ensures
            final(self).wf(),
            final(self).closed_spec() == old(self).closed_spec(),
            old(self).state_spec() != ConnectionState::Connecting || old(self).closed_spec() ==> {
                &&& r matches Ok(Admission::Ignored)
                &&& *final(self) == *old(self)
                &&& *final(authority) == *old(authority)
            },
            old(self).state_spec() == ConnectionState::Connecting && !old(self).closed_spec() ==> {
                &&& !(r matches Ok(Admission::Ignored))
                &&& passport is None ==> !(r matches Ok(Admission::TransferredIn { .. }))
                &&& r matches Ok(Admission::Connected) ==> fails_to_decode::<A::Passport>(passport)
                    && exists|c: Result<(), A::Error>|
                    c is Ok && #[trigger] old(authority).connect_step(session, *final(authority), c)
                &&& r matches Ok(Admission::TransferredIn { rejected }) ==> exists|
                    p: A::Passport,
                    ir: ImportResult<A::Passport>,
                |
                    decodes_to(passport, p) && #[trigger] old(authority).transfer_step(
                        session,
                        p,
                        *final(authority),
                        Ok::<ImportResult<A::Passport>, A::Error>(ir),
                    ) && ir.rejected == rejected
                &&& r is Ok ==> final(self).state_spec() == ConnectionState::Syncing
                    && final(self).session_spec() == Some(session)
                    && final(authority).has_session(session.id)
                &&& r is Err ==> *final(self) == *old(self) && *final(authority) == *old(authority)
            },
    {
        if self.closed || self.state != ConnectionState::Connecting {
            return Ok(Admission::Ignored);
        }
        let decoded = match &passport {
            Some(bytes) => {
                let res = from_json::<A::Passport>(bytes.as_slice());
                proof {
                    if let Err(e) = res {
                        if text_doc(bytes@) is Some && fits(text_doc(bytes@)->0, MAX_DEPTH as nat) {
                            assert(A::Passport::read_as(text_doc(bytes@)->0, Err::<A::Passport, DecodeError>(e)));
                        }
                        assert(fails_to_decode::<A::Passport>(passport));
                    } else {
                        assert(decodes_to(passport, res->Ok_0));
                    }
                }
                match res {
                    Ok(p) => Some(p),
                    Err(_) => None,
                }
            },
            None => None,
        };
        assert(decoded matches Some(p) ==> decodes_to(passport, p));
        assert(decoded is None ==> fails_to_decode::<A::Passport>(passport));
        let admission = match decoded {
            Some(p) => {
                let ghost gp = p;
                match authority.on_transfer_in(&session, p) {
                    Ok(result) => {
                        let ghost gr = result;
                        assert(old(authority).transfer_step(
                            session,
                            gp,
                            *authority,
                            Ok::<ImportResult<A::Passport>, A::Error>(gr),
                        ));
                        Admission::TransferredIn { rejected: result.rejected }
                    },
                    Err(e) => return Err(e),
                }
            },
            None => {
                let c = authority.on_connect(&session);
                match c {
                    Ok(()) => {
                        assert(old(authority).connect_step(session, *authority, c));
                        Admission::Connected
                    },
                    Err(e) => return Err(e),
                }
            },
        };
        self.state = ConnectionState::Syncing;
        self.session = Some(session);
        Ok(admission)
    }

    /// Record that a snapshot was delivered: Syncing becomes Live; any other
    /// state stays as it is.
    pub fn snapshot_delivered(&mut self)
        requires
            old(self).wf(),
        ensures
            final(self).wf(),
            final(self).session_spec() == old(self).session_spec(),
            final(self).closed_spec() == old(self).closed_spec(),
            final(self).state_spec() == if old(self).state_spec() == ConnectionState::Syncing
                && !old(self).closed_spec() {
                ConnectionState::Live
            } else {
                old(self).state_spec()
            },
    {
        if !self.closed && self.state == ConnectionState::Syncing {
            self.state = ConnectionState::Live;
        }
    }

    /// Record that the authority was lost while the socket stays open: Live
    /// becomes Ghosted; any other state stays as it is.
    pub fn authority_lost(&mut self)
        requires
            old(self).wf(),
        ensures
            final(self).wf(),
            final(self).session_spec() == old(self).session_spec(),
            final(self).closed_spec() == old(self).closed_spec(),
            final(self).state_spec() == if old(self).state_spec() == ConnectionState::Live
                && !old(self).closed_spec() {
                ConnectionState::Ghosted
            } else {
                old(self).state_spec()
            },
    {
        if !self.closed && self.state == ConnectionState::Live {
            self.state = ConnectionState::Ghosted;
        }
    }

    /// Apply an intent of the connection's session. Only a Live connection
    /// passes it on; the authority's error is handed back.
    pub fn intent<A: Authority>(&mut self, authority: &mut A, intent: A::Intent) -> (r: Result<
        (),
        IntentError<A::Error>,
    >)
        requires
            old(self).wf(),
        ensures
            *final(self) == *old(self),
            old(self).state_spec() != ConnectionState::Live || old(self).closed_spec() ==> {
                &&& r matches Err(IntentError::NotLive)
                &&& *final(authority) == *old(authority)
            },
            old(self).state_spec() == ConnectionState::Live && !old(self).closed_spec() ==> {
                &&& !(r matches Err(IntentError::NotLive))
                &&& old(authority).intent_step(
                    old(self).session_spec()->0,
                    intent,
                    *final(authority),
                    authority_outcome(r),
                )
            },
    {
        if self.closed || self.state != ConnectionState::Live {
            return Err(IntentError::NotLive);
        }
        match &self.session {
            Some(s) => {
                let r = authority.handle_intent(s, intent);
                match r {
                    Ok(u) => Ok(u),
                    Err(e) => Err(IntentError::Authority(e)),
                }
            },
            None => Err(IntentError::NotLive),
        }
    }

    /// Answer a transfer request to `destination`. A destination that the
    /// authority does not accept gets an `invalid_destination` error and no
    /// passport is emitted; an accepted one gets a transfer directive with
    /// the session's passport. Only a Live connection is answered. The
    /// connection and the authority are left as they were.
    pub fn transfer_request<A: Authority, S>(&self, authority: &A, destination: String) -> (r:
        Result<Option<ServerWire<S>>, EncodeError>)
        requires
            self.wf(),
        ensures
            self.state_spec() != ConnectionState::Live || self.closed_spec() ==> r matches Ok(None),
            self.state_spec() == ConnectionState::Live && !self.closed_spec() ==> if authority.accepts_destination(
                destination@,
            ) {
                match authority.passport_view(self.session_spec()->0).written() {
                    Err(e) => r == Err::<Option<ServerWire<S>>, EncodeError>(e),
                    Ok(doc) => r matches Ok(Some(ServerWire::Transfer { destination: d, passport: b }))
                        && d == destination && b@ == json_text(canon(doc)),
                }
            } else {
                r matches Ok(Some(ServerWire::Error { code, message })) && code@ == "invalid_destination"@
                    && message@ == unknown_destination_text(destination@)
            },
    {
        if self.closed || self.state != ConnectionState::Live {
            return Ok(None);
        }
        match &self.session {
            None => Ok(None),
            Some(s) => {
                if authority.validate_destination(destination.as_str()) {
                    let passport = authority.emit_passport(s);
                    match to_json(&passport) {
                        Ok(bytes) => Ok(Some(ServerWire::Transfer { destination, passport: bytes })),
                        Err(e) => Err(e),
                    }
                } else {
                    let code = String::from_str("invalid_destination");
                    let message = String::from_str("Unknown destination: ").concat(
                        destination.as_str(),
                    );
                    Ok(Some(ServerWire::Error { code, message }))
                }
            },
        }
    }

    /// Close the connection. The first close of a connection with a
    /// registered session unregisters it through `on_disconnect`; later
    /// closes, and closes before authentication, leave the authority alone.
    pub fn close<A: Authority>(&mut self, authority: &mut A) -> (r: bool)
        requires
            old(self).wf(),
        ensures
            final(self).wf(),
            final(self).closed_spec(),
            final(self).state_spec() == old(self).state_spec(),
            final(self).session_spec() == old(self).session_spec(),
            r == (!old(self).closed_spec() && old(self).session_spec() is Some),
            r ==> !final(authority).has_session(old(self).session_spec()->0.id)
                && old(authority).disconnect_step(old(self).session_spec()->0, *final(authority)),
            !r ==> *final(authority) == *old(authority),
    {
        if self.closed {
            return false;
        }
        self.closed = true;
        match &self.session {
            Some(s) => {
                authority.on_disconnect(s);
                true
            },
            None => false,
        }
    }
}

} // verus!

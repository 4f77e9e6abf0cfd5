//! The contract that application logic implements.
//!
//! The transport calls into an authority to register sessions, apply
//! intents, compute snapshots and hand sessions over to other authorities.
//! Mutating calls take `&mut self`, so one instance has one writer at a
//! time; reads take `&self`.

use crate::identity::Identity;
use crate::wire::Wire;
use vstd::prelude::*;

verus! {

/// A connected session.
#[derive(Debug, Clone)]
pub struct Session {
    /// Unique session ID.
    pub id: u64,
    /// The user's identity.
    pub identity: Identity,
    /// Display name.
    pub name: String,
}

impl Session {
    /// Create a new session.
    pub fn new(id: u64, identity: Identity, name: String) -> (r: Session)
        ensures
            r.id == id,
            r.identity == identity,
            r.name == name,
    {
        Session { id, identity, name }
    }
}

/// Result of applying an import policy to a passport.
#[derive(Debug, Clone)]
pub struct ImportResult<P> {
    /// The sanitized passport data to use.
    pub passport: P,
    /// Items that were rejected, in the order the policy met them.
    pub rejected: Vec<Rejection>,
}

/// A rejection from import policy.
#[derive(Debug, Clone)]
pub struct Rejection {
    /// What was rejected.
    pub item: String,
    /// Why it was rejected.
    pub reason: String,
}

impl Rejection {
    /// A rejection of `item` for `reason`.
    pub fn new(item: String, reason: String) -> (r: Rejection)
        ensures
            r.item == item,
            r.reason == reason,
    {
        Rejection { item, reason }
    }
}

impl<P> ImportResult<P> {
    /// Create a result that accepts everything.
    pub fn accept(passport: P) -> (r: ImportResult<P>)
        ensures
            r.passport == passport,
            r.rejected@.len() == 0,
    {
        ImportResult { passport, rejected: Vec::new() }
    }

    /// Create a result with some rejections.
    pub fn with_rejections(passport: P, rejected: Vec<Rejection>) -> (r: ImportResult<P>)
        ensures
            r.passport == passport,
            r.rejected == rejected,
    {
        ImportResult { passport, rejected }
    }
}

/// Server-side authority logic, in the precise form: a snapshot is computed
/// for each requesting session, which allows relevancy filtering.
pub trait Authority: Sized + Send + Sync {
    /// Intent type (client requests).
    type Intent;
    /// Snapshot type (server broadcasts).
    type Snapshot;
    /// Passport type (transfer data).
    type Passport: Wire;
    /// Error type.
    type Error;

    /// The snapshot that the current state shows to `session`. An
    /// implementation verified with this library defines it; others leave it
    /// unspecified.
    closed spec fn snapshot_view(&self, session: Session) -> Self::Snapshot {
        arbitrary()
    }

    /// Whether the current state lets a transfer to `destination` proceed.
    closed spec fn accepts_destination(&self, destination: Seq<char>) -> bool {
        arbitrary()
    }

    /// Whether the session with this id is registered.
    closed spec fn has_session(&self, id: u64) -> bool {
        arbitrary()
    }

    /// The passport that the current state gives `session`.
    closed spec fn passport_view(&self, session: Session) -> Self::Passport {
        arbitrary()
    }

    /// Whether registering `session` without transfer context may turn this
    /// state into `after` with outcome `r`.
    closed spec fn connect_step(&self, session: Session, after: Self, r: Result<(), Self::Error>) -> bool {
        arbitrary()
    }

    /// Whether unregistering `session` may turn this state into `after`.
    closed spec fn disconnect_step(&self, session: Session, after: Self) -> bool {
        arbitrary()
    }

    /// Whether applying `intent` of `session` may turn this state into
    /// `after` with outcome `r`.
    closed spec fn intent_step(
        &self,
        session: Session,
        intent: Self::Intent,
        after: Self,
        r: Result<(), Self::Error>,
    ) -> bool {
        arbitrary()
    }

    /// Whether importing `passport` for `session` may turn this state into
    /// `after` with outcome `r`.
    closed spec fn transfer_step(
        &self,
        session: Session,
        passport: Self::Passport,
        after: Self,
        r: Result<ImportResult<Self::Passport>, Self::Error>,
    ) -> bool {
        arbitrary()
    }

    /// Called when a new session connects (without transfer). On failure the
    /// session is not registered, not even in part.
    fn on_connect(&mut self, session: &Session) -> (r: Result<(), Self::Error>)
        ensures
            r is Ok ==> final(self).has_session(session.id),
            r is Err ==> *final(self) == *old(self),
            old(self).connect_step(*session, *final(self), r),
    ;

    /// Called when a session transfers in from another server: apply the
    /// import policy and return the sanitized passport.
    fn on_transfer_in(&mut self, session: &Session, passport: Self::Passport) -> (r: Result<
        ImportResult<Self::Passport>,
        Self::Error,
    >)
        ensures
            r is Ok ==> final(self).has_session(session.id),
            r is Err ==> *final(self) == *old(self),
            old(self).transfer_step(*session, passport, *final(self), r),
    ;

    /// Called when a session disconnects; a no-op for an unknown session.
    fn on_disconnect(&mut self, session: &Session)
        ensures
            !final(self).has_session(session.id),
            !old(self).has_session(session.id) ==> *final(self) == *old(self),
            old(self).disconnect_step(*session, *final(self)),
    ;

    /// Handle an intent from a session.
    fn handle_intent(&mut self, session: &Session, intent: Self::Intent) -> (r: Result<
        (),
        Self::Error,
    >)
        ensures
            old(self).intent_step(*session, intent, *final(self), r),
    ;

    /// Generate a snapshot for a specific session.
    fn snapshot_for(&self, session: &Session) -> (r: Self::Snapshot)
        ensures
            r == self.snapshot_view(*session),
    ;

    /// Generate a passport for a session that is transferring out.
    fn emit_passport(&self, session: &Session) -> (r: Self::Passport)
        ensures
            r == self.passport_view(*session),
    ;

    /// Check if a transfer destination is valid.
    fn validate_destination(&self, destination: &str) -> (r: bool)
        ensures
            r == self.accepts_destination(destination@),
    ;
}

/// Server-side authority logic, in the simple form: one snapshot for all
/// sessions.
pub trait SimpleAuthority: Sized + Send + Sync {
    type Intent;
    type Snapshot;
    type Passport: Wire;
    type Error;

    /// The snapshot of the current state. An implementation verified with
    /// this library defines it; others leave it unspecified.
    closed spec fn shared_view(&self) -> Self::Snapshot {
        arbitrary()
    }

    /// Whether the current state lets a transfer to `destination` proceed.
    closed spec fn accepts_destination(&self, destination: Seq<char>) -> bool {
        arbitrary()
    }

    /// Whether the session with this id is registered.
    closed spec fn has_session(&self, id: u64) -> bool {
        arbitrary()
    }

    /// The passport that the current state gives `session`.
    closed spec fn passport_view(&self, session: Session) -> Self::Passport {
        arbitrary()
    }

    /// Whether registering `session` without transfer context may turn this
    /// state into `after` with outcome `r`.
    closed spec fn connect_step(&self, session: Session, after: Self, r: Result<(), Self::Error>) -> bool {
        arbitrary()
    }

    /// Whether unregistering `session` may turn this state into `after`.
    closed spec fn disconnect_step(&self, session: Session, after: Self) -> bool {
        arbitrary()
    }

    /// Whether applying `intent` of `session` may turn this state into
    /// `after` with outcome `r`.
    closed spec fn intent_step(
        &self,
        session: Session,
        intent: Self::Intent,
        after: Self,
        r: Result<(), Self::Error>,
    ) -> bool {
        arbitrary()
    }

    /// Whether importing `passport` for `session` may turn this state into
    /// `after` with outcome `r`.
    closed spec fn transfer_step(
        &self,
        session: Session,
        passport: Self::Passport,
        after: Self,
        r: Result<ImportResult<Self::Passport>, Self::Error>,
    ) -> bool {
        arbitrary()
    }

    /// Called when a new session connects. On failure the session is not
    /// registered, not even in part.
    fn on_connect(&mut self, session: &Session) -> (r: Result<(), Self::Error>)
        ensures
            r is Ok ==> final(self).has_session(session.id),
            r is Err ==> *final(self) == *old(self),
            old(self).connect_step(*session, *final(self), r),
    ;

    /// Called when a session transfers in.
    fn on_transfer_in(&mut self, session: &Session, passport: Self::Passport) -> (r: Result<
        ImportResult<Self::Passport>,
        Self::Error,
    >)
        ensures
            r is Ok ==> final(self).has_session(session.id),
            r is Err ==> *final(self) == *old(self),
            old(self).transfer_step(*session, passport, *final(self), r),
    ;

    /// Called when a session disconnects; a no-op for an unknown session.
    fn on_disconnect(&mut self, session: &Session)
        ensures
            !final(self).has_session(session.id),
            !old(self).has_session(session.id) ==> *final(self) == *old(self),
            old(self).disconnect_step(*session, *final(self)),
    ;

    /// Handle an intent.
    fn handle_intent(&mut self, session: &Session, intent: Self::Intent) -> (r: Result<
        (),
        Self::Error,
    >)
        ensures
            old(self).intent_step(*session, intent, *final(self), r),
    ;

    /// Generate a snapshot (same for all sessions).
    fn snapshot(&self) -> (r: Self::Snapshot)
        ensures
            r == self.shared_view(),
    ;

    /// Generate a passport for transfer.
    fn emit_passport(&self, session: &Session) -> (r: Self::Passport)
        ensures
            r == self.passport_view(*session),
    ;

    /// Check if a destination is valid.
    fn validate_destination(&self, destination: &str) -> (r: bool)
        ensures
            r == self.accepts_destination(destination@),
    ;
}

/// Every simple-form authority is a precise-form one: each call is forwarded,
/// and every session is shown the one shared snapshot.
impl<T: SimpleAuthority> Authority for T {
    type Intent = T::Intent;
    type Snapshot = T::Snapshot;
    type Passport = T::Passport;
    type Error = T::Error;

    open spec fn snapshot_view(&self, session: Session) -> T::Snapshot {
        self.shared_view()
    }

    open spec fn accepts_destination(&self, destination: Seq<char>) -> bool {
        SimpleAuthority::accepts_destination(self, destination)
    }

    open spec fn has_session(&self, id: u64) -> bool {
        SimpleAuthority::has_session(self, id)
    }

    open spec fn passport_view(&self, session: Session) -> T::Passport {
        SimpleAuthority::passport_view(self, session)
    }

    open spec fn connect_step(&self, session: Session, after: T, r: Result<(), T::Error>) -> bool {
        SimpleAuthority::connect_step(self, session, after, r)
    }

    open spec fn disconnect_step(&self, session: Session, after: T) -> bool {
        SimpleAuthority::disconnect_step(self, session, after)
    }

    open spec fn intent_step(
        &self,
        session: Session,
        intent: T::Intent,
        after: T,
        r: Result<(), T::Error>,
    ) -> bool {
        SimpleAuthority::intent_step(self, session, intent, after, r)
    }

    open spec fn transfer_step(
        &self,
        session: Session,
        passport: T::Passport,
        after: T,
        r: Result<ImportResult<T::Passport>, T::Error>,
    ) -> bool {
        SimpleAuthority::transfer_step(self, session, passport, after, r)
    }

    fn on_connect(&mut self, session: &Session) -> (r: Result<(), T::Error>) {
        SimpleAuthority::on_connect(self, session)
    }

    fn on_transfer_in(&mut self, session: &Session, passport: T::Passport) -> (r: Result<
        ImportResult<T::Passport>,
        T::Error,
    >) {
        SimpleAuthority::on_transfer_in(self, session, passport)
    }

    fn on_disconnect(&mut self, session: &Session) {
        SimpleAuthority::on_disconnect(self, session)
    }

    fn handle_intent(&mut self, session: &Session, intent: T::Intent) -> (r: Result<(), T::Error>) {
        SimpleAuthority::handle_intent(self, session, intent)
    }

    fn snapshot_for(&self, session: &Session) -> (r: T::Snapshot) {
        SimpleAuthority::snapshot(self)
    }

    fn emit_passport(&self, session: &Session) -> (r: T::Passport) {
        SimpleAuthority::emit_passport(self, session)
    }

    fn validate_destination(&self, destination: &str) -> (r: bool) {
        SimpleAuthority::validate_destination(self, destination)
    }
}

/// Through the adapter, a simple-form authority emits the passports of its
/// simple form.
pub proof fn lemma_adapter_passport<T: SimpleAuthority>(a: &T, s: Session)
    ensures
        <T as Authority>::passport_view(a, s) == SimpleAuthority::passport_view(a, s),
{
}

/// Adapter equivalence: through the adapter, a simple-form authority shows
/// every session exactly the snapshot that `snapshot` gives, and two sessions
/// never see different ones.
pub proof fn lemma_adapter_equivalence<T: SimpleAuthority>(a: &T, s: Session, t: Session)
    ensures
        <T as Authority>::snapshot_view(a, s) == a.shared_view(),
        <T as Authority>::snapshot_view(a, s) == <T as Authority>::snapshot_view(a, t),
{
}

} // verus!

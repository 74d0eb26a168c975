//! The service's sessions, by id. One task owns the state and applies the messages of
//! every session in the order they arrive.

use crate::body::Body;
use crate::session::{Action, Connection, Response, SessionError, SessionEvent, handled};
use std::collections::{HashMap, HashSet};
use vstd::prelude::*;

verus! {

broadcast use vstd::std_specs::hash::group_hash_axioms;

/// Relies on uuid's `Uuid::new_v4`, read back through `Uuid::as_u128`: a random id, of
/// which nothing can be promised.
#[verifier::external_body]
fn random_session_id() -> (r: u128) {
    uuid::Uuid::new_v4().as_u128()
}

/// A message on the service's mailbox.
pub enum Message<T> {
    /// A client opened its socket for this session
    Connection(u128),
    /// Set the dimension of a point
    SetDims(u128, usize),
    /// Append telemetry
    SendData(u128, Vec<T>),
    /// Set goals by `(index, maximize)` pairs
    Goal(u128, Vec<(usize, bool)>),
    /// Ask for a training round
    Train(u128),
    /// The client went away
    Disconnection(u128),
}

/// Every session of the service.
pub struct ServerState<T, const CAP: usize> {
    sessions: HashMap<u128, Connection<T, CAP>>,
    /// Every id ever handed out, live or ended
    issued: HashSet<u128>,
}

impl<T: Copy, const CAP: usize> ServerState<T, CAP> {
    pub closed spec fn sessions(&self) -> Map<u128, Connection<T, CAP>> {
        self.sessions@
    }

    /// Every id handed out so far, whether its session is live or has ended.
    pub closed spec fn issued(&self) -> Set<u128> {
        self.issued@
    }

    pub open spec fn wf(&self) -> bool {
        forall|id: u128| #[trigger] self.sessions().contains_key(id) ==> self.sessions()[id].wf()
            && self.issued().contains(id)
    }

    /// A service with no session, that has handed out no id.
    pub fn new() -> (r: Self)
        ensures
            r.wf(),
            r.sessions().is_empty(),
            r.issued().is_empty(),
    {
        ServerState { sessions: HashMap::new(), issued: HashSet::new() }
    }

    /// Whether this id was handed out before.
    pub fn was_issued(&self, id: u128) -> (r: bool)
        ensures
            r == self.issued().contains(id),
    {
        self.issued.contains(&id)
    }

    /// Whether a session has this id.
    pub fn contains(&self, id: u128) -> (r: bool)
        ensures
            r == self.sessions().contains_key(id),
    {
        self.sessions.contains_key(&id)
    }

    /// Opens a session under `id`, unless `id` was handed out before (to a live or an
    /// ended session): then nothing changes and the error names the id.
    pub fn insert_session(&mut self, id: u128) -> (r: Result<(), SessionError>)
        requires
            old(self).wf(),
        ensures
            final(self).wf(),
            old(self).issued().contains(id) ==> r == Err::<(), SessionError>(SessionError::DuplicateSession(id))
                && Self::unchanged(*old(self), *final(self)),
            !old(self).issued().contains(id) ==> r is Ok && Self::opened(*old(self), id, *final(self)),
    {
        if self.issued.contains(&id) {
            return Err(SessionError::DuplicateSession(id));
        }
        let c = Connection::new();
        self.sessions.insert(id, c);
        self.issued.insert(id);
        proof {
            assert forall|k: u128| #[trigger] self.sessions().contains_key(k) implies self.sessions()[k].wf()
                && self.issued().contains(k) by {
                if k != id {
                    assert(old(self).sessions().contains_key(k));
                }
            }
        }
        Ok(())
    }

    /// Opens a session under a random id. The draw alone decides failure: when it hits
    /// an id handed out before, nothing changes and the error names that id; any other
    /// id opens the session. A service that has handed out no id always succeeds.
    pub fn new_session(&mut self) -> (r: Result<u128, SessionError>)
        requires
            old(self).wf(),
        ensures
            final(self).wf(),
            match r {
                Ok(id) => Self::opened(*old(self), id, *final(self)),
                Err(e) => e matches SessionError::DuplicateSession(id) && old(self).issued().contains(id)
                    && Self::unchanged(*old(self), *final(self)),
            },
            old(self).issued().is_empty() ==> r is Ok,
    {
        let id = random_session_id();
        match self.insert_session(id) {
            Ok(()) => Ok(id),
            Err(e) => Err(e),
        }
    }

    /// The handshake for an agent with this body, under a drawn id `id`: refused, naming
    /// the id, when it was handed out before; otherwise the session opens, configured
    /// with the body.
    pub fn initiate_with(&mut self, id: u128, body: Body) -> (r: Result<u128, SessionError>)
        requires
            old(self).wf(),
        ensures
            final(self).wf(),
            old(self).issued().contains(id) ==> r == Err::<u128, SessionError>(SessionError::DuplicateSession(id))
                && Self::unchanged(*old(self), *final(self)),
            !old(self).issued().contains(id) ==> r == Ok::<u128, SessionError>(id) && Self::initiated(*old(self), id, body, *final(self)),
    {
        match self.insert_session(id) {
            Ok(()) => {},
            Err(e) => return Err(e),
        }
        let ghost mid = *self;
        let ev = SessionEvent::SetBody(body);
        let _ = self.dispatch(id, ev);
        proof {
            assert(mid.sessions().contains_key(id));
            assert(self.sessions().dom() =~= old(self).sessions().dom().insert(id));
            assert forall|o: u128| #[trigger] old(self).sessions().contains_key(o) implies self.sessions()[o] == old(self).sessions()[o] by {
                assert(old(self).issued().contains(o));
                assert(o != id);
                assert(mid.sessions().contains_key(o));
            }
        }
        Ok(id)
    }

    /// The handshake: opens a session, configured with this body, under a random id
    /// never handed out before. The draw alone decides failure, as for `new_session`;
    /// on a service that has handed out no id it always succeeds.
    pub fn initiate(&mut self, body: Body) -> (r: Result<u128, SessionError>)
        requires
            old(self).wf(),
        ensures
            final(self).wf(),
            match r {
                Ok(id) => Self::initiated(*old(self), id, body, *final(self)),
                Err(e) => e matches SessionError::DuplicateSession(id) && old(self).issued().contains(id)
                    && Self::unchanged(*old(self), *final(self)),
            },
            old(self).issued().is_empty() ==> r is Ok,
    {
        let id = random_session_id();
        self.initiate_with(id, body)
    }

    /// Applies one session message; an unknown id drops it.
    pub fn dispatch(&mut self, id: u128, ev: SessionEvent<T>) -> (a: Action<T>)
        requires
            old(self).wf(),
        ensures
            final(self).wf(),
            final(self).issued() == old(self).issued(),
            !old(self).sessions().contains_key(id) ==> a == Action::<T>::Drop(SessionError::UnknownSession)
                && final(self).sessions() == old(self).sessions(),
            old(self).sessions().contains_key(id) ==> final(self).sessions().dom() == old(self).sessions().dom()
                && handled(old(self).sessions()[id], ev, final(self).sessions()[id], a)
                && forall|o: u128| o != id && #[trigger] old(self).sessions().contains_key(o) ==> final(self).sessions()[o] == old(self).sessions()[o],
    {
        match self.sessions.remove(&id) {
            None => {
                proof {
                    assert(self.sessions@ =~= old(self).sessions@);
                    assert forall|k: u128| #[trigger] self.sessions().contains_key(k) implies self.sessions()[k].wf()
                        && self.issued().contains(k) by {
                        assert(old(self).sessions().contains_key(k));
                    }
                }
                Action::Drop(SessionError::UnknownSession)
            },
            Some(c) => {
                proof {
                    assert(old(self).sessions().contains_key(id));
                    assert(old(self).sessions@[id] == c);
                    assert(old(self).sessions()[id].wf());
                }
                let mut c = c;
                let a = c.handle(ev);
                let ghost c1 = c;
                self.sessions.insert(id, c);
                proof {
                    assert(self.sessions@.dom() =~= old(self).sessions@.dom());
                    assert forall|k: u128| #[trigger] self.sessions().contains_key(k) implies self.sessions()[k].wf()
                        && self.issued().contains(k) by {
                        assert(old(self).sessions().contains_key(k));
                        if k != id {
                            assert(self.sessions@[k] == old(self).sessions@[k]);
                        } else {
                            assert(self.sessions@[id] == c1);
                        }
                    }
                }
                a
            },
        }
    }

    /// Ends a session; false when no session had the id.
    pub fn disconnect(&mut self, id: u128) -> (r: bool)
        requires
            old(self).wf(),
        ensures
            final(self).wf(),
            r == old(self).sessions().contains_key(id),
            final(self).sessions() == old(self).sessions().remove(id),
            final(self).issued() == old(self).issued(),
    {
        let r = self.sessions.remove(&id);
        proof {
            assert forall|k: u128| #[trigger] self.sessions().contains_key(k) implies self.sessions()[k].wf()
                && self.issued().contains(k) by {
                assert(old(self).sessions().contains_key(k));
            }
        }
        r.is_some()
    }

    /// Applies one mailbox message and says what the caller must do.
    pub fn receive(&mut self, msg: Message<T>) -> (a: Action<T>)
        requires
            old(self).wf(),
        ensures
            final(self).wf(),
            final(self).issued() == old(self).issued(),
            match msg {
                Message::Connection(id) => final(self).sessions() == old(self).sessions() && if old(self).sessions().contains_key(id) {
                    a == Action::<T>::Reply(Response::Connected(id))
                } else {
                    a == Action::<T>::Drop(SessionError::UnknownSession)
                },
                Message::Disconnection(id) => final(self).sessions() == old(self).sessions().remove(id)
                    && if old(self).sessions().contains_key(id) {
                    a is Nothing
                } else {
                    a == Action::<T>::Drop(SessionError::UnknownSession)
                },
                Message::SetDims(id, d) => Self::routed(*old(self), id, SessionEvent::SetDims(d), *final(self), a),
                Message::SendData(id, v) => Self::routed(*old(self), id, SessionEvent::SendData(v), *final(self), a),
                Message::Goal(id, g) => Self::routed(*old(self), id, SessionEvent::Goal(g), *final(self), a),
                Message::Train(id) => Self::routed(*old(self), id, SessionEvent::Train, *final(self), a),
            },
    {
        match msg {
            Message::Connection(id) => {
                if self.sessions.contains_key(&id) {
                    Action::Reply(Response::Connected(id))
                } else {
                    Action::Drop(SessionError::UnknownSession)
                }
            },
            Message::Disconnection(id) => {
                if self.disconnect(id) {
                    Action::Nothing
                } else {
                    Action::Drop(SessionError::UnknownSession)
                }
            },
            Message::SetDims(id, d) => self.dispatch(id, SessionEvent::SetDims(d)),
            Message::SendData(id, v) => self.dispatch(id, SessionEvent::SendData(v)),
            Message::Goal(id, g) => self.dispatch(id, SessionEvent::Goal(g)),
            Message::Train(id) => self.dispatch(id, SessionEvent::Train),
        }
    }

    /// Sessions and handed-out ids are as they were.
    pub open spec fn unchanged(s0: Self, s1: Self) -> bool {
        s1.sessions() == s0.sessions() && s1.issued() == s0.issued()
    }

    /// `s1` is `s0` with a fresh session under `id`, an id `s0` never handed out.
    pub open spec fn opened(s0: Self, id: u128, s1: Self) -> bool {
        &&& !s0.issued().contains(id)
        &&& !s0.sessions().contains_key(id)
        &&& s1.issued() == s0.issued().insert(id)
        &&& s1.sessions().dom() == s0.sessions().dom().insert(id)
        &&& forall|o: u128| #[trigger] s0.sessions().contains_key(o) ==> s1.sessions()[o] == s0.sessions()[o]
        &&& s1.sessions()[id].is_fresh()
    }

    /// `s1` is `s0` with a new session under `id`, an id `s0` never handed out, whose
    /// body is set and nothing else.
    pub open spec fn initiated(s0: Self, id: u128, body: Body, s1: Self) -> bool {
        &&& !s0.issued().contains(id)
        &&& !s0.sessions().contains_key(id)
        &&& s1.issued() == s0.issued().insert(id)
        &&& s1.sessions().dom() == s0.sessions().dom().insert(id)
        &&& forall|o: u128| #[trigger] s0.sessions().contains_key(o) ==> s1.sessions()[o] == s0.sessions()[o]
        &&& s1.sessions()[id].body() == Some(body)
        &&& s1.sessions()[id].phase() == crate::session::Phase::Configuring
        &&& s1.sessions()[id].dims() == 0
        &&& s1.sessions()[id].goal() is None
        &&& s1.sessions()[id].data().len() == 0
    }

    /// What `dispatch` of `ev` to session `id` does.
    pub open spec fn routed(s0: Self, id: u128, ev: SessionEvent<T>, s1: Self, a: Action<T>) -> bool {
        if !s0.sessions().contains_key(id) {
            a == Action::<T>::Drop(SessionError::UnknownSession) && s1.sessions() == s0.sessions()
        } else {
            &&& s1.sessions().dom() == s0.sessions().dom()
            &&& handled(s0.sessions()[id], ev, s1.sessions()[id], a)
            &&& forall|o: u128| o != id && #[trigger] s0.sessions().contains_key(o) ==> s1.sessions()[o] == s0.sessions()[o]
        }
    }
}

/// Ids handed out one after another are all different, and none of them was handed
/// out before, even to a session that has since ended.
pub proof fn lemma_fresh_ids<T: Copy, const CAP: usize>(
    s0: ServerState<T, CAP>,
    id1: u128,
    body1: Body,
    s1: ServerState<T, CAP>,
    id2: u128,
    body2: Body,
    s2: ServerState<T, CAP>,
)
    requires
        ServerState::initiated(s0, id1, body1, s1),
        ServerState::initiated(s1, id2, body2, s2),
    ensures
        !s0.issued().contains(id1),
        !s0.issued().contains(id2),
        id1 != id2,
        s2.sessions().contains_key(id1) && s2.sessions().contains_key(id2),
        s2.issued() == s0.issued().insert(id1).insert(id2),
{
    assert(s1.issued().contains(id1));
    assert(s1.sessions().contains_key(id1));
}

/// On a service that has handed out no id, a first handshake always succeeds; a second
/// one fails only by drawing the first id again, and otherwise opens a session under a
/// different id.
pub proof fn lemma_handshakes_on_fresh_service<T: Copy, const CAP: usize>(
    s0: ServerState<T, CAP>,
    r1: Result<u128, SessionError>,
    body1: Body,
    s1: ServerState<T, CAP>,
    r2: Result<u128, SessionError>,
    body2: Body,
    s2: ServerState<T, CAP>,
)
    requires
        s0.issued().is_empty(),
        match r1 {
            Ok(id) => ServerState::initiated(s0, id, body1, s1),
            Err(e) => e matches SessionError::DuplicateSession(id) && s0.issued().contains(id)
                && ServerState::unchanged(s0, s1),
        },
        match r2 {
            Ok(id) => ServerState::initiated(s1, id, body2, s2),
            Err(e) => e matches SessionError::DuplicateSession(id) && s1.issued().contains(id)
                && ServerState::unchanged(s1, s2),
        },
    ensures
        r1 is Ok,
        r2 is Ok ==> r2->Ok_0 != r1->Ok_0,
        r2 is Err ==> r2 == Err::<u128, SessionError>(SessionError::DuplicateSession(r1->Ok_0)),
{
    match r1 {
        Ok(id1) => {
            assert(s1.issued() =~= Set::<u128>::empty().insert(id1));
            match r2 {
                Ok(id2) => assert(!s1.issued().contains(id2)),
                Err(_) => {},
            }
        },
        Err(_) => {},
    }
}

} // verus!

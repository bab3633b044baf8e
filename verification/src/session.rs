use vstd::prelude::*;
use crate::envelope::{Envelope, Frame};
use crate::manager::{
    lemma_seq_push_to_set, lemma_seq_remove_to_set, same_presence, same_queues, same_rooms,
    ConnectionManager, delivered_to_user,
};
use crate::queue::{push_spec, OutboundQueue};
use crate::router::{handle_incoming, routed};

verus! {

/// How many envelopes one connection's outbound queue holds before
/// best-effort delivery starts shedding the newest.
pub const OUTBOUND_QUEUE_CAPACITY: usize = 100;

/// The life of one connection, in order. `Connecting` lasts only until the
/// transport is accepted; `Authenticating` until the first inbound frame's
/// credential is verified; `Active` while the two pumps run; `Closing` from
/// the first pump exit (or rejection) until teardown has run; `Closed` after.
#[derive(Clone, Copy, Debug, PartialEq, Eq, Structural)]
pub enum SessionState {
    Connecting,
    Authenticating,
    Active,
    Closing,
    Closed,
}

/// Why authentication failed. Whatever the reason, the peer learns no more
/// than a generic rejection code.
#[derive(Clone, Copy, Debug, PartialEq, Eq, Structural)]
pub enum AuthError {
    /// The peer closed before sending any message.
    NoMessage,
    /// The first frame was not a text frame.
    NotText,
    /// The first frame's text did not carry a credential.
    Malformed,
    /// The identity verifier rejected the credential.
    Rejected,
}

/// The first inbound frame, reduced to what authentication needs: the
/// credential it carried, or how it failed to carry one.
#[derive(Debug, PartialEq)]
pub enum AuthFrame {
    Token(String),
    Malformed,
    NonText,
}

/// The ephemeral record of one live connection: its state, the user identity
/// assigned once authentication succeeds, and the rooms joined through it
/// (remembered so teardown can leave each one).
pub struct Session {
    pub state: SessionState,
    pub user: Option<u128>,
    pub joined: Vec<u128>,
}

/// The reason text of the best-effort error envelope sent before an
/// authentication teardown.
pub open spec fn spec_auth_error_message(e: AuthError) -> Seq<char> {
    match e {
        AuthError::NoMessage => "No authentication message received"@,
        AuthError::NotText => "Expected text message for authentication"@,
        AuthError::Malformed => "Invalid authentication message format"@,
        AuthError::Rejected => "Invalid or expired token"@,
    }
}

pub fn auth_error_message(e: AuthError) -> (s: String)
    ensures
        s@ == spec_auth_error_message(e),
{
    match e {
        AuthError::NoMessage => "No authentication message received".to_owned(),
        AuthError::NotText => "Expected text message for authentication".to_owned(),
        AuthError::Malformed => "Invalid authentication message format".to_owned(),
        AuthError::Rejected => "Invalid or expired token".to_owned(),
    }
}

/// Extracts the credential from the first inbound frame. Exactly the frames
/// that carry a credential yield one; each way of not carrying one yields
/// its own failure.
pub fn auth_credential(frame: Option<AuthFrame>) -> (r: Result<String, AuthError>)
    ensures
        match frame {
            Some(AuthFrame::Token(t)) => r matches Ok(c) && c == t,
            Some(AuthFrame::Malformed) => r == Result::<String, AuthError>::Err(
                AuthError::Malformed,
            ),
            Some(AuthFrame::NonText) => r == Result::<String, AuthError>::Err(AuthError::NotText),
            None => r == Result::<String, AuthError>::Err(AuthError::NoMessage),
        },
{
    match frame {
        Some(AuthFrame::Token(t)) => Ok(t),
        Some(AuthFrame::Malformed) => Err(AuthError::Malformed),
        Some(AuthFrame::NonText) => Err(AuthError::NotText),
        None => Err(AuthError::NoMessage),
    }
}

impl Session {
    /// An active session always knows its user, and the joined-room record
    /// never holds a room twice.
    pub open spec fn inv(self) -> bool {
        &&& (self.state == SessionState::Active ==> self.user is Some)
        &&& self.joined@.no_duplicates()
    }

    pub fn new() -> (s: Session)
        ensures
            s.inv(),
            s.state == SessionState::Connecting,
            s.user is None,
            s.joined@ == Seq::<u128>::empty(),
    {
        Session { state: SessionState::Connecting, user: None, joined: Vec::new() }
    }

    /// Immediate on transport accept: the session now expects the
    /// authentication frame, and nothing else, as the first inbound traffic.
    pub fn begin_authentication(&mut self)
        requires
            old(self).inv(),
            old(self).state == SessionState::Connecting,
        ensures
            final(self).inv(),
            final(self).state == SessionState::Authenticating,
            final(self).user == old(self).user,
            final(self).joined == old(self).joined,
    {
        self.state = SessionState::Authenticating;
    }

    /// Applies the identity verifier's verdict on the credential of the
    /// first inbound frame.
    ///
    /// Success activates the session and registers `queue` as the user's
    /// outbound channel — which triggers the "user online" broadcast to
    /// every registered channel, the new one included — then queues the
    /// welcome envelope for the new user.
    ///
    /// Failure moves straight to `Closing` without touching the shared
    /// state, and hands back the error envelope the caller may still write
    /// to the transport best-effort before teardown; it carries the generic
    /// rejection code, never the credential-specific reason.
    pub fn complete_authentication(
        &mut self,
        cm: &mut ConnectionManager,
        verdict: Result<u128, AuthError>,
        queue: OutboundQueue,
    ) -> (r: Option<Envelope>)
        requires
            old(self).inv(),
            old(self).state == SessionState::Authenticating,
            old(cm).wf(),
            queue.wf(),
        ensures
            final(self).inv(),
            final(cm).wf(),
            final(self).joined == old(self).joined,
            verdict matches Ok(uid) ==> {
                &&& final(self).state == SessionState::Active
                &&& final(self).user == Some(uid)
                &&& r is None
                &&& forall|u: u128|
                    final(cm).is_online(u) == (old(cm).is_online(u) || u == uid)
                &&& final(cm).cap_of(uid) == queue.cap()
                &&& exists|w: Envelope|
                    (w matches Envelope::Success { message } && message@
                        == "Connected successfully"@) && final(cm).pending(uid) == push_spec(
                        push_spec(
                            queue.contents(),
                            queue.cap(),
                            Envelope::UserOnline { user_id: uid },
                        ),
                        queue.cap(),
                        w,
                    )
                &&& forall|u: u128|
                    u != uid && old(cm).is_online(u) ==> final(cm).cap_of(u) == old(cm).cap_of(u)
                        && final(cm).pending(u) == push_spec(
                        old(cm).pending(u),
                        old(cm).cap_of(u),
                        Envelope::UserOnline { user_id: uid },
                    )
                &&& same_rooms(*old(cm), *final(cm))
            },
            verdict matches Err(e) ==> {
                &&& final(self).state == SessionState::Closing
                &&& final(self).user == old(self).user
                &&& *final(cm) == *old(cm)
                &&& r matches Some(env) && (env matches Envelope::Error { message, code }
                    && (message@ == spec_auth_error_message(e) && (code matches Some(c) && c@
                    == "AUTH_FAILED"@)))
            },
    {
        match verdict {
            Ok(uid) => {
                self.state = SessionState::Active;
                self.user = Some(uid);
                cm.add_connection(uid, queue);
                let welcome = Envelope::Success { message: "Connected successfully".to_owned() };
                let ghost w = welcome;
                cm.send_to_user(uid, welcome);
                proof {
                    assert((w matches Envelope::Success { message } && message@
                        == "Connected successfully"@) && cm.pending(uid) == push_spec(
                        push_spec(
                            queue.contents(),
                            queue.cap(),
                            Envelope::UserOnline { user_id: uid },
                        ),
                        queue.cap(),
                        w,
                    ));
                }
                None
            },
            Err(e) => {
                self.state = SessionState::Closing;
                let msg = auth_error_message(e);
                Some(Envelope::Error { message: msg, code: Some("AUTH_FAILED".to_owned()) })
            },
        }
    }

    /// One inbound transport frame while the session is active. A decoded
    /// envelope is routed; a malformed or unknown text payload is dropped
    /// silently and the session stays active (no error envelope, unlike an
    /// authentication failure); binary payloads are ignored; a close frame
    /// begins teardown; a transport-level ping earns a pong queued for this
    /// session's own user; a transport-level pong is ignored.
    pub fn on_frame(&mut self, cm: &mut ConnectionManager, frame: Frame)
        requires
            old(self).inv(),
            old(self).state == SessionState::Active,
            old(cm).wf(),
        ensures
            final(self).inv(),
            final(cm).wf(),
            final(self).user == old(self).user,
            final(self).joined == old(self).joined,
            final(self).state == if frame is Close {
                SessionState::Closing
            } else {
                SessionState::Active
            },
            frame matches Frame::Text(Some(env)) ==> (old(self).user matches Some(uid)
                && exists|mid: u128, ts: i64|
                #[trigger] routed(*old(cm), *final(cm), uid, env, mid, ts)),
            frame matches Frame::Text(None) ==> *final(cm) == *old(cm),
            frame is Binary ==> *final(cm) == *old(cm),
            frame is Close ==> *final(cm) == *old(cm),
            frame is Ping ==> (old(self).user matches Some(uid) && delivered_to_user(
                *old(cm),
                *final(cm),
                uid,
                Envelope::Pong,
            )),
            frame is Pong ==> *final(cm) == *old(cm),
    {
        match frame {
            Frame::Text(Some(env)) => {
                let uid = self.user.unwrap();
                handle_incoming(cm, uid, env);
            },
            Frame::Text(None) => {
            },
            Frame::Binary => {
            },
            Frame::Close => {
                self.state = SessionState::Closing;
            },
            Frame::Ping => {
                let uid = self.user.unwrap();
                cm.send_to_user(uid, Envelope::Pong);
            },
            Frame::Pong => {
            },
        }
    }

    /// A transport read or write error while active: fires the shared
    /// cancellation, beginning teardown.
    pub fn on_transport_error(&mut self)
        requires
            old(self).inv(),
            old(self).state == SessionState::Active,
        ensures
            final(self).inv(),
            final(self).state == SessionState::Closing,
            final(self).user == old(self).user,
            final(self).joined == old(self).joined,
    {
        self.state = SessionState::Closing;
    }

    /// Either pump exiting, for any reason, fires the shared cancellation:
    /// an active session begins closing; firing it again, or after teardown,
    /// changes nothing (idempotent).
    pub fn on_pump_exit(&mut self)
        requires
            old(self).inv(),
            old(self).state == SessionState::Active || old(self).state == SessionState::Closing
                || old(self).state == SessionState::Closed,
        ensures
            final(self).inv(),
            final(self).state == if old(self).state == SessionState::Active {
                SessionState::Closing
            } else {
                old(self).state
            },
            final(self).user == old(self).user,
            final(self).joined == old(self).joined,
    {
        if matches!(self.state, SessionState::Active) {
            self.state = SessionState::Closing;
        }
    }

    /// Joins this session's user to `room` and remembers the room for
    /// teardown; joining a room already joined is a no-op in both records.
    pub fn join_room(&mut self, cm: &mut ConnectionManager, room: u128)
        requires
            old(self).inv(),
            old(self).state == SessionState::Active,
            old(cm).wf(),
        ensures
            final(self).inv(),
            final(cm).wf(),
            final(self).state == old(self).state,
            final(self).user == old(self).user,
            final(self).joined@.to_set() == old(self).joined@.to_set().insert(room),
            old(self).user matches Some(uid) ==> {
                &&& final(cm).has_room(room)
                &&& final(cm).members(room) == old(cm).members(room).insert(uid)
                &&& forall|r: u128|
                    r != room ==> final(cm).has_room(r) == old(cm).has_room(r) && final(cm).members(r) == old(cm).members(r)
                &&& same_presence(*old(cm), *final(cm))
                &&& same_queues(*old(cm), *final(cm))
            },
    {
        let uid = self.user.unwrap();
        cm.add_user_to_chat(room, uid);
        let mut present = false;
        let mut i: usize = 0;
        while i < self.joined.len()
            invariant
                i <= self.joined@.len(),
                present == self.joined@.take(i as int).contains(room),
            decreases self.joined@.len() - i,
        {
            if self.joined[i] == room {
                present = true;
            }
            proof {
                crate::manager::lemma_take_push_contains(self.joined@, i as int, room);
            }
            i += 1;
        }
        proof {
            assert(self.joined@.take(self.joined@.len() as int) =~= self.joined@);
        }
        if !present {
            self.joined.push(room);
            proof {
                lemma_seq_push_to_set(old(self).joined@, room);
            }
        } else {
            proof {
                assert(old(self).joined@.to_set().insert(room) =~= old(self).joined@.to_set());
            }
        }
    }

    /// Removes this session's user from `room`, in the shared index and in
    /// the session's own record; the room entry disappears when the
    /// membership becomes empty.
    pub fn leave_room(&mut self, cm: &mut ConnectionManager, room: u128)
        requires
            old(self).inv(),
            old(self).state == SessionState::Active,
            old(cm).wf(),
        ensures
            final(self).inv(),
            final(cm).wf(),
            final(self).state == old(self).state,
            final(self).user == old(self).user,
            final(self).joined@.to_set() == old(self).joined@.to_set().remove(room),
            old(self).user matches Some(uid) ==> {
                &&& final(cm).members(room) == old(cm).members(room).remove(uid)
                &&& (final(cm).has_room(room) <==> old(cm).has_room(room) && !(old(cm).members(
                    room,
                ).remove(uid) =~= Set::<u128>::empty()))
                &&& forall|r: u128|
                    r != room ==> final(cm).has_room(r) == old(cm).has_room(r) && final(cm).members(r) == old(cm).members(r)
                &&& same_presence(*old(cm), *final(cm))
                &&& same_queues(*old(cm), *final(cm))
            },
    {
        let uid = self.user.unwrap();
        cm.remove_user_from_chat(room, uid);
        let mut idx: Option<usize> = None;
        let mut i: usize = 0;
        while i < self.joined.len()
            invariant
                i <= self.joined@.len(),
                match idx {
                    Some(k) => k < self.joined@.len() && self.joined@[k as int] == room,
                    None => forall|j: int| 0 <= j < i ==> self.joined@[j] != room,
                },
            decreases self.joined@.len() - i,
        {
            if self.joined[i] == room {
                idx = Some(i);
            }
            i += 1;
        }
        match idx {
            Some(k) => {
                self.joined.remove(k);
                proof {
                    lemma_seq_remove_to_set(old(self).joined@, k as int, room);
                    assert(self.joined@.no_duplicates()) by {
                        assert(self.joined@ == old(self).joined@.remove(k as int));
                        assert forall|a: int, b: int|
                            0 <= a < b < self.joined@.len() implies self.joined@[a]
                            != self.joined@[b] by {
                            let a0 = if a < k as int { a } else { a + 1 };
                            let b0 = if b < k as int { b } else { b + 1 };
                            assert(self.joined@[a] == old(self).joined@[a0]);
                            assert(self.joined@[b] == old(self).joined@[b0]);
                        }
                    }
                }
            },
            None => {
                proof {
                    assert(!old(self).joined@.contains(room)) by {
                        if old(self).joined@.contains(room) {
                            let j = choose|j: int|
                                0 <= j < old(self).joined@.len() && old(self).joined@[j] == room;
                            assert(self.joined@[j] == room);
                        }
                    }
                    assert(old(self).joined@.to_set().remove(room) =~= old(self).joined@.to_set());
                }
            },
        }
    }

    /// Teardown, run exactly once even when both pumps exit concurrently:
    /// the closing session deregisters its user — triggering the
    /// "user offline" broadcast to the channels that remain — and leaves
    /// every room it had joined, emptied rooms disappearing from the index;
    /// then it is `Closed`. Calling it again on a closed session changes
    /// nothing. A session that never authenticated has no user and nothing
    /// registered, so only its state moves.
    pub fn cleanup(&mut self, cm: &mut ConnectionManager)
        requires
            old(self).inv(),
            old(self).state == SessionState::Closing || old(self).state == SessionState::Closed,
            old(cm).wf(),
        ensures
            final(self).inv(),
            final(cm).wf(),
            final(self).state == SessionState::Closed,
            final(self).user == old(self).user,
            old(self).state == SessionState::Closed ==> *final(cm) == *old(cm) && final(self).joined == old(self).joined,
            old(self).state == SessionState::Closing ==> final(self).joined@ == Seq::<
                u128,
            >::empty(),
            old(self).state == SessionState::Closing && old(self).user is None ==> *final(cm)
                == *old(cm),
            old(self).state == SessionState::Closing ==> (old(self).user matches Some(uid) ==> {
                &&& forall|u: u128|
                    final(cm).is_online(u) == (old(cm).is_online(u) && u != uid)
                &&& forall|u: u128|
                    u != uid && old(cm).is_online(u) ==> final(cm).cap_of(u) == old(cm).cap_of(u)
                        && final(cm).pending(u) == push_spec(
                        old(cm).pending(u),
                        old(cm).cap_of(u),
                        Envelope::UserOffline { user_id: uid },
                    )
                &&& forall|r: u128|
                    final(cm).members(r) == if old(self).joined@.contains(r) {
                        old(cm).members(r).remove(uid)
                    } else {
                        old(cm).members(r)
                    }
                &&& forall|r: u128|
                    !old(self).joined@.contains(r) ==> final(cm).has_room(r) == old(cm).has_room(
                        r,
                    )
                &&& forall|r: u128|
                    old(self).joined@.contains(r) ==> !final(cm).members(r).contains(uid)
            }),
    {
        if matches!(self.state, SessionState::Closed) {
            return ;
        }
        self.state = SessionState::Closed;
        match self.user {
            Some(uid) => {
                cm.remove_connection(uid);
                let ghost mid = *cm;
                let mut i: usize = 0;
                while i < self.joined.len()
                    invariant
                        old(self).inv(),
                        cm.wf(),
                        i <= self.joined@.len(),
                        self.joined == old(self).joined,
                        same_presence(mid, *cm),
                        same_queues(mid, *cm),
                        forall|r: u128|
                            cm.members(r) == if old(self).joined@.take(i as int).contains(r) {
                                mid.members(r).remove(uid)
                            } else {
                                mid.members(r)
                            },
                        forall|r: u128|
                            !old(self).joined@.take(i as int).contains(r) ==> cm.has_room(r)
                                == mid.has_room(r),
                    decreases self.joined@.len() - i,
                {
                    let room = self.joined[i];
                    let ghost before = *cm;
                    cm.remove_user_from_chat(room, uid);
                    proof {
                        crate::manager::lemma_take_push_contains(
                            old(self).joined@,
                            i as int,
                            room,
                        );
                        assert forall|r: u128| #![auto]
                            cm.members(r) == if old(self).joined@.take(i as int + 1).contains(r) {
                                mid.members(r).remove(uid)
                            } else {
                                mid.members(r)
                            } by {
                            crate::manager::lemma_take_push_contains(
                                old(self).joined@,
                                i as int,
                                r,
                            );
                            if r == room {
                                if old(self).joined@.take(i as int).contains(r) {
                                    assert(before.members(r) == mid.members(r).remove(uid));
                                    assert(cm.members(r) == before.members(r).remove(uid));
                                    assert(mid.members(r).remove(uid).remove(uid)
                                        =~= mid.members(r).remove(uid));
                                }
                            }
                        }
                    }
                    i += 1;
                }
                self.joined = Vec::new();
                proof {
                    assert(old(self).joined@.take(old(self).joined@.len() as int)
                        =~= old(self).joined@);
                }
            },
            None => {
                self.joined = Vec::new();
            },
        }
    }
}

} // verus!

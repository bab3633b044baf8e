use vstd::prelude::*;
use crate::envelope::Envelope;
use crate::queue::{OutboundQueue, push_spec};

verus! {

/// One live connection: the source of truth for "who is online". At most one
/// entry per user; a later registration for the same user replaces the
/// earlier entry's channel.
pub struct ConnectionEntry {
    user: u128,
    queue: OutboundQueue,
}

/// One room: the set of user identities a room-send fans out to. Member
/// lists never hold a user twice and never go empty (an emptied room entry
/// is deleted).
pub struct RoomEntry {
    room: u128,
    members: Vec<u128>,
}

/// The process-wide shared state of the real-time layer: the connection
/// registry (user -> outbound queue) and the room membership index
/// (room -> member set). All mutation goes through the atomic operations
/// below; sessions never touch the entries directly.
pub struct ConnectionManager {
    connections: Vec<ConnectionEntry>,
    chat_participants: Vec<RoomEntry>,
}

impl ConnectionManager {
    /// Whether `u` currently has a registered connection.
    pub closed spec fn is_online(self, u: u128) -> bool {
        exists|i: int|
            0 <= i < self.connections@.len() && self.connections@[i].user == u
    }

    spec fn conn_idx(self, u: u128) -> int {
        choose|i: int|
            0 <= i < self.connections@.len() && self.connections@[i].user == u
    }

    /// The envelopes queued for delivery to `u`, oldest first
    /// (meaningful only while `u` is online).
    pub closed spec fn pending(self, u: u128) -> Seq<Envelope> {
        self.connections@[self.conn_idx(u)].queue.contents()
    }

    /// The bound of `u`'s outbound queue (meaningful only while `u` is online).
    pub closed spec fn cap_of(self, u: u128) -> nat {
        self.connections@[self.conn_idx(u)].queue.cap()
    }

    /// Whether the index holds an entry for room `r`.
    pub closed spec fn has_room(self, r: u128) -> bool {
        exists|i: int|
            0 <= i < self.chat_participants@.len() && self.chat_participants@[i].room == r
    }

    spec fn room_idx(self, r: u128) -> int {
        choose|i: int|
            0 <= i < self.chat_participants@.len() && self.chat_participants@[i].room == r
    }

    /// The member set of room `r`; empty when the room has no entry.
    pub closed spec fn members(self, r: u128) -> Set<u128> {
        if self.has_room(r) {
            self.chat_participants@[self.room_idx(r)].members@.to_set()
        } else {
            Set::empty()
        }
    }

    /// Internal consistency: one entry per user, well-formed queues, one
    /// entry per room, duplicate-free and non-empty member lists.
    pub closed spec fn wf(self) -> bool {
        &&& forall|i: int, j: int|
            0 <= i < j < self.connections@.len() ==> self.connections@[i].user
                != self.connections@[j].user
        &&& forall|i: int|
            0 <= i < self.connections@.len() ==> (#[trigger] self.connections@[i].queue).wf()
        &&& forall|i: int, j: int|
            0 <= i < j < self.chat_participants@.len() ==> self.chat_participants@[i].room
                != self.chat_participants@[j].room
        &&& forall|i: int|
            0 <= i < self.chat_participants@.len() ==> (
            #[trigger] self.chat_participants@[i].members)@.no_duplicates()
        &&& forall|i: int|
            0 <= i < self.chat_participants@.len()
                ==> (#[trigger] self.chat_participants@[i].members)@.len() > 0
    }

    proof fn lemma_conn_idx(self, u: u128, i: int)
        requires
            self.wf(),
            0 <= i < self.connections@.len(),
            self.connections@[i].user == u,
        ensures
            self.is_online(u),
            self.conn_idx(u) == i,
    {
        assert(self.is_online(u));
        let j = self.conn_idx(u);
        assert(0 <= j < self.connections@.len() && self.connections@[j].user == u);
        if i < j {
            assert(self.connections@[i].user != self.connections@[j].user);
        } else if j < i {
            assert(self.connections@[j].user != self.connections@[i].user);
        }
    }

    proof fn lemma_room_idx(self, r: u128, i: int)
        requires
            self.wf(),
            0 <= i < self.chat_participants@.len(),
            self.chat_participants@[i].room == r,
        ensures
            self.has_room(r),
            self.room_idx(r) == i,
    {
        assert(self.has_room(r));
        let j = self.room_idx(r);
        assert(0 <= j < self.chat_participants@.len() && self.chat_participants@[j].room == r);
        if i < j {
            assert(self.chat_participants@[i].room != self.chat_participants@[j].room);
        } else if j < i {
            assert(self.chat_participants@[j].room != self.chat_participants@[i].room);
        }
    }
}

/// Presence is untouched: the same users are online, each keeping the bound
/// of its queue.
pub open spec fn same_presence(pre: ConnectionManager, post: ConnectionManager) -> bool {
    &&& forall|u: u128| post.is_online(u) == pre.is_online(u)
    &&& forall|u: u128| pre.is_online(u) ==> post.cap_of(u) == pre.cap_of(u)
}

/// Room membership is untouched.
pub open spec fn same_rooms(pre: ConnectionManager, post: ConnectionManager) -> bool {
    &&& forall|r: u128| post.has_room(r) == pre.has_room(r)
    &&& forall|r: u128| post.members(r) == pre.members(r)
}

/// No queued envelope changed.
pub open spec fn same_queues(pre: ConnectionManager, post: ConnectionManager) -> bool {
    forall|u: u128| pre.is_online(u) ==> post.pending(u) == pre.pending(u)
}

/// Exactly one best-effort delivery of `e` to `target` and to nobody else:
/// an absent recipient, like a full queue, loses the envelope silently.
pub open spec fn delivered_to_user(
    pre: ConnectionManager,
    post: ConnectionManager,
    target: u128,
    e: Envelope,
) -> bool {
    &&& same_presence(pre, post)
    &&& same_rooms(pre, post)
    &&& pre.is_online(target) ==> post.pending(target) == push_spec(
        pre.pending(target),
        pre.cap_of(target),
        e,
    )
    &&& forall|u: u128|
        u != target && pre.is_online(u) ==> post.pending(u) == pre.pending(u)
    &&& !pre.is_online(target) ==> same_queues(pre, post)
}

/// Best-effort fan-out of `e` to every member of `room` except `exclude`,
/// exactly once each; the excluded member, members who are offline, and
/// everyone outside the room receive nothing.
pub open spec fn delivered_to_room(
    pre: ConnectionManager,
    post: ConnectionManager,
    room: u128,
    e: Envelope,
    exclude: Option<u128>,
) -> bool {
    &&& same_presence(pre, post)
    &&& same_rooms(pre, post)
    &&& forall|u: u128|
        pre.is_online(u) ==> post.pending(u) == if pre.members(room).contains(u) && Some(u)
            != exclude {
            push_spec(pre.pending(u), pre.cap_of(u), e)
        } else {
            pre.pending(u)
        }
}

/// Best-effort delivery of `e` to every registered channel, exactly once each.
pub open spec fn broadcast_to_every(
    pre: ConnectionManager,
    post: ConnectionManager,
    e: Envelope,
) -> bool {
    &&& same_presence(pre, post)
    &&& same_rooms(pre, post)
    &&& forall|u: u128|
        pre.is_online(u) ==> post.pending(u) == push_spec(pre.pending(u), pre.cap_of(u), e)
}

impl ConnectionManager {
    pub fn new() -> (cm: ConnectionManager)
        ensures
            cm.wf(),
            forall|u: u128| !cm.is_online(u),
            forall|r: u128| !cm.has_room(r),
    {
        ConnectionManager { connections: Vec::new(), chat_participants: Vec::new() }
    }

    fn find_conn(&self, u: u128) -> (r: Option<usize>)
        ensures
            match r {
                Some(i) => i < self.connections@.len() && self.connections@[i as int].user == u,
                None => !self.is_online(u),
            },
    {
        let mut i: usize = 0;
        while i < self.connections.len()
            invariant
                i <= self.connections@.len(),
                forall|j: int| 0 <= j < i ==> self.connections@[j].user != u,
            decreases self.connections@.len() - i,
        {
            if self.connections[i].user == u {
                return Some(i);
            }
            i += 1;
        }
        None
    }

    fn find_room(&self, r: u128) -> (res: Option<usize>)
        ensures
            match res {
                Some(i) => i < self.chat_participants@.len() && self.chat_participants@[
                    i as int
                ].room == r,
                None => !self.has_room(r),
            },
    {
        let mut i: usize = 0;
        while i < self.chat_participants.len()
            invariant
                i <= self.chat_participants@.len(),
                forall|j: int| 0 <= j < i ==> self.chat_participants@[j].room != r,
            decreases self.chat_participants@.len() - i,
        {
            if self.chat_participants[i].room == r {
                return Some(i);
            }
            i += 1;
        }
        None
    }

    /// Delivers `message` to every currently registered channel, best-effort
    /// per recipient: never blocks, and a full queue sheds the message.
    pub fn broadcast_to_all(&mut self, message: Envelope)
        requires
            old(self).wf(),
        ensures
            final(self).wf(),
            broadcast_to_every(*old(self), *final(self), message),
    {
        let mut i: usize = 0;
        while i < self.connections.len()
            invariant
                old(self).wf(),
                i <= self.connections@.len(),
                self.connections@.len() == old(self).connections@.len(),
                self.chat_participants == old(self).chat_participants,
                forall|j: int|
                    0 <= j < self.connections@.len() ==> (#[trigger] self.connections@[j]).user
                        == old(self).connections@[j].user,
                forall|j: int|
                    0 <= j < self.connections@.len() ==> (
                    #[trigger] self.connections@[j]).queue.cap()
                        == old(self).connections@[j].queue.cap(),
                forall|j: int|
                    0 <= j < self.connections@.len() ==> (
                    #[trigger] self.connections@[j]).queue.wf(),
                forall|j: int|
                    0 <= j < i ==> (#[trigger] self.connections@[j]).queue.contents() == push_spec(
                        old(self).connections@[j].queue.contents(),
                        old(self).connections@[j].queue.cap(),
                        message,
                    ),
                forall|j: int|
                    i <= j < self.connections@.len() ==> (
                    #[trigger] self.connections@[j]).queue.contents()
                        == old(self).connections@[j].queue.contents(),
            decreases self.connections@.len() - i,
        {
            let ghost prev = self.connections@;
            let mut entry = self.connections.remove(i);
            entry.queue.push(message.clone());
            self.connections.insert(i, entry);
            proof {
                assert(self.connections@ =~= prev.update(i as int, self.connections@[i as int]));
            }
            i += 1;
        }
        proof {
            self.lemma_same_users_same_model(*old(self));
            assert forall|u: u128| old(self).is_online(u) implies final(self).pending(u)
                == push_spec(old(self).pending(u), old(self).cap_of(u), message) by {
                let k = old(self).conn_idx(u);
                old(self).lemma_conn_idx(u, k);
                self.lemma_conn_idx(u, k);
            }
        }
    }

    /// Rooms read only the membership column: equal columns, equal model.
    proof fn lemma_rooms_unchanged(self, other: ConnectionManager)
        requires
            self.wf(),
            other.wf(),
            self.chat_participants == other.chat_participants,
        ensures
            same_rooms(other, self),
    {
        assert forall|r: u128| self.has_room(r) == other.has_room(r) by {
            if self.has_room(r) {
                let i = self.room_idx(r);
                assert(other.chat_participants@[i].room == r);
                assert(other.has_room(r));
            }
            if other.has_room(r) {
                let i = other.room_idx(r);
                assert(self.chat_participants@[i].room == r);
                assert(self.has_room(r));
            }
        }
        assert forall|r: u128| self.members(r) == other.members(r) by {
            if other.has_room(r) {
                let i = other.room_idx(r);
                other.lemma_room_idx(r, i);
                self.lemma_room_idx(r, i);
            }
        }
    }

    /// From equal user columns (plus wf on both sides), presence agrees and
    /// per-user indexes and rooms line up; capacities are not compared.
    proof fn lemma_same_users_presence(self, other: ConnectionManager)
        requires
            self.wf(),
            other.wf(),
            self.connections@.len() == other.connections@.len(),
            forall|j: int|
                0 <= j < self.connections@.len() ==> (#[trigger] self.connections@[j]).user
                    == other.connections@[j].user,
            self.chat_participants == other.chat_participants,
        ensures
            forall|u: u128| self.is_online(u) == other.is_online(u),
            same_rooms(other, self),
            forall|u: u128|
                other.is_online(u) ==> self.conn_idx(u) == other.conn_idx(u),
    {
        self.lemma_rooms_unchanged(other);
        assert forall|u: u128| self.is_online(u) == other.is_online(u) by {
            if self.is_online(u) {
                let i = self.conn_idx(u);
                assert(other.connections@[i].user == u);
                assert(other.is_online(u));
            }
            if other.is_online(u) {
                let i = other.conn_idx(u);
                assert(self.connections@[i].user == u);
                assert(self.is_online(u));
            }
        }
        assert forall|u: u128| other.is_online(u) implies self.conn_idx(u) == other.conn_idx(u) by {
            let i = other.conn_idx(u);
            other.lemma_conn_idx(u, i);
            self.lemma_conn_idx(u, i);
        }
    }

    /// As above, and with equal capacity columns presence is preserved in
    /// full.
    proof fn lemma_same_users_same_model(self, other: ConnectionManager)
        requires
            self.wf(),
            other.wf(),
            self.connections@.len() == other.connections@.len(),
            forall|j: int|
                0 <= j < self.connections@.len() ==> (#[trigger] self.connections@[j]).user
                    == other.connections@[j].user,
            forall|j: int|
                0 <= j < self.connections@.len() ==> (#[trigger] self.connections@[j]).queue.cap()
                    == other.connections@[j].queue.cap(),
            self.chat_participants == other.chat_participants,
        ensures
            same_presence(other, self),
            same_rooms(other, self),
            forall|u: u128|
                other.is_online(u) ==> self.conn_idx(u) == other.conn_idx(u),
    {
        self.lemma_same_users_presence(other);
        assert forall|u: u128| other.is_online(u) implies self.cap_of(u) == other.cap_of(u) by {
            let i = other.conn_idx(u);
            other.lemma_conn_idx(u, i);
            self.lemma_conn_idx(u, i);
        }
    }

    /// Best-effort delivery to one user: queued if `user_id` is online and
    /// its queue has room, silently dropped otherwise; nobody else is
    /// touched and the caller is never blocked.
    pub fn send_to_user(&mut self, user_id: u128, message: Envelope)
        requires
            old(self).wf(),
        ensures
            final(self).wf(),
            delivered_to_user(*old(self), *final(self), user_id, message),
    {
        match self.find_conn(user_id) {
            Some(i) => {
                let ghost prev = self.connections@;
                let mut entry = self.connections.remove(i);
                entry.queue.push(message);
                self.connections.insert(i, entry);
                proof {
                    assert(self.connections@ =~= prev.update(
                        i as int,
                        self.connections@[i as int],
                    ));
                    self.lemma_same_users_same_model(*old(self));
                    old(self).lemma_conn_idx(user_id, i as int);
                    assert forall|u: u128| u != user_id && old(self).is_online(u) implies
                        final(self).pending(u) == old(self).pending(u) by {
                        let k = old(self).conn_idx(u);
                        old(self).lemma_conn_idx(u, k);
                        self.lemma_conn_idx(u, k);
                    }
                }
            },
            None => {
            },
        }
    }

    /// Registers (or, for an already-online user, replaces) the outbound
    /// channel for `user_id`: last writer wins, the superseded queue is
    /// dropped and receives nothing further. The registration then triggers
    /// a best-effort "user online" broadcast to every registered channel,
    /// the new one included. Replacement does not close the old channel
    /// itself; signalling the superseded session is the caller's business.
    pub fn add_connection(&mut self, user_id: u128, queue: OutboundQueue)
        requires
            old(self).wf(),
            queue.wf(),
        ensures
            final(self).wf(),
            forall|u: u128|
                final(self).is_online(u) == (old(self).is_online(u) || u == user_id),
            final(self).cap_of(user_id) == queue.cap(),
            final(self).pending(user_id) == push_spec(
                queue.contents(),
                queue.cap(),
                Envelope::UserOnline { user_id },
            ),
            forall|u: u128|
                u != user_id && old(self).is_online(u) ==> final(self).cap_of(u) == old(self).cap_of(u) && final(self).pending(u) == push_spec(
                    old(self).pending(u),
                    old(self).cap_of(u),
                    Envelope::UserOnline { user_id },
                ),
            same_rooms(*old(self), *final(self)),
    {
        match self.find_conn(user_id) {
            Some(i) => {
                let ghost prev = self.connections@;
                let mut entry = self.connections.remove(i);
                entry.queue = queue;
                self.connections.insert(i, entry);
                proof {
                    assert(self.connections@ =~= prev.update(
                        i as int,
                        self.connections@[i as int],
                    ));
                    self.lemma_same_users_presence(*old(self));
                    old(self).lemma_conn_idx(user_id, i as int);
                    self.lemma_conn_idx(user_id, i as int);
                    assert forall|u: u128| u != user_id && old(self).is_online(u) implies
                        self.pending(u) == old(self).pending(u) && self.cap_of(u) == old(self).cap_of(u) by {
                        let k = old(self).conn_idx(u);
                        old(self).lemma_conn_idx(u, k);
                        self.lemma_conn_idx(u, k);
                    }
                }
            },
            None => {
                let ghost prev = *self;
                self.connections.push(ConnectionEntry { user: user_id, queue });
                proof {
                    let n = prev.connections@.len();
                    assert(self.connections@ =~= prev.connections@.push(
                        self.connections@[n as int],
                    ));
                    self.lemma_conn_idx(user_id, n as int);
                    self.lemma_rooms_unchanged(prev);
                    assert forall|u: u128| u != user_id implies self.is_online(u) == prev
                        .is_online(u) by {
                        if prev.is_online(u) {
                            let k = prev.conn_idx(u);
                            prev.lemma_conn_idx(u, k);
                            self.lemma_conn_idx(u, k);
                        }
                        if self.is_online(u) {
                            let k = self.conn_idx(u);
                            self.lemma_conn_idx(u, k);
                            assert(k != n);
                            prev.lemma_conn_idx(u, k);
                        }
                    }
                    assert forall|u: u128| u != user_id && prev.is_online(u) implies self.pending(
                        u,
                    ) == prev.pending(u) && self.cap_of(u) == prev.cap_of(u) by {
                        let k = prev.conn_idx(u);
                        prev.lemma_conn_idx(u, k);
                        self.lemma_conn_idx(u, k);
                    }
                }
            },
        }
        self.broadcast_to_all(Envelope::UserOnline { user_id });
    }

    /// Removes `user_id`'s entry if present (a no-op, not an error, when
    /// absent), then triggers a best-effort "user offline" broadcast to the
    /// channels that remain registered.
    pub fn remove_connection(&mut self, user_id: u128)
        requires
            old(self).wf(),
        ensures
            final(self).wf(),
            forall|u: u128|
                final(self).is_online(u) == (old(self).is_online(u) && u != user_id),
            forall|u: u128|
                u != user_id && old(self).is_online(u) ==> final(self).cap_of(u) == old(self).cap_of(u) && final(self).pending(u) == push_spec(
                    old(self).pending(u),
                    old(self).cap_of(u),
                    Envelope::UserOffline { user_id },
                ),
            same_rooms(*old(self), *final(self)),
    {
        match self.find_conn(user_id) {
            Some(i) => {
                let ghost prev = *self;
                self.connections.remove(i);
                proof {
                    assert forall|a: int, b: int|
                        0 <= a < b < self.connections@.len() implies self.connections@[a].user
                        != self.connections@[b].user by {
                        let a0 = if a < i as int { a } else { a + 1 };
                        let b0 = if b < i as int { b } else { b + 1 };
                        assert(self.connections@[a] == prev.connections@[a0]);
                        assert(self.connections@[b] == prev.connections@[b0]);
                    }
                    assert forall|a: int|
                        0 <= a < self.connections@.len() implies (
                    #[trigger] self.connections@[a]).queue.wf() by {
                        let a0 = if a < i as int { a } else { a + 1 };
                        assert(self.connections@[a] == prev.connections@[a0]);
                    }
                    self.lemma_rooms_unchanged(prev);
                    assert forall|u: u128| u != user_id implies self.is_online(u) == prev
                        .is_online(u) by {
                        if prev.is_online(u) {
                            let k = prev.conn_idx(u);
                            prev.lemma_conn_idx(u, k);
                            if k < i as int {
                                self.lemma_conn_idx(u, k);
                            } else {
                                assert(k > i as int);
                                assert(self.connections@[k - 1].user == u);
                                self.lemma_conn_idx(u, k - 1);
                            }
                        }
                        if self.is_online(u) {
                            let k = self.conn_idx(u);
                            self.lemma_conn_idx(u, k);
                            if k < i as int {
                                prev.lemma_conn_idx(u, k);
                            } else {
                                assert(prev.connections@[k + 1].user == u);
                                prev.lemma_conn_idx(u, k + 1);
                            }
                        }
                    }
                    assert forall|u: u128| u != user_id && prev.is_online(u) implies self.pending(
                        u,
                    ) == prev.pending(u) && self.cap_of(u) == prev.cap_of(u) by {
                        let k = prev.conn_idx(u);
                        prev.lemma_conn_idx(u, k);
                        if k < i as int {
                            self.lemma_conn_idx(u, k);
                        } else {
                            assert(k > i as int);
                            assert(self.connections@[k - 1].user == u);
                            self.lemma_conn_idx(u, k - 1);
                        }
                    }
                    assert(!self.is_online(user_id)) by {
                        if self.is_online(user_id) {
                            let k = self.conn_idx(user_id);
                            assert(0 <= k < self.connections@.len());
                            assert(self.connections@[k].user == user_id);
                            if k < i as int {
                                prev.lemma_conn_idx(user_id, k);
                            } else {
                                prev.lemma_conn_idx(user_id, k + 1);
                            }
                        }
                    }
                }
            },
            None => {
            },
        }
        self.broadcast_to_all(Envelope::UserOffline { user_id });
    }

    /// The snapshot of registered user identities at call time: exactly the
    /// online users, each reported once, in no promised order.
    pub fn get_online_users(&self) -> (r: Vec<u128>)
        requires
            self.wf(),
        ensures
            forall|i: int| 0 <= i < r@.len() ==> self.is_online(#[trigger] r@[i]),
            forall|u: u128| self.is_online(u) ==> r@.contains(u),
            r@.no_duplicates(),
    {
        let mut r: Vec<u128> = Vec::new();
        let mut i: usize = 0;
        while i < self.connections.len()
            invariant
                self.wf(),
                i <= self.connections@.len(),
                r@.len() == i,
                forall|j: int| 0 <= j < i ==> r@[j] == self.connections@[j].user,
            decreases self.connections@.len() - i,
        {
            r.push(self.connections[i].user);
            i += 1;
        }
        proof {
            assert forall|k: int| 0 <= k < r@.len() implies self.is_online(#[trigger] r@[k]) by {
                self.lemma_conn_idx(r@[k], k);
            }
            assert forall|u: u128| self.is_online(u) implies r@.contains(u) by {
                let k = self.conn_idx(u);
                assert(r@[k] == u);
            }
            assert forall|k: int, l: int| 0 <= k < l < r@.len() implies r@[k] != r@[l] by {
                assert(self.connections@[k].user != self.connections@[l].user);
            }
        }
        r
    }

    /// One step of a recipient's outbound pump: takes the oldest queued
    /// envelope for `user_id`, if any. Deliveries to a single recipient come
    /// out in the order they were queued (per-recipient FIFO).
    pub fn pop_outbound(&mut self, user_id: u128) -> (r: Option<Envelope>)
        requires
            old(self).wf(),
        ensures
            final(self).wf(),
            same_presence(*old(self), *final(self)),
            same_rooms(*old(self), *final(self)),
            old(self).is_online(user_id) && old(self).pending(user_id).len() > 0 ==> r == Some(
                old(self).pending(user_id).first(),
            ) && final(self).pending(user_id) == old(self).pending(user_id).drop_first(),
            old(self).is_online(user_id) && old(self).pending(user_id).len() == 0 ==> r is None
                && final(self).pending(user_id) == old(self).pending(user_id),
            !old(self).is_online(user_id) ==> r is None,
            forall|u: u128|
                u != user_id && old(self).is_online(u) ==> final(self).pending(u) == old(self).pending(u),
    {
        match self.find_conn(user_id) {
            Some(i) => {
                let ghost prev = self.connections@;
                let mut entry = self.connections.remove(i);
                let r = entry.queue.pop();
                self.connections.insert(i, entry);
                proof {
                    assert(self.connections@ =~= prev.update(
                        i as int,
                        self.connections@[i as int],
                    ));
                    self.lemma_same_users_same_model(*old(self));
                    old(self).lemma_conn_idx(user_id, i as int);
                    self.lemma_conn_idx(user_id, i as int);
                    assert forall|u: u128| u != user_id && old(self).is_online(u) implies
                        final(self).pending(u) == old(self).pending(u) by {
                        let k = old(self).conn_idx(u);
                        old(self).lemma_conn_idx(u, k);
                        self.lemma_conn_idx(u, k);
                    }
                }
                r
            },
            None => None,
        }
    }

    /// The registry reads only the connection column: equal columns, equal
    /// model.
    proof fn lemma_conns_unchanged(self, other: ConnectionManager)
        requires
            self.wf(),
            other.wf(),
            self.connections == other.connections,
        ensures
            same_presence(other, self),
            same_queues(other, self),
    {
        assert forall|u: u128| self.is_online(u) == other.is_online(u) by {
            if self.is_online(u) {
                let i = self.conn_idx(u);
                assert(other.connections@[i].user == u);
                assert(other.is_online(u));
            }
            if other.is_online(u) {
                let i = other.conn_idx(u);
                assert(self.connections@[i].user == u);
                assert(self.is_online(u));
            }
        }
        assert forall|u: u128| other.is_online(u) implies self.cap_of(u) == other.cap_of(u)
            && self.pending(u) == other.pending(u) by {
            let i = other.conn_idx(u);
            other.lemma_conn_idx(u, i);
            self.lemma_conn_idx(u, i);
        }
    }

    /// Adds `user_id` to the member set of `chat_id`, creating the room on
    /// first join; joining a room one is already in is a no-op.
    pub fn add_user_to_chat(&mut self, chat_id: u128, user_id: u128)
        requires
            old(self).wf(),
        ensures
            final(self).wf(),
            final(self).has_room(chat_id),
            final(self).members(chat_id) == old(self).members(chat_id).insert(user_id),
            forall|r: u128|
                r != chat_id ==> final(self).has_room(r) == old(self).has_room(r) && final(self).members(r) == old(self).members(r),
            same_presence(*old(self), *final(self)),
            same_queues(*old(self), *final(self)),
    {
        match self.find_room(chat_id) {
            Some(ri) => {
                proof {
                    old(self).lemma_room_idx(chat_id, ri as int);
                }
                let already = member_index(&self.chat_participants[ri].members, user_id);
                match already {
                    Some(_) => {
                        proof {
                            assert(old(self).members(chat_id).insert(user_id) =~= old(self).members(chat_id));
                        }
                    },
                    None => {
                        let ghost prev = self.chat_participants@;
                        let mut entry = self.chat_participants.remove(ri);
                        entry.members.push(user_id);
                        self.chat_participants.insert(ri, entry);
                        proof {
                            assert(self.chat_participants@ =~= prev.update(
                                ri as int,
                                self.chat_participants@[ri as int],
                            ));
                            assert(self.chat_participants@[ri as int].members@ =~= prev[
                                ri as int
                            ].members@.push(user_id));
                            self.lemma_conns_unchanged(*old(self));
                            self.lemma_room_idx(chat_id, ri as int);
                            lemma_seq_push_to_set(prev[ri as int].members@, user_id);
                            assert(self.members(chat_id) =~= old(self).members(
                                chat_id,
                            ).insert(user_id));
                            assert forall|r: u128| r != chat_id implies self.has_room(r) == old(self).has_room(r) && self.members(r) == old(self).members(r) by {
                                if old(self).has_room(r) {
                                    let k = old(self).room_idx(r);
                                    old(self).lemma_room_idx(r, k);
                                    self.lemma_room_idx(r, k);
                                }
                                if self.has_room(r) {
                                    let k = self.room_idx(r);
                                    self.lemma_room_idx(r, k);
                                    old(self).lemma_room_idx(r, k);
                                }
                            }
                        }
                    },
                }
            },
            None => {
                let ghost prev = *self;
                let mut members: Vec<u128> = Vec::new();
                members.push(user_id);
                self.chat_participants.push(RoomEntry { room: chat_id, members });
                proof {
                    let n = prev.chat_participants@.len();
                    assert(self.chat_participants@ =~= prev.chat_participants@.push(
                        self.chat_participants@[n as int],
                    ));
                    self.lemma_conns_unchanged(prev);
                    self.lemma_room_idx(chat_id, n as int);
                    lemma_seq_push_to_set(Seq::<u128>::empty(), user_id);
                    assert(self.chat_participants@[n as int].members@ =~= Seq::<
                        u128,
                    >::empty().push(user_id));
                    assert(self.members(chat_id) =~= prev.members(chat_id).insert(user_id));
                    assert forall|r: u128| r != chat_id implies self.has_room(r) == prev.has_room(
                        r,
                    ) && self.members(r) == prev.members(r) by {
                        if prev.has_room(r) {
                            let k = prev.room_idx(r);
                            prev.lemma_room_idx(r, k);
                            self.lemma_room_idx(r, k);
                        }
                        if self.has_room(r) {
                            let k = self.room_idx(r);
                            self.lemma_room_idx(r, k);
                            assert(k != n);
                            prev.lemma_room_idx(r, k);
                        }
                    }
                }
            },
        }
    }

    /// Removes `user_id` from the member set of `chat_id`; a membership that
    /// becomes empty deletes the room entry, so no dangling empty rooms
    /// remain. Removing an absent member, or from an absent room, is a no-op.
    pub fn remove_user_from_chat(&mut self, chat_id: u128, user_id: u128)
        requires
            old(self).wf(),
        ensures
            final(self).wf(),
            final(self).members(chat_id) == old(self).members(chat_id).remove(user_id),
            final(self).has_room(chat_id) <==> old(self).has_room(chat_id) && !(old(self).members(
                chat_id,
            ).remove(user_id) =~= Set::<u128>::empty()),
            forall|r: u128|
                r != chat_id ==> final(self).has_room(r) == old(self).has_room(r) && final(self).members(r) == old(self).members(r),
            same_presence(*old(self), *final(self)),
            same_queues(*old(self), *final(self)),
    {
        match self.find_room(chat_id) {
            Some(ri) => {
                proof {
                    old(self).lemma_room_idx(chat_id, ri as int);
                }
                let at = member_index(&self.chat_participants[ri].members, user_id);
                match at {
                    None => {
                        proof {
                            assert(old(self).members(chat_id).remove(user_id) =~= old(self).members(chat_id));
                            assert(old(self).members(chat_id).contains(
                                old(self).chat_participants@[ri as int].members@[0],
                            ));
                        }
                    },
                    Some(mi) => {
                        let ghost prev = self.chat_participants@;
                        let mut entry = self.chat_participants.remove(ri);
                        let ghost mseq = entry.members@;
                        entry.members.remove(mi);
                        proof {
                            lemma_seq_remove_to_set(mseq, mi as int, user_id);
                        }
                        if entry.members.len() == 0 {
                            proof {
                                assert(self.chat_participants@ =~= prev.remove(ri as int));
                                assert forall|a: int, b: int|
                                    0 <= a < b < self.chat_participants@.len() implies
                                    self.chat_participants@[a].room
                                    != self.chat_participants@[b].room by {
                                    let a0 = if a < ri as int { a } else { a + 1 };
                                    let b0 = if b < ri as int { b } else { b + 1 };
                                    assert(self.chat_participants@[a] == prev[a0]);
                                    assert(self.chat_participants@[b] == prev[b0]);
                                }
                                assert forall|a: int|
                                    0 <= a < self.chat_participants@.len() implies ((
                                #[trigger] self.chat_participants@[a]).members@.no_duplicates()
                                    && self.chat_participants@[a].members@.len() > 0) by {
                                    let a0 = if a < ri as int { a } else { a + 1 };
                                    assert(self.chat_participants@[a] == prev[a0]);
                                }
                                self.lemma_conns_unchanged(*old(self));
                                assert(!self.has_room(chat_id)) by {
                                    if self.has_room(chat_id) {
                                        let k = self.room_idx(chat_id);
                                        let k0 = if k < ri as int { k } else { k + 1 };
                                        assert(prev[k0].room == chat_id);
                                        old(self).lemma_room_idx(chat_id, k0);
                                    }
                                }
                                assert(old(self).members(chat_id).remove(user_id) =~= Set::<
                                    u128,
                                >::empty()) by {
                                    assert(mseq.remove(mi as int).to_set() =~= Set::<
                                        u128,
                                    >::empty());
                                }
                                assert forall|r: u128| r != chat_id implies self.has_room(r)
                                    == old(self).has_room(r) && self.members(r) == old(self).members(r) by {
                                    if old(self).has_room(r) {
                                        let k0 = old(self).room_idx(r);
                                        old(self).lemma_room_idx(r, k0);
                                        let k = if k0 < ri as int { k0 } else { k0 - 1 };
                                        assert(self.chat_participants@[k] == prev[k0]);
                                        self.lemma_room_idx(r, k);
                                    }
                                    if self.has_room(r) {
                                        let k = self.room_idx(r);
                                        self.lemma_room_idx(r, k);
                                        let k0 = if k < ri as int { k } else { k + 1 };
                                        assert(prev[k0].room == r);
                                        old(self).lemma_room_idx(r, k0);
                                    }
                                }
                            }
                        } else {
                            self.chat_participants.insert(ri, entry);
                            proof {
                                assert(self.chat_participants@ =~= prev.update(
                                    ri as int,
                                    self.chat_participants@[ri as int],
                                ));
                                self.lemma_conns_unchanged(*old(self));
                                self.lemma_room_idx(chat_id, ri as int);
                                assert(self.members(chat_id) == mseq.remove(mi as int).to_set());
                                assert(!(old(self).members(chat_id).remove(user_id) =~= Set::<
                                    u128,
                                >::empty())) by {
                                    let w = self.chat_participants@[ri as int].members@[0];
                                    assert(mseq.remove(mi as int).to_set().contains(w));
                                }
                                assert forall|r: u128| r != chat_id implies self.has_room(r)
                                    == old(self).has_room(r) && self.members(r) == old(self).members(r) by {
                                    if old(self).has_room(r) {
                                        let k = old(self).room_idx(r);
                                        old(self).lemma_room_idx(r, k);
                                        self.lemma_room_idx(r, k);
                                    }
                                    if self.has_room(r) {
                                        let k = self.room_idx(r);
                                        self.lemma_room_idx(r, k);
                                        old(self).lemma_room_idx(r, k);
                                    }
                                }
                            }
                        }
                    },
                }
            },
            None => {
                proof {
                    assert(old(self).members(chat_id).remove(user_id) =~= Set::<u128>::empty());
                }
            },
        }
    }

    /// Best-effort fan-out to a room: delivers `message` through the
    /// registry to every member of `chat_id` except `exclude_user`, exactly
    /// once per member. The excluded member never receives it, members
    /// without a registered connection are skipped (not an error), and an
    /// absent room makes the whole call a no-op.
    pub fn send_to_chat(&mut self, chat_id: u128, message: Envelope, exclude_user: Option<u128>)
        requires
            old(self).wf(),
        ensures
            final(self).wf(),
            delivered_to_room(*old(self), *final(self), chat_id, message, exclude_user),
    {
        match self.find_room(chat_id) {
            Some(ri) => {
                proof {
                    old(self).lemma_room_idx(chat_id, ri as int);
                }
                let members = self.copy_members(ri);
                let mut k: usize = 0;
                while k < members.len()
                    invariant
                        old(self).wf(),
                        self.wf(),
                        k <= members@.len(),
                        members@.no_duplicates(),
                        members@.to_set() == old(self).members(chat_id),
                        same_presence(*old(self), *self),
                        same_rooms(*old(self), *self),
                        forall|u: u128|
                            old(self).is_online(u) ==> self.pending(u) == if members@.take(
                                k as int,
                            ).contains(u) && Some(u) != exclude_user {
                                push_spec(old(self).pending(u), old(self).cap_of(u), message)
                            } else {
                                old(self).pending(u)
                            },
                    decreases members@.len() - k,
                {
                    let m = members[k];
                    let excluded = match exclude_user {
                        Some(e) => e == m,
                        None => false,
                    };
                    let ghost mid = *self;
                    if !excluded {
                        self.send_to_user(m, message.clone());
                    }
                    proof {
                        assert(members@.take(k as int + 1) =~= members@.take(k as int).push(m));
                        assert(!members@.take(k as int).contains(m)) by {
                            if members@.take(k as int).contains(m) {
                                let j = choose|j: int|
                                    0 <= j < k && members@.take(k as int)[j] == m;
                                assert(members@[j] == members@[k as int]);
                            }
                        }
                        assert forall|u: u128| old(self).is_online(u) implies self.pending(u)
                            == if members@.take(k as int + 1).contains(u) && Some(u)
                            != exclude_user {
                            push_spec(old(self).pending(u), old(self).cap_of(u), message)
                        } else {
                            old(self).pending(u)
                        } by {
                            lemma_take_push_contains(members@, k as int, u);
                        }
                    }
                    k += 1;
                }
                proof {
                    assert(members@.take(members@.len() as int) =~= members@);
                }
            },
            None => {
            },
        }
    }

    fn copy_members(&self, ri: usize) -> (r: Vec<u128>)
        requires
            ri < self.chat_participants@.len(),
        ensures
            r@ == self.chat_participants@[ri as int].members@,
    {
        let mut r: Vec<u128> = Vec::new();
        let mut i: usize = 0;
        let n = self.chat_participants[ri].members.len();
        while i < n
            invariant
                ri < self.chat_participants@.len(),
                n == self.chat_participants@[ri as int].members@.len(),
                i <= n,
                r@ == self.chat_participants@[ri as int].members@.take(i as int),
            decreases n - i,
        {
            r.push(self.chat_participants[ri].members[i]);
            proof {
                assert(r@ =~= self.chat_participants@[ri as int].members@.take(i as int + 1));
            }
            i += 1;
        }
        proof {
            assert(self.chat_participants@[ri as int].members@.take(n as int)
                =~= self.chat_participants@[ri as int].members@);
        }
        r
    }
}

impl Default for ConnectionManager {
    fn default() -> (cm: ConnectionManager)
        ensures
            cm.wf(),
            forall|u: u128| !cm.is_online(u),
            forall|r: u128| !cm.has_room(r),
    {
        ConnectionManager::new()
    }
}

fn member_index(v: &Vec<u128>, u: u128) -> (r: Option<usize>)
    ensures
        match r {
            Some(i) => i < v@.len() && v@[i as int] == u,
            None => !v@.contains(u),
        },
{
    let mut i: usize = 0;
    while i < v.len()
        invariant
            i <= v@.len(),
            forall|j: int| 0 <= j < i ==> v@[j] != u,
        decreases v@.len() - i,
    {
        if v[i] == u {
            return Some(i);
        }
        i += 1;
    }
    None
}

/// Appending `u` to a sequence adds exactly `u` to the set of its elements.
pub(crate) proof fn lemma_seq_push_to_set(s: Seq<u128>, u: u128)
    ensures
        s.push(u).to_set() =~= s.to_set().insert(u),
{
    assert(s.push(u)[s.len() as int] == u);
    assert(s.push(u).contains(u));
    assert forall|x: u128| s.push(u).to_set().contains(x) == (s.to_set().contains(x) || x == u)
        by {
        if s.push(u).contains(x) && x != u {
            let j = choose|j: int| 0 <= j < s.push(u).len() && s.push(u)[j] == x;
            assert(s[j] == x);
            assert(s.contains(x));
        }
        if s.contains(x) {
            let j = choose|j: int| 0 <= j < s.len() && s[j] == x;
            assert(s.push(u)[j] == x);
            assert(s.push(u).contains(x));
        }
    }
}

/// One more element of a prefix: membership grows by exactly `s[k]`.
pub(crate) proof fn lemma_take_push_contains(s: Seq<u128>, k: int, x: u128)
    requires
        0 <= k < s.len(),
    ensures
        s.take(k + 1).contains(x) == (s.take(k).contains(x) || x == s[k]),
{
    assert(s.take(k + 1)[k] == s[k]);
    if s.take(k + 1).contains(x) {
        let j = choose|j: int| 0 <= j < k + 1 && #[trigger] s.take(k + 1)[j] == x;
        if j < k {
            assert(s.take(k)[j] == x);
        }
    }
    if s.take(k).contains(x) {
        let j = choose|j: int| 0 <= j < k && #[trigger] s.take(k)[j] == x;
        assert(s.take(k + 1)[j] == x);
    }
}

/// Removing the one occurrence of `u` from a duplicate-free sequence removes
/// exactly `u` from the set of its elements.
pub(crate) proof fn lemma_seq_remove_to_set(s: Seq<u128>, i: int, u: u128)
    requires
        s.no_duplicates(),
        0 <= i < s.len(),
        s[i] == u,
    ensures
        s.remove(i).to_set() =~= s.to_set().remove(u),
{
    let t = s.remove(i);
    assert forall|x: u128| t.to_set().contains(x) == (s.to_set().contains(x) && x != u) by {
        if t.contains(x) {
            let j = choose|j: int| 0 <= j < t.len() && t[j] == x;
            let j0 = if j < i {
                j
            } else {
                j + 1
            };
            assert(s[j0] == x);
            assert(s.to_set().contains(x));
            assert(x != u) by {
                if x == u {
                    assert(s[j0] == s[i]);
                }
            }
        }
        if s.to_set().contains(x) && x != u {
            let j0 = choose|j: int| 0 <= j < s.len() && s[j] == x;
            let j = if j0 < i {
                j0
            } else {
                j0 - 1
            };
            assert(t[j] == x);
            assert(t.to_set().contains(x));
        }
    }
}

} // verus!

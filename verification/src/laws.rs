use vstd::prelude::*;

verus! {

/// One registry mutation, as `add_connection` and `remove_connection` act
/// on the online set: each call's postcondition is exactly one
/// `apply_presence_op` step on the set of online users.
pub enum PresenceOp {
    Register(u128),
    Unregister(u128),
}

pub open spec fn apply_presence_op(s: Set<u128>, op: PresenceOp) -> Set<u128> {
    match op {
        PresenceOp::Register(u) => s.insert(u),
        PresenceOp::Unregister(u) => s.remove(u),
    }
}

/// The online set after a whole sequence of register/unregister calls,
/// applied oldest first.
pub open spec fn net_online(init: Set<u128>, ops: Seq<PresenceOp>) -> Set<u128>
    decreases ops.len(),
{
    if ops.len() == 0 {
        init
    } else {
        apply_presence_op(net_online(init, ops.drop_last()), ops.last())
    }
}

/// Whether `u` is online after the sequence, read off the sequence alone:
/// the last operation naming `u` decides, and a user no operation names
/// keeps its initial presence.
pub open spec fn net_present(present: bool, u: u128, ops: Seq<PresenceOp>) -> bool
    decreases ops.len(),
{
    if ops.len() == 0 {
        present
    } else {
        match ops.last() {
            PresenceOp::Register(v) => if v == u {
                true
            } else {
                net_present(present, u, ops.drop_last())
            },
            PresenceOp::Unregister(v) => if v == u {
                false
            } else {
                net_present(present, u, ops.drop_last())
            },
        }
    }
}

/// Law: for every sequence of register/unregister operations on any users,
/// the online snapshot reflects exactly the net effect of the sequence — a
/// user is online afterwards iff the last operation naming it was a
/// register, or nothing named it and it started online. Registering twice,
/// or unregistering a user that is absent, therefore leaves exactly what the
/// net effect says (the idempotent no-op included). `add_connection` and
/// `remove_connection` each make the online set take precisely one
/// `apply_presence_op` step, and `get_online_users` reports precisely this
/// set, so the law carries over to any call sequence on a
/// `ConnectionManager`.
pub proof fn lemma_presence_net_effect(init: Set<u128>, ops: Seq<PresenceOp>, u: u128)
    ensures
        net_online(init, ops).contains(u) == net_present(init.contains(u), u, ops),
    decreases ops.len(),
{
    if ops.len() > 0 {
        lemma_presence_net_effect(init, ops.drop_last(), u);
    }
}

/// Law: unregistering an absent user changes nothing.
pub proof fn lemma_unregister_absent_noop(s: Set<u128>, u: u128)
    requires
        !s.contains(u),
    ensures
        apply_presence_op(s, PresenceOp::Unregister(u)) =~= s,
{
}

/// Law: a join followed immediately by a leave for the same (room, user)
/// pair leaves the room absent from the index, whenever the user was the
/// room's only member or the room did not exist. `add_user_to_chat` makes
/// the member set `members.insert(user)` and `remove_user_from_chat`
/// deletes the room entry exactly when `members.remove(user)` is empty, so
/// this emptiness is precisely the room's absence afterwards. (A room that
/// already held some other member keeps its entry, which is why the
/// hypothesis is needed.)
pub proof fn lemma_join_leave_cleanup(members: Set<u128>, u: u128)
    requires
        members.subset_of(Set::empty().insert(u)),
    ensures
        members.insert(u).remove(u) =~= Set::<u128>::empty(),
{
    assert forall|x: u128| !members.insert(u).remove(u).contains(x) by {
        if members.insert(u).remove(u).contains(x) {
            assert(members.contains(x) || x == u);
            assert(Set::empty().insert(u).contains(x));
        }
    }
}

} // verus!

use vstd::prelude::*;
use crate::envelope::Envelope;
use crate::manager::{ConnectionManager, delivered_to_room, delivered_to_user};

verus! {

/// What the router decides for one inbound envelope: reply to the sender
/// alone, fan out to a room without echoing the sender, or ignore it.
#[derive(Debug, PartialEq)]
pub enum RouteOutcome {
    Reply(Envelope),
    Room { room: u128, message: Envelope },
    Ignore,
}

/// The routing table, a pure function of the sender, the inbound envelope
/// and the two server-assigned stamps:
/// a keep-alive ping earns the sender a pong; a chat message is stamped with
/// a server-assigned message id, timestamp and the sender's identity and
/// fanned out to its room without echoing the sender; typing indicators are
/// stamped with the sender's identity and fanned out the same way; any other
/// envelope received while active is ignored without an error.
pub open spec fn spec_route(
    sender: u128,
    inbound: Envelope,
    message_id: u128,
    timestamp: i64,
) -> RouteOutcome {
    match inbound {
        Envelope::Ping => RouteOutcome::Reply(Envelope::Pong),
        Envelope::ChatMessage { chat_id, content, .. } => RouteOutcome::Room {
            room: chat_id,
            message: Envelope::ChatMessage {
                chat_id,
                message_id,
                content,
                sender_id: sender,
                timestamp,
            },
        },
        Envelope::TypingStart { chat_id, .. } => RouteOutcome::Room {
            room: chat_id,
            message: Envelope::TypingStart { chat_id, user_id: sender },
        },
        Envelope::TypingStop { chat_id, .. } => RouteOutcome::Room {
            room: chat_id,
            message: Envelope::TypingStop { chat_id, user_id: sender },
        },
        _ => RouteOutcome::Ignore,
    }
}

/// Decides destination and outbound envelope for one inbound envelope.
/// Pure: it owns no state, never touches storage, and is exactly
/// `spec_route` on its arguments.
pub fn route(sender: u128, inbound: Envelope, message_id: u128, timestamp: i64) -> (r:
    RouteOutcome)
    ensures
        r == spec_route(sender, inbound, message_id, timestamp),
{
    match inbound {
        Envelope::Ping => RouteOutcome::Reply(Envelope::Pong),
        Envelope::ChatMessage { chat_id, content, .. } => RouteOutcome::Room {
            room: chat_id,
            message: Envelope::ChatMessage {
                chat_id,
                message_id,
                content,
                sender_id: sender,
                timestamp,
            },
        },
        Envelope::TypingStart { chat_id, .. } => RouteOutcome::Room {
            room: chat_id,
            message: Envelope::TypingStart { chat_id, user_id: sender },
        },
        Envelope::TypingStop { chat_id, .. } => RouteOutcome::Room {
            room: chat_id,
            message: Envelope::TypingStop { chat_id, user_id: sender },
        },
        _ => RouteOutcome::Ignore,
    }
}

/// The whole effect of handling one inbound envelope on the shared state,
/// as a relation between the state before and after: the router's decision
/// for `(sender, inbound)` under stamps `(message_id, timestamp)` was
/// delivered, a reply going to the sender alone and a room message going to
/// every room member except the sender.
pub open spec fn routed(
    pre: ConnectionManager,
    post: ConnectionManager,
    sender: u128,
    inbound: Envelope,
    message_id: u128,
    timestamp: i64,
) -> bool {
    match spec_route(sender, inbound, message_id, timestamp) {
        RouteOutcome::Reply(msg) => delivered_to_user(pre, post, sender, msg),
        RouteOutcome::Room { room, message } => delivered_to_room(
            pre,
            post,
            room,
            message,
            Some(sender),
        ),
        RouteOutcome::Ignore => post == pre,
    }
}

/// Relies on `uuid::Uuid::new_v4` for a freshly generated random message
/// identifier, carried as its 128-bit value. Nothing is promised of the
/// value: callers state what holds whatever identifier came back.
#[verifier::external_body]
fn fresh_message_id() -> u128 {
    uuid::Uuid::new_v4().as_u128()
}

/// Relies on `chrono::Utc::now` for the current wall-clock time in unix
/// milliseconds. Nothing is promised of the value: callers state what holds
/// whatever instant came back.
#[verifier::external_body]
fn now_millis() -> i64 {
    chrono::Utc::now().timestamp_millis()
}

/// Routes one inbound envelope under caller-supplied stamps and delivers
/// the decision through the registry and the room index.
pub fn handle_incoming_at(
    cm: &mut ConnectionManager,
    sender: u128,
    inbound: Envelope,
    message_id: u128,
    timestamp: i64,
)
    requires
        old(cm).wf(),
    ensures
        final(cm).wf(),
        routed(*old(cm), *final(cm), sender, inbound, message_id, timestamp),
{
    match route(sender, inbound, message_id, timestamp) {
        RouteOutcome::Reply(msg) => {
            cm.send_to_user(sender, msg);
        },
        RouteOutcome::Room { room, message } => {
            cm.send_to_chat(room, message, Some(sender));
        },
        RouteOutcome::Ignore => {
        },
    }
}

/// Handles one well-formed inbound envelope from `sender` while its session
/// is active: stamps a fresh server-assigned message identifier and
/// timestamp, then routes and delivers. The stamps come from the clock and
/// the random generator, so the contract holds for some pair of them.
pub fn handle_incoming(cm: &mut ConnectionManager, sender: u128, inbound: Envelope)
    requires
        old(cm).wf(),
    ensures
        final(cm).wf(),
        exists|mid: u128, ts: i64|
            #[trigger] routed(*old(cm), *final(cm), sender, inbound, mid, ts),
{
    let mid = fresh_message_id();
    let ts = now_millis();
    handle_incoming_at(cm, sender, inbound, mid, ts);
    proof {
        assert(routed(*old(cm), *cm, sender, inbound, mid, ts));
    }
}

} // verus!

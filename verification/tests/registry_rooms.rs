use realtime_core::envelope::Envelope;
use realtime_core::manager::ConnectionManager;
use realtime_core::queue::OutboundQueue;

const ALICE: u128 = 0xa11ce;
const BOB: u128 = 0xb0b;
const CAROL: u128 = 0xca401;
const ROOM: u128 = 0x4001;

fn drain(cm: &mut ConnectionManager, user: u128) -> Vec<Envelope> {
    let mut out = Vec::new();
    while let Some(e) = cm.pop_outbound(user) {
        out.push(e);
    }
    out
}

fn chat(text: &str) -> Envelope {
    Envelope::ChatMessage {
        chat_id: ROOM,
        message_id: 7,
        content: text.to_string(),
        sender_id: ALICE,
        timestamp: 1000,
    }
}

#[test]
fn online_users_reflects_net_effect_of_register_unregister() {
    let mut cm = ConnectionManager::new();
    assert!(cm.get_online_users().is_empty());

    cm.add_connection(ALICE, OutboundQueue::new(8));
    cm.add_connection(BOB, OutboundQueue::new(8));
    let mut online = cm.get_online_users();
    online.sort();
    assert_eq!(online, vec![BOB, ALICE]);

    cm.remove_connection(ALICE);
    assert_eq!(cm.get_online_users(), vec![BOB]);

    // unregistering an absent user is an idempotent no-op
    cm.remove_connection(CAROL);
    cm.remove_connection(ALICE);
    assert_eq!(cm.get_online_users(), vec![BOB]);

    cm.remove_connection(BOB);
    assert!(cm.get_online_users().is_empty());
}

#[test]
fn register_broadcasts_online_and_unregister_broadcasts_offline() {
    let mut cm = ConnectionManager::new();
    cm.add_connection(ALICE, OutboundQueue::new(8));
    // the new user's own channel got the broadcast too
    assert_eq!(drain(&mut cm, ALICE), vec![Envelope::UserOnline { user_id: ALICE }]);

    cm.add_connection(BOB, OutboundQueue::new(8));
    assert_eq!(drain(&mut cm, ALICE), vec![Envelope::UserOnline { user_id: BOB }]);

    cm.remove_connection(BOB);
    assert_eq!(drain(&mut cm, ALICE), vec![Envelope::UserOffline { user_id: BOB }]);
}

#[test]
fn reconnect_replaces_entry_keeping_one_registration() {
    let mut cm = ConnectionManager::new();
    cm.add_connection(ALICE, OutboundQueue::new(8));
    // the first channel has the online broadcast queued; a reconnect drops
    // that channel entirely
    cm.add_connection(ALICE, OutboundQueue::new(8));
    assert_eq!(cm.get_online_users(), vec![ALICE]);

    // deliveries go to the replacement channel only, starting from its own
    // registration broadcast
    cm.send_to_user(ALICE, chat("after reconnect"));
    let delivered = drain(&mut cm, ALICE);
    assert_eq!(
        delivered,
        vec![Envelope::UserOnline { user_id: ALICE }, chat("after reconnect")]
    );
}

#[test]
fn send_to_absent_user_is_dropped_silently() {
    let mut cm = ConnectionManager::new();
    cm.add_connection(ALICE, OutboundQueue::new(8));
    drain(&mut cm, ALICE);
    cm.send_to_user(BOB, chat("nobody home"));
    assert!(drain(&mut cm, ALICE).is_empty());
    assert!(cm.pop_outbound(BOB).is_none());
}

#[test]
fn join_then_leave_deletes_empty_room() {
    let mut cm = ConnectionManager::new();
    cm.add_user_to_chat(ROOM, ALICE);
    cm.remove_user_from_chat(ROOM, ALICE);
    // the room is gone: a room send afterwards delivers nothing
    cm.add_connection(ALICE, OutboundQueue::new(8));
    drain(&mut cm, ALICE);
    cm.send_to_chat(ROOM, chat("into the void"), None);
    assert!(drain(&mut cm, ALICE).is_empty());
}

#[test]
fn room_with_remaining_member_survives_leave() {
    let mut cm = ConnectionManager::new();
    cm.add_user_to_chat(ROOM, ALICE);
    cm.add_user_to_chat(ROOM, BOB);
    cm.remove_user_from_chat(ROOM, ALICE);
    cm.add_connection(BOB, OutboundQueue::new(8));
    drain(&mut cm, BOB);
    cm.send_to_chat(ROOM, chat("still here"), None);
    assert_eq!(drain(&mut cm, BOB), vec![chat("still here")]);
}

#[test]
fn duplicate_join_is_a_noop() {
    let mut cm = ConnectionManager::new();
    cm.add_user_to_chat(ROOM, ALICE);
    cm.add_user_to_chat(ROOM, ALICE);
    cm.add_connection(ALICE, OutboundQueue::new(8));
    drain(&mut cm, ALICE);
    // were ALICE listed twice, this send would deliver twice
    cm.send_to_chat(ROOM, chat("once"), None);
    assert_eq!(drain(&mut cm, ALICE), vec![chat("once")]);
    // and the single leave still empties the room
    cm.remove_user_from_chat(ROOM, ALICE);
    cm.send_to_chat(ROOM, chat("gone"), None);
    assert!(drain(&mut cm, ALICE).is_empty());
}

#[test]
fn send_to_chat_excludes_the_sender_and_reaches_everyone_else_once() {
    let mut cm = ConnectionManager::new();
    for u in [ALICE, BOB, CAROL] {
        cm.add_connection(u, OutboundQueue::new(16));
        cm.add_user_to_chat(ROOM, u);
    }
    for u in [ALICE, BOB, CAROL] {
        drain(&mut cm, u);
    }
    cm.send_to_chat(ROOM, chat("hello room"), Some(ALICE));
    assert!(drain(&mut cm, ALICE).is_empty());
    assert_eq!(drain(&mut cm, BOB), vec![chat("hello room")]);
    assert_eq!(drain(&mut cm, CAROL), vec![chat("hello room")]);
}

#[test]
fn send_to_chat_skips_offline_members_without_error() {
    let mut cm = ConnectionManager::new();
    cm.add_connection(BOB, OutboundQueue::new(8));
    cm.add_user_to_chat(ROOM, ALICE);  // member but not registered
    cm.add_user_to_chat(ROOM, BOB);
    drain(&mut cm, BOB);
    cm.send_to_chat(ROOM, chat("partial audience"), None);
    assert_eq!(drain(&mut cm, BOB), vec![chat("partial audience")]);
    assert!(cm.pop_outbound(ALICE).is_none());
}

#[test]
fn bounded_queue_drops_the_newest_beyond_capacity() {
    let capacity = 3;
    let mut q = OutboundQueue::new(capacity);
    for i in 0..(capacity as u32 + 1) {
        q.push(Envelope::ChatMessage {
            chat_id: ROOM,
            message_id: i as u128,
            content: format!("message {}", i),
            sender_id: ALICE,
            timestamp: i as i64,
        });
    }
    // the consumer resumes: exactly `capacity` messages, the oldest ones,
    // in FIFO order; the one past capacity was shed
    assert_eq!(q.len(), capacity);
    for i in 0..capacity as u32 {
        let e = q.pop().expect("queued message");
        match e {
            Envelope::ChatMessage { message_id, .. } => assert_eq!(message_id, i as u128),
            other => panic!("unexpected envelope {:?}", other),
        }
    }
    assert!(q.pop().is_none());
}

#[test]
fn stalled_consumer_sheds_newest_through_the_registry() {
    let capacity = 4;
    let mut cm = ConnectionManager::new();
    cm.add_connection(ALICE, OutboundQueue::new(capacity));
    // the registration broadcast already queued one envelope
    for i in 0..capacity as u32 {
        cm.send_to_user(ALICE, chat(&format!("burst {}", i)));
    }
    let delivered = drain(&mut cm, ALICE);
    assert_eq!(delivered.len(), capacity);
    assert_eq!(delivered[0], Envelope::UserOnline { user_id: ALICE });
    assert_eq!(delivered[1], chat("burst 0"));
    assert_eq!(delivered[2], chat("burst 1"));
    assert_eq!(delivered[3], chat("burst 2"));
    // "burst 3" exceeded the bound and was shed without blocking the sender
}

#[test]
fn broadcast_reaches_every_registered_channel() {
    let mut cm = ConnectionManager::new();
    cm.add_connection(ALICE, OutboundQueue::new(8));
    cm.add_connection(BOB, OutboundQueue::new(8));
    drain(&mut cm, ALICE);
    drain(&mut cm, BOB);
    cm.broadcast_to_all(chat("to all"));
    assert_eq!(drain(&mut cm, ALICE), vec![chat("to all")]);
    assert_eq!(drain(&mut cm, BOB), vec![chat("to all")]);
}

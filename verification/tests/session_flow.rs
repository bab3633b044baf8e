use realtime_core::auth::verify_credential;
use realtime_core::envelope::{Envelope, Frame};
use realtime_core::manager::ConnectionManager;
use realtime_core::queue::OutboundQueue;
use realtime_core::router::{route, RouteOutcome};
use realtime_core::session::{
    auth_credential, AuthError, AuthFrame, Session, SessionState, OUTBOUND_QUEUE_CAPACITY,
};

const ALICE: u128 = 0xa11ce;
const BOB: u128 = 0xb0b;
const ROOM: u128 = 0x4001;

fn drain(cm: &mut ConnectionManager, user: u128) -> Vec<Envelope> {
    let mut out = Vec::new();
    while let Some(e) = cm.pop_outbound(user) {
        out.push(e);
    }
    out
}

fn active_session(cm: &mut ConnectionManager, user: u128) -> Session {
    let mut s = Session::new();
    s.begin_authentication();
    let r = s.complete_authentication(cm, Ok(user), OutboundQueue::new(OUTBOUND_QUEUE_CAPACITY));
    assert!(r.is_none());
    assert_eq!(s.state, SessionState::Active);
    s
}

#[test]
fn successful_authentication_registers_and_welcomes() {
    let mut cm = ConnectionManager::new();
    let s = active_session(&mut cm, ALICE);
    assert_eq!(s.user, Some(ALICE));
    assert_eq!(cm.get_online_users(), vec![ALICE]);
    let delivered = drain(&mut cm, ALICE);
    assert_eq!(
        delivered,
        vec![
            Envelope::UserOnline { user_id: ALICE },
            Envelope::Success { message: "Connected successfully".to_string() },
        ]
    );
}

#[test]
fn invalid_credential_closes_session_and_registers_nothing() {
    // the authentication frame carries a string that is no token at all
    let credential = match auth_credential(Some(AuthFrame::Token("garbage-token".to_string()))) {
        Ok(c) => c,
        Err(_) => panic!("a token-bearing frame must yield its credential"),
    };
    let verdict = verify_credential(b"unit-test-secret", &credential);
    assert_eq!(verdict, Err(AuthError::Rejected));

    let mut cm = ConnectionManager::new();
    let mut s = Session::new();
    s.begin_authentication();
    let err = s.complete_authentication(&mut cm, verdict, OutboundQueue::new(4));
    assert_eq!(s.state, SessionState::Closing);
    match err {
        Some(Envelope::Error { message, code }) => {
            assert_eq!(message, "Invalid or expired token");
            assert_eq!(code, Some("AUTH_FAILED".to_string()));
        },
        other => panic!("expected an error envelope, got {:?}", other),
    }
    // zero entries in the registry for that connection
    assert!(cm.get_online_users().is_empty());
    s.cleanup(&mut cm);
    assert_eq!(s.state, SessionState::Closed);
    assert!(cm.get_online_users().is_empty());
}

#[test]
fn missing_or_non_text_auth_frames_each_fail_their_own_way() {
    assert_eq!(auth_credential(None), Err(AuthError::NoMessage));
    assert_eq!(auth_credential(Some(AuthFrame::NonText)), Err(AuthError::NotText));
    assert_eq!(auth_credential(Some(AuthFrame::Malformed)), Err(AuthError::Malformed));
    assert_eq!(
        auth_credential(Some(AuthFrame::Token("tok".to_string()))),
        Ok("tok".to_string())
    );
}

#[test]
fn chat_message_reaches_roommate_stamped_and_never_echoes() {
    let mut cm = ConnectionManager::new();
    let mut alice = active_session(&mut cm, ALICE);
    let mut bob = active_session(&mut cm, BOB);
    alice.join_room(&mut cm, ROOM);
    bob.join_room(&mut cm, ROOM);
    drain(&mut cm, ALICE);
    drain(&mut cm, BOB);

    // the inbound envelope's own id, sender and timestamp are untrusted
    // and get re-stamped by the server
    alice.on_frame(
        &mut cm,
        Frame::Text(Some(Envelope::ChatMessage {
            chat_id: ROOM,
            message_id: 0,
            content: "hi".to_string(),
            sender_id: BOB,
            timestamp: -5,
        })),
    );

    let to_bob = drain(&mut cm, BOB);
    assert_eq!(to_bob.len(), 1);
    match &to_bob[0] {
        Envelope::ChatMessage { chat_id, message_id, content, sender_id, timestamp } => {
            assert_eq!(*chat_id, ROOM);
            assert_eq!(content, "hi");
            assert_eq!(*sender_id, ALICE);
            assert_ne!(*message_id, 0, "server-assigned message id");
            assert!(*timestamp > 0, "server-assigned timestamp");
        },
        other => panic!("expected a chat message, got {:?}", other),
    }
    // self-exclusion: the sender receives nothing from its own send
    assert!(drain(&mut cm, ALICE).is_empty());
}

#[test]
fn ping_envelope_yields_exactly_one_pong_to_the_sender() {
    let mut cm = ConnectionManager::new();
    let mut alice = active_session(&mut cm, ALICE);
    let _bob = active_session(&mut cm, BOB);
    drain(&mut cm, ALICE);
    drain(&mut cm, BOB);

    alice.on_frame(&mut cm, Frame::Text(Some(Envelope::Ping)));
    assert_eq!(alice.state, SessionState::Active);
    assert_eq!(drain(&mut cm, ALICE), vec![Envelope::Pong]);
    assert!(drain(&mut cm, BOB).is_empty(), "no broadcast to anyone else");
}

#[test]
fn transport_ping_frame_also_earns_a_pong() {
    let mut cm = ConnectionManager::new();
    let mut alice = active_session(&mut cm, ALICE);
    drain(&mut cm, ALICE);
    alice.on_frame(&mut cm, Frame::Ping);
    assert_eq!(drain(&mut cm, ALICE), vec![Envelope::Pong]);
}

#[test]
fn malformed_and_unknown_payloads_are_ignored_and_session_stays_active() {
    let mut cm = ConnectionManager::new();
    let mut alice = active_session(&mut cm, ALICE);
    let mut bob = active_session(&mut cm, BOB);
    alice.join_room(&mut cm, ROOM);
    bob.join_room(&mut cm, ROOM);
    drain(&mut cm, ALICE);
    drain(&mut cm, BOB);

    alice.on_frame(&mut cm, Frame::Text(None));  // malformed or unknown tag
    alice.on_frame(&mut cm, Frame::Binary);
    alice.on_frame(&mut cm, Frame::Pong);
    // a variant the router has no rule for is dropped without an error
    alice.on_frame(
        &mut cm,
        Frame::Text(Some(Envelope::Success { message: "not yours to send".to_string() })),
    );
    assert_eq!(alice.state, SessionState::Active);
    assert!(drain(&mut cm, ALICE).is_empty());
    assert!(drain(&mut cm, BOB).is_empty());
}

#[test]
fn typing_indicators_fan_out_stamped_with_the_sender() {
    let mut cm = ConnectionManager::new();
    let mut alice = active_session(&mut cm, ALICE);
    let mut bob = active_session(&mut cm, BOB);
    alice.join_room(&mut cm, ROOM);
    bob.join_room(&mut cm, ROOM);
    drain(&mut cm, ALICE);
    drain(&mut cm, BOB);

    alice.on_frame(
        &mut cm,
        Frame::Text(Some(Envelope::TypingStart { chat_id: ROOM, user_id: BOB })),
    );
    alice.on_frame(
        &mut cm,
        Frame::Text(Some(Envelope::TypingStop { chat_id: ROOM, user_id: BOB })),
    );
    assert_eq!(
        drain(&mut cm, BOB),
        vec![
            Envelope::TypingStart { chat_id: ROOM, user_id: ALICE },
            Envelope::TypingStop { chat_id: ROOM, user_id: ALICE },
        ]
    );
    assert!(drain(&mut cm, ALICE).is_empty());
}

#[test]
fn close_frame_begins_teardown_and_cleanup_runs_once() {
    let mut cm = ConnectionManager::new();
    let mut alice = active_session(&mut cm, ALICE);
    let mut bob = active_session(&mut cm, BOB);
    alice.join_room(&mut cm, ROOM);
    bob.join_room(&mut cm, ROOM);

    alice.on_frame(&mut cm, Frame::Close);
    assert_eq!(alice.state, SessionState::Closing);
    // both pumps observing the cancellation is idempotent
    alice.on_pump_exit();
    assert_eq!(alice.state, SessionState::Closing);

    alice.cleanup(&mut cm);
    assert_eq!(alice.state, SessionState::Closed);
    assert_eq!(cm.get_online_users(), vec![BOB]);

    // the room no longer fans out to the departed member
    drain(&mut cm, BOB);
    bob.on_frame(
        &mut cm,
        Frame::Text(Some(Envelope::ChatMessage {
            chat_id: ROOM,
            message_id: 0,
            content: "anyone?".to_string(),
            sender_id: BOB,
            timestamp: 0,
        })),
    );
    assert!(cm.pop_outbound(ALICE).is_none());

    // running teardown again changes nothing
    alice.cleanup(&mut cm);
    assert_eq!(alice.state, SessionState::Closed);
    assert_eq!(cm.get_online_users(), vec![BOB]);
}

#[test]
fn cleanup_empties_rooms_left_behind() {
    let mut cm = ConnectionManager::new();
    let mut alice = active_session(&mut cm, ALICE);
    alice.join_room(&mut cm, ROOM);
    alice.on_transport_error();
    alice.cleanup(&mut cm);
    // sole member left: the room entry is gone, a later send is a no-op
    let mut bob = active_session(&mut cm, BOB);
    drain(&mut cm, BOB);
    bob.on_frame(
        &mut cm,
        Frame::Text(Some(Envelope::TypingStart { chat_id: ROOM, user_id: BOB })),
    );
    assert!(cm.pop_outbound(ALICE).is_none());
    assert!(drain(&mut cm, BOB).is_empty());
}

#[test]
fn router_table_matches_the_specified_rules() {
    let pong = route(ALICE, Envelope::Ping, 9, 99);
    match pong {
        RouteOutcome::Reply(Envelope::Pong) => {},
        other => panic!("ping must earn a pong, got {:?}", other),
    }

    let stamped = route(
        ALICE,
        Envelope::ChatMessage {
            chat_id: ROOM,
            message_id: 1,
            content: "text".to_string(),
            sender_id: BOB,
            timestamp: 5,
        },
        42,
        4242,
    );
    match stamped {
        RouteOutcome::Room { room, message } => {
            assert_eq!(room, ROOM);
            assert_eq!(
                message,
                Envelope::ChatMessage {
                    chat_id: ROOM,
                    message_id: 42,
                    content: "text".to_string(),
                    sender_id: ALICE,
                    timestamp: 4242,
                }
            );
        },
        other => panic!("chat messages go to the room, got {:?}", other),
    }

    match route(ALICE, Envelope::Pong, 1, 1) {
        RouteOutcome::Ignore => {},
        other => panic!("a stray pong is ignored, got {:?}", other),
    }
    match route(
        ALICE,
        Envelope::UserOnline { user_id: BOB },
        1,
        1,
    ) {
        RouteOutcome::Ignore => {},
        other => panic!("presence envelopes are not client traffic, got {:?}", other),
    }
}

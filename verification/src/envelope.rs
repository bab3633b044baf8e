use vstd::prelude::*;

verus! {

/// A tagged, immutable message unit exchanged between the router and
/// connections.
///
/// User, room and message identifiers are the 128-bit value of the peer's
/// UUID; timestamps are unix time in milliseconds.
#[derive(Debug, PartialEq)]
pub enum Envelope {
    Ping,
    Pong,
    ChatMessage {
        chat_id: u128,
        message_id: u128,
        content: String,
        sender_id: u128,
        timestamp: i64,
    },
    TypingStart { chat_id: u128, user_id: u128 },
    TypingStop { chat_id: u128, user_id: u128 },
    Notification {
        id: u128,
        title: String,
        message: String,
        notification_type: String,
        timestamp: i64,
    },
    UserOnline { user_id: u128 },
    UserOffline { user_id: u128 },
    Error { message: String, code: Option<String> },
    Success { message: String },
}

impl Clone for Envelope {
    fn clone(&self) -> (r: Envelope)
        ensures
            r == *self,
    {
        match self {
            Envelope::Ping => Envelope::Ping,
            Envelope::Pong => Envelope::Pong,
            Envelope::ChatMessage { chat_id, message_id, content, sender_id, timestamp } => {
                Envelope::ChatMessage {
                    chat_id: *chat_id,
                    message_id: *message_id,
                    content: content.clone(),
                    sender_id: *sender_id,
                    timestamp: *timestamp,
                }
            },
            Envelope::TypingStart { chat_id, user_id } => {
                Envelope::TypingStart { chat_id: *chat_id, user_id: *user_id }
            },
            Envelope::TypingStop { chat_id, user_id } => {
                Envelope::TypingStop { chat_id: *chat_id, user_id: *user_id }
            },
            Envelope::Notification { id, title, message, notification_type, timestamp } => {
                Envelope::Notification {
                    id: *id,
                    title: title.clone(),
                    message: message.clone(),
                    notification_type: notification_type.clone(),
                    timestamp: *timestamp,
                }
            },
            Envelope::UserOnline { user_id } => Envelope::UserOnline { user_id: *user_id },
            Envelope::UserOffline { user_id } => Envelope::UserOffline { user_id: *user_id },
            Envelope::Error { message, code } => {
                Envelope::Error {
                    message: message.clone(),
                    code: match code {
                        Some(c) => Some(c.clone()),
                        None => None,
                    },
                }
            },
            Envelope::Success { message } => Envelope::Success { message: message.clone() },
        }
    }
}

/// One discrete unit read from the transport while a session is active: a
/// text payload (already decoded, `None` when it was malformed or carried an
/// unknown tag), a binary payload, or a control signal.
#[derive(Debug, PartialEq)]
pub enum Frame {
    Text(Option<Envelope>),
    Binary,
    Close,
    Ping,
    Pong,
}

} // verus!

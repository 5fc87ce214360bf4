//! Signaling messages and what goes with them.

use vstd::prelude::*;

verus! {

/// Why a join was turned down.
#[derive(Clone, Copy, PartialEq, Eq, Debug, Structural)]
pub enum JoinRejectionReason {
    InviteInvalid,
    InviteRevoked,
    InviteExpired,
    InviteExhausted,
    RateLimited,
}

/// The role of someone in a room.
#[derive(Clone, Copy, PartialEq, Eq, Debug, Structural)]
pub enum ParticipantRole {
    Host,
    Guest,
}

/// A chat message.
#[derive(Debug)]
pub struct ChatMessagePayload {
    pub participant_id: String,
    pub display_name: String,
    pub text: String,
    pub timestamp: String,
    pub message_id: Option<String>,
}

/// A chat message of the past.
#[derive(Debug)]
pub struct ChatHistoryMessagePayload {
    pub message_id: String,
    pub participant_id: String,
    pub display_name: String,
    pub text: String,
    pub timestamp: String,
}

/// The chat messages of the past.
#[derive(Debug)]
pub struct ChatHistoryResponsePayload {
    pub messages: Vec<ChatHistoryMessagePayload>,
}

/// A message to a peer.
#[derive(Debug)]
pub enum SignalingMessage {
    ChatMessage(ChatMessagePayload),
    ChatHistoryResponse(ChatHistoryResponsePayload),
    PeerLeft,
}

/// Who gets a message.
#[derive(Clone, Copy, PartialEq, Eq, Debug, Structural)]
pub enum SignalTarget {
    BroadcastAll,
}

/// A message and who gets it.
#[derive(Debug)]
pub struct OutboundSignal {
    pub target: SignalTarget,
    pub msg: SignalingMessage,
}

} // verus!

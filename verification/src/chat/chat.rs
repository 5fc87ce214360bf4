//! Chat messages on their way to the members of a room.

use crate::calendar;
use crate::calendar::UtcTime;
use crate::ids;
use crate::ids::Uuid;
use crate::signaling::ChatHistoryMessagePayload;
use crate::signaling::ChatHistoryResponsePayload;
use crate::signaling::ChatMessagePayload;
use crate::signaling::OutboundSignal;
use crate::signaling::SignalTarget;
use crate::signaling::SignalingMessage;
use vstd::prelude::*;

verus! {

/// A message as it is stored.
#[derive(Debug)]
pub struct ChatMessageRow {
    pub message_id: Uuid,
    pub participant_id: String,
    pub display_name: String,
    pub text: String,
    pub created_at: UtcTime,
}

/// That the message carries these texts.
pub open spec fn carries(
    msg: SignalingMessage,
    text: Seq<char>,
    participant_id: Seq<char>,
    display_name: Seq<char>,
    timestamp: Seq<char>,
    message_id: Seq<char>,
) -> bool {
    &&& msg matches SignalingMessage::ChatMessage(p)
    &&& p.text@ == text
    &&& p.participant_id@ == participant_id
    &&& p.display_name@ == display_name
    &&& p.timestamp@ == timestamp
    &&& p.message_id is Some
    &&& p.message_id->0@ == message_id
}

/// What a message in the chat leads to: one message to everyone in the room.
/// Whether the display name is empty is not looked at.
pub fn handle_chat_send(
    text: &str,
    participant_id: &str,
    display_name: &str,
    timestamp: &str,
    message_id: &str,
) -> (signals: Vec<OutboundSignal>)
    ensures
        signals@.len() == 1,
        signals@[0].target == SignalTarget::BroadcastAll,
        carries(
            signals@[0].msg,
            text@,
            participant_id@,
            display_name@,
            timestamp@,
            message_id@,
        ),
{
    let msg = SignalingMessage::ChatMessage(
        ChatMessagePayload {
            participant_id: participant_id.to_owned(),
            display_name: display_name.to_owned(),
            text: text.to_owned(),
            timestamp: timestamp.to_owned(),
            message_id: Some(message_id.to_owned()),
        },
    );
    let mut signals: Vec<OutboundSignal> = Vec::new();
    signals.push(OutboundSignal { target: SignalTarget::BroadcastAll, msg });
    signals
}

/// That a message of the history is a stored one.
pub open spec fn tells(row: ChatMessageRow, p: ChatHistoryMessagePayload) -> bool {
    &&& p.message_id@ == ids::uuid_text(row.message_id.value)
    &&& p.participant_id == row.participant_id
    &&& p.display_name == row.display_name
    &&& p.text == row.text
    &&& p.timestamp@ == calendar::rfc3339_text(row.created_at@)
}

/// The history as a message: the stored messages, in their order.
pub fn build_history_response(rows: Vec<ChatMessageRow>) -> (msg: SignalingMessage)
    ensures
        msg is ChatHistoryResponse,
        msg->ChatHistoryResponse_0.messages@.len() == rows@.len(),
        forall|i: int|
            0 <= i < rows@.len() ==> tells(
                rows@[i],
                #[trigger] msg->ChatHistoryResponse_0.messages@[i],
            ),
{
    let ghost all = rows@;
    let mut rest = rows;
    let n: usize = rest.len();
    let mut messages: Vec<ChatHistoryMessagePayload> = Vec::new();
    let mut i: usize = 0;
    while i < n
        invariant
            i <= n,
            n == all.len(),
            rest@ == all.skip(i as int),
            messages@.len() == i,
            forall|j: int| 0 <= j < i ==> tells(all[j], #[trigger] messages@[j]),
        decreases n - i,
    {
        let row = rest.remove(0);
        proof {
            assert(row == all[i as int]);
            assert(rest@ =~= all.skip(i as int + 1));
        }
        messages.push(
            ChatHistoryMessagePayload {
                message_id: row.message_id.text(),
                participant_id: row.participant_id,
                display_name: row.display_name,
                text: row.text,
                timestamp: row.created_at.rfc3339(),
            },
        );
        i = i + 1;
    }
    SignalingMessage::ChatHistoryResponse(ChatHistoryResponsePayload { messages })
}

/// What is sent to a chat reaches everyone in the room once, as it was sent: the
/// text as the text, under the name and the participant that sent it.
pub proof fn law_messages_reach_everyone_as_sent(
    text: &str,
    participant_id: &str,
    display_name: &str,
    timestamp: &str,
    message_id: &str,
    signals: Vec<OutboundSignal>,
)
    requires
        call_ensures(
            handle_chat_send,
            (text, participant_id, display_name, timestamp, message_id),
            signals,
        ),
    ensures
        signals@.len() == 1,
        signals@[0].target == SignalTarget::BroadcastAll,
        signals@[0].msg is ChatMessage,
        ({
            let p = signals@[0].msg->ChatMessage_0;
            &&& p.text@ == text@
            &&& p.participant_id@ == participant_id@
            &&& p.display_name@ == display_name@
            &&& p.timestamp@ == timestamp@
            &&& p.message_id is Some && p.message_id->0@ == message_id@
        }),
{
}

/// The history holds every stored message once, in the stored order, with its own
/// text, sender and time.
pub proof fn law_history_leaves_nothing_out(
    rows: Vec<ChatMessageRow>,
    msg: SignalingMessage,
    i: int,
)
    requires
        call_ensures(build_history_response, (rows,), msg),
        0 <= i < rows@.len(),
    ensures
        msg is ChatHistoryResponse,
        msg->ChatHistoryResponse_0.messages@.len() == rows@.len(),
        ({
            let p = msg->ChatHistoryResponse_0.messages@[i];
            &&& p.message_id@ == ids::uuid_text(rows@[i].message_id.value)
            &&& p.text@ == rows@[i].text@
            &&& p.participant_id@ == rows@[i].participant_id@
            &&& p.display_name@ == rows@[i].display_name@
            &&& p.timestamp@ == calendar::rfc3339_text(rows@[i].created_at@)
        }),
{
    assert(tells(rows@[i], msg->ChatHistoryResponse_0.messages@[i]));
}

} // verus!

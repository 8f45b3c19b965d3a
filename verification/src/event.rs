//! The event vocabulary: `CoreEvent` on the application bus, `ApiEvent`
//! from the Telegram update stream, and what a desktop notification shows.
//!
//! Events are facts, not commands: they describe something that already
//! happened and was already persisted.

use vstd::prelude::*;

use crate::model::{AccountId, Chat, ChatId, LoginStage, Message, MessageId, Presence, SyncState, TransferProgress, UserId};

verus! {

/// Everything that can happen in the core.
#[allow(inconsistent_fields)]
#[derive(Debug, PartialEq, Eq)]
pub enum CoreEvent {
    /// A message was inserted (received, sent locally, or backfilled).
    MessageAdded { message: Message },
    /// An existing message changed (edit, reaction change, send-state change).
    MessageUpdated { message: Message },
    MessageDeleted { account_id: AccountId, chat_id: ChatId, message_ids: Vec<MessageId> },
    /// Chat metadata changed (title, unread count, pin, last-message preview).
    ChatUpdated { chat: Chat },
    /// A user is typing in a chat. Transient.
    Typing { account_id: AccountId, chat_id: ChatId, user_id: UserId },
    PresenceChanged { account_id: AccountId, user_id: UserId, presence: Presence },
    TransferProgress { account_id: AccountId, progress: TransferProgress },
    SyncStateChanged { account_id: AccountId, state: SyncState },
    /// Progress of an interactive login; `account_id` is unknown until the
    /// login completes.
    Login { account_id: Option<AccountId>, stage: LoginStage },
    /// The account's session became invalid (revoked from another device).
    LoggedOut { account_id: AccountId },
}

/// The account an event belongs to, when it is account-scoped.
pub open spec fn event_account(event: CoreEvent) -> Option<AccountId> {
    match event {
        CoreEvent::MessageAdded { message } => Some(message.account_id),
        CoreEvent::MessageUpdated { message } => Some(message.account_id),
        CoreEvent::MessageDeleted { account_id, .. } => Some(account_id),
        CoreEvent::ChatUpdated { chat } => Some(chat.account_id),
        CoreEvent::Typing { account_id, .. } => Some(account_id),
        CoreEvent::PresenceChanged { account_id, .. } => Some(account_id),
        CoreEvent::TransferProgress { account_id, .. } => Some(account_id),
        CoreEvent::SyncStateChanged { account_id, .. } => Some(account_id),
        CoreEvent::Login { account_id, .. } => account_id,
        CoreEvent::LoggedOut { account_id } => Some(account_id),
    }
}

impl CoreEvent {
    /// The account this event belongs to, when it is account-scoped.
    pub fn account_id(&self) -> (r: Option<AccountId>)
        ensures
            r == event_account(*self),
    {
        match self {
            CoreEvent::MessageAdded { message } => Some(message.account_id),
            CoreEvent::MessageUpdated { message } => Some(message.account_id),
            CoreEvent::MessageDeleted { account_id, .. } => Some(*account_id),
            CoreEvent::ChatUpdated { chat } => Some(chat.account_id),
            CoreEvent::Typing { account_id, .. } => Some(*account_id),
            CoreEvent::PresenceChanged { account_id, .. } => Some(*account_id),
            CoreEvent::TransferProgress { account_id, .. } => Some(*account_id),
            CoreEvent::SyncStateChanged { account_id, .. } => Some(*account_id),
            CoreEvent::Login { account_id, .. } => *account_id,
            CoreEvent::LoggedOut { account_id } => Some(*account_id),
        }
    }
}

/// A Telegram update, already mapped to domain types.
#[derive(Debug, PartialEq, Eq)]
pub enum ApiEvent {
    MessageNew(Message),
    MessageEdited(Message),
    /// Messages were deleted. Telegram names the chat only for channel
    /// deletions; for private and group chats the ids alone identify the
    /// rows, since their id sequence is account-wide.
    MessagesDeleted { channel_chat_id: Option<ChatId>, message_ids: Vec<MessageId> },
    Typing { chat_id: ChatId, user_id: UserId },
    Presence { user_id: UserId, presence: Presence },
    /// The QR login token was scanned and accepted on another device.
    QrLoginAccepted,
    /// An update kind that is not handled.
    Unhandled,
}

/// Longest notification body, in characters.
pub const NOTIFICATION_BODY_CHARS: usize = 140;

/// Title and body of the desktop notification for an event: only incoming
/// messages notify.
pub open spec fn notification_spec(event: CoreEvent) -> Option<(Seq<char>, Seq<char>)> {
    match event {
        CoreEvent::MessageAdded { message } => if message.outgoing {
            None
        } else {
            let title = match message.sender_name {
                Some(name) => name@,
                None => "New message"@,
            };
            let body = if message.text@.len() == 0 {
                "📎 Attachment"@
            } else if message.text@.len() <= NOTIFICATION_BODY_CHARS {
                message.text@
            } else {
                message.text@.take(NOTIFICATION_BODY_CHARS as int)
            };
            Some((title, body))
        },
        _ => None,
    }
}

/// The notification an event raises, as `(title, body)`.
pub fn notification_for(event: &CoreEvent) -> (r: Option<(String, String)>)
    ensures
        match (r, notification_spec(*event)) {
            (Some((t, b)), Some((ts, bs))) => t@ == ts && b@ == bs,
            (None, None) => true,
            _ => false,
        },
{
    match event {
        CoreEvent::MessageAdded { message } => {
            if message.outgoing {
                return None;
            }
            let title = match &message.sender_name {
                Some(name) => name.clone(),
                None => String::from_str("New message"),
            };
            let chars = crate::text::chars_of(message.text.as_str());
            let body = if chars.len() == 0 {
                String::from_str("📎 Attachment")
            } else if chars.len() <= NOTIFICATION_BODY_CHARS {
                message.text.clone()
            } else {
                crate::text::string_of_chars(&chars, 0, NOTIFICATION_BODY_CHARS)
            };
            Some((title, body))
        },
        _ => None,
    }
}

/// Only a newly added incoming message raises a desktop notification: an
/// edit, a reaction or send-state change, a deletion or any other event
/// raises none, and neither does the account's own outgoing message.
pub proof fn lemma_only_new_incoming_messages_notify(event: CoreEvent)
    ensures
        !(event is MessageAdded) ==> notification_spec(event) is None,
        event matches CoreEvent::MessageAdded { message } ==> (message.outgoing <==> notification_spec(
            event,
        ) is None),
{
}

} // verus!

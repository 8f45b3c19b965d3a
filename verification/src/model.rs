//! Domain model shared by every layer: accounts, chats, messages, media.
//!
//! Points in time are carried as `Timestamp`, Unix time in milliseconds, so
//! that ordering and comparison stay plain integer arithmetic.

use vstd::prelude::*;

verus! {

/// Identifier of a locally configured account: the Telegram user id of its owner.
pub type AccountId = i64;

/// Telegram chat identifier in Bot-API canonical form (positive for users,
/// negative for groups and channels).
pub type ChatId = i64;

/// Message identifier, unique within a chat. Locally created (pending)
/// messages carry negative ids.
pub type MessageId = i32;

/// Telegram user identifier.
pub type UserId = i64;

/// Unix time in milliseconds.
pub type Timestamp = i64;

/// A logged-in (or logging-in) account.
#[derive(Debug, PartialEq, Eq)]
pub struct Account {
    pub id: AccountId,
    /// Phone number in international format, if known.
    pub phone: Option<String>,
    pub first_name: String,
    pub last_name: Option<String>,
    pub username: Option<String>,
    /// Whether this account currently holds a usable session.
    pub authorized: bool,
}

impl Clone for Account {
    fn clone(&self) -> (r: Self)
        ensures
            r == *self,
    {
        Account {
            id: self.id,
            phone: self.phone.clone(),
            first_name: self.first_name.clone(),
            last_name: self.last_name.clone(),
            username: self.username.clone(),
            authorized: self.authorized,
        }
    }
}

/// The kind of a chat, as far as the UI distinguishes.
#[derive(Debug, Clone, Copy, PartialEq, Eq, Structural)]
pub enum ChatKind {
    /// One-to-one conversation with a user or bot.
    Private,
    /// Small or basic group.
    Group,
    /// Broadcast channel or supergroup.
    Channel,
}

/// A conversation as shown in the chat list.
#[derive(Debug, PartialEq, Eq)]
pub struct Chat {
    pub account_id: AccountId,
    pub id: ChatId,
    pub kind: ChatKind,
    pub title: String,
    pub username: Option<String>,
    /// Number of messages the server considers unread.
    pub unread_count: i32,
    pub pinned: bool,
    /// Ordering key for the chat list: the date of the last message.
    pub last_message_at: Option<Timestamp>,
    /// Short preview text of the last message.
    pub last_message_preview: Option<String>,
    /// Cache key of the chat's profile photo, if it has one.
    pub avatar_key: Option<String>,
}

impl Clone for Chat {
    fn clone(&self) -> (r: Self)
        ensures
            r == *self,
    {
        Chat {
            account_id: self.account_id,
            id: self.id,
            kind: self.kind,
            title: self.title.clone(),
            username: self.username.clone(),
            unread_count: self.unread_count,
            pinned: self.pinned,
            last_message_at: self.last_message_at,
            last_message_preview: self.last_message_preview.clone(),
            avatar_key: self.avatar_key.clone(),
        }
    }
}

/// Media attached to a message: the metadata needed to render a placeholder
/// and to request a download. The bytes live in the encrypted cache.
#[derive(Debug, PartialEq, Eq)]
pub enum Media {
    Photo { cache_key: String, width: i32, height: i32 },
    Document { cache_key: String, file_name: String, mime_type: String, size_bytes: i64 },
    Sticker { cache_key: String, emoji: String },
    /// Media not rendered natively; the string describes it (such as "📊 Poll").
    Other { description: String },
}

impl Clone for Media {
    fn clone(&self) -> (r: Self)
        ensures
            r == *self,
    {
        match self {
            Media::Photo { cache_key, width, height } => Media::Photo {
                cache_key: cache_key.clone(),
                width: *width,
                height: *height,
            },
            Media::Document { cache_key, file_name, mime_type, size_bytes } => Media::Document {
                cache_key: cache_key.clone(),
                file_name: file_name.clone(),
                mime_type: mime_type.clone(),
                size_bytes: *size_bytes,
            },
            Media::Sticker { cache_key, emoji } => Media::Sticker {
                cache_key: cache_key.clone(),
                emoji: emoji.clone(),
            },
            Media::Other { description } => Media::Other { description: description.clone() },
        }
    }
}

/// One reaction aggregate on a message ("👍 × 3").
#[derive(Debug, PartialEq, Eq)]
pub struct Reaction {
    pub emoji: String,
    pub count: i32,
    /// Whether the account owner is among the reactors.
    pub chosen: bool,
}

impl Clone for Reaction {
    fn clone(&self) -> (r: Self)
        ensures
            r == *self,
    {
        Reaction { emoji: self.emoji.clone(), count: self.count, chosen: self.chosen }
    }
}

/// Delivery state of an outgoing message.
#[derive(Debug, Clone, Copy, PartialEq, Eq, Structural)]
pub enum SendState {
    /// Persisted locally, not yet acknowledged by Telegram.
    Pending,
    Sent,
    Failed,
}

/// A message as stored and rendered.
#[derive(Debug, PartialEq, Eq)]
pub struct Message {
    pub account_id: AccountId,
    pub chat_id: ChatId,
    pub id: MessageId,
    pub sender_id: Option<UserId>,
    pub sender_name: Option<String>,
    /// Message text, or the caption when media is present.
    pub text: String,
    pub media: Option<Media>,
    pub reactions: Vec<Reaction>,
    pub reply_to: Option<MessageId>,
    pub date: Timestamp,
    pub edited: bool,
    pub outgoing: bool,
    pub send_state: SendState,
}

/// A copy of a reaction list, element by element.
pub fn clone_reactions(reactions: &Vec<Reaction>) -> (r: Vec<Reaction>)
    ensures
        r@ == reactions@,
{
    let mut out: Vec<Reaction> = Vec::new();
    let mut i: usize = 0;
    while i < reactions.len()
        invariant
            i <= reactions.len(),
            out@ == reactions@.subrange(0, i as int),
        decreases reactions.len() - i,
    {
        out.push(reactions[i].clone());
        i = i + 1;
    }
    assert(reactions@.subrange(0, reactions.len() as int) == reactions@);
    out
}

impl Message {
    /// Field-by-field equality, the reaction list compared by its contents.
    pub open spec fn same_as(&self, other: &Message) -> bool {
        &&& self.account_id == other.account_id
        &&& self.chat_id == other.chat_id
        &&& self.id == other.id
        &&& self.sender_id == other.sender_id
        &&& self.sender_name == other.sender_name
        &&& self.text == other.text
        &&& self.media == other.media
        &&& self.reactions@ == other.reactions@
        &&& self.reply_to == other.reply_to
        &&& self.date == other.date
        &&& self.edited == other.edited
        &&& self.outgoing == other.outgoing
        &&& self.send_state == other.send_state
    }
}

impl Clone for Message {
    fn clone(&self) -> (r: Self)
        ensures
            r.same_as(self),
    {
        Message {
            account_id: self.account_id,
            chat_id: self.chat_id,
            id: self.id,
            sender_id: self.sender_id,
            sender_name: self.sender_name.clone(),
            text: self.text.clone(),
            media: self.media.clone(),
            reactions: clone_reactions(&self.reactions),
            reply_to: self.reply_to,
            date: self.date,
            edited: self.edited,
            outgoing: self.outgoing,
            send_state: self.send_state,
        }
    }
}

/// Online status of a user, as much of it as Telegram exposes.
#[derive(Debug, Clone, Copy, PartialEq, Eq, Structural)]
pub enum Presence {
    Online,
    Offline { last_seen: Option<Timestamp> },
    /// Coarse statuses ("last seen recently", hidden, ...).
    Hidden,
}

/// Progress of a media transfer.
#[derive(Debug, PartialEq, Eq)]
pub struct TransferProgress {
    pub cache_key: String,
    pub transferred_bytes: i64,
    pub total_bytes: i64,
    pub done: bool,
}

impl Clone for TransferProgress {
    fn clone(&self) -> (r: Self)
        ensures
            r == *self,
    {
        TransferProgress {
            cache_key: self.cache_key.clone(),
            transferred_bytes: self.transferred_bytes,
            total_bytes: self.total_bytes,
            done: self.done,
        }
    }
}

/// State of the per-account background synchronization loop.
#[derive(Debug, Clone, Copy, PartialEq, Eq, Structural)]
pub enum SyncState {
    Connecting,
    /// Catching up on dialogs after connecting.
    Synchronizing,
    /// Live: receiving updates in real time.
    UpToDate,
    /// Disconnected; will retry with backoff.
    Offline,
}

/// The stages of an interactive login.
#[derive(Debug, PartialEq, Eq)]
pub enum LoginStage {
    /// Waiting for the user to enter the code Telegram sent.
    CodeSent,
    /// The account has 2FA enabled; waiting for the cloud password.
    PasswordRequired { hint: Option<String> },
    /// QR login: render this `tg://login?token=...` URL as a QR code until `expires_at`.
    QrCode { url: String, expires_at: Timestamp },
    /// Login finished; the account is ready.
    Complete { account: Account },
}

impl Clone for LoginStage {
    fn clone(&self) -> (r: Self)
        ensures
            r == *self,
    {
        match self {
            LoginStage::CodeSent => LoginStage::CodeSent,
            LoginStage::PasswordRequired { hint } => LoginStage::PasswordRequired {
                hint: hint.clone(),
            },
            LoginStage::QrCode { url, expires_at } => LoginStage::QrCode {
                url: url.clone(),
                expires_at: *expires_at,
            },
            LoginStage::Complete { account } => LoginStage::Complete { account: account.clone() },
        }
    }
}

} // verus!

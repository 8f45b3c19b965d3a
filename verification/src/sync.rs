//! Decisions of the per-account synchronization engine: reconnect backoff,
//! how a failed cycle ends, chat-list previews, unread counting and how
//! account-wide deletions are grouped per chat.

use vstd::prelude::*;

use crate::errors::TgError;
use crate::event::{ApiEvent, CoreEvent};
use crate::model::{AccountId, Chat, ChatId, Media, Message, MessageId, SyncState};

verus! {

// ----- reconnect backoff ---------------------------------------------------
/// Exponential reconnect backoff in whole seconds: starts at the configured
/// initial delay (at least one second) and doubles after every disconnect up
/// to the configured maximum (at least one second).
pub struct Backoff {
    current_secs: u64,
    max_secs: u64,
}

impl Backoff {
    /// The delay before the next reconnect attempt.
    pub closed spec fn delay(&self) -> u64 {
        self.current_secs
    }

    /// The cap on the delay.
    pub closed spec fn cap(&self) -> u64 {
        self.max_secs
    }

    /// Backoff for the configured initial and maximum delays.
    pub fn new(initial_secs: u64, max_secs: u64) -> (b: Self)
        ensures
            b.delay() == (if initial_secs >= 1 {
                initial_secs
            } else {
                1
            }),
            b.cap() == (if max_secs >= 1 {
                max_secs
            } else {
                1
            }),
    {
        Backoff {
            current_secs: if initial_secs >= 1 {
                initial_secs
            } else {
                1
            },
            max_secs: if max_secs >= 1 {
                max_secs
            } else {
                1
            },
        }
    }

    /// The delay before the next reconnect attempt, in seconds.
    pub fn current_delay(&self) -> (d: u64)
        ensures
            d == self.delay(),
    {
        self.current_secs
    }

    /// The delay to wait now; the next one is twice as long, capped.
    pub fn next_delay(&mut self) -> (d: u64)
        requires
            old(self).delay() <= u64::MAX / 2,
        ensures
            d == old(self).delay(),
            final(self).cap() == old(self).cap(),
            final(self).delay() == (if 2 * old(self).delay() <= old(self).cap() {
                2 * old(self).delay()
            } else {
                old(self).cap() as int
            }),
    {
        let d = self.current_secs;
        let doubled = d * 2;
        self.current_secs = if doubled <= self.max_secs {
            doubled
        } else {
            self.max_secs
        };
        d
    }
}

/// Once the delay is within the cap, it stays within the cap and never
/// shrinks.
pub proof fn lemma_backoff_bounded(before: Backoff, after: Backoff)
    requires
        1 <= before.delay() <= before.cap(),
        before.cap() <= u64::MAX / 2,
        after.cap() == before.cap(),
        after.delay() == (if 2 * before.delay() <= before.cap() {
            2 * before.delay()
        } else {
            before.cap() as int
        }),
    ensures
        before.delay() <= after.delay() <= after.cap(),
{
}

/// How one synchronization cycle ended.
#[derive(Debug, PartialEq, Eq)]
pub enum CycleEnd {
    /// The connection dropped or a request failed; the text says why.
    Disconnected(String),
    /// Telegram revoked the authorization.
    LoggedOut,
}

/// What the engine does after a cycle.
#[derive(Debug, PartialEq, Eq)]
pub enum SyncAction {
    /// Report the account as logged out and stop synchronizing it.
    StopLoggedOut,
    /// Announce the account offline, wait this many seconds and retry.
    RetryAfter(u64),
}

/// How a failed request ends the current cycle.
pub fn cycle_end_for(error: &TgError, reason: String) -> (r: CycleEnd)
    ensures
        error.spec_auth_revoked() ==> r == CycleEnd::LoggedOut,
        !error.spec_auth_revoked() ==> r == CycleEnd::Disconnected(reason),
{
    if error.is_auth_revoked() {
        CycleEnd::LoggedOut
    } else {
        CycleEnd::Disconnected(reason)
    }
}

/// The engine's reaction to the end of a cycle.
pub fn after_cycle(backoff: &mut Backoff, end: &CycleEnd) -> (a: SyncAction)
    requires
        *end is Disconnected ==> old(backoff).delay() <= u64::MAX / 2,
    ensures
        *end is LoggedOut ==> a == SyncAction::StopLoggedOut && *final(backoff) == *old(backoff),
        *end is Disconnected ==> a == SyncAction::RetryAfter(old(backoff).delay())
            && final(backoff).cap() == old(backoff).cap() && final(backoff).delay() == (if 2
            * old(backoff).delay() <= old(backoff).cap() {
            2 * old(backoff).delay()
        } else {
            old(backoff).cap() as int
        }),
{
    match end {
        CycleEnd::LoggedOut => SyncAction::StopLoggedOut,
        CycleEnd::Disconnected(_) => SyncAction::RetryAfter(backoff.next_delay()),
    }
}

// ----- chat-list previews ----------------------------------------------------
/// Chat-list preview of a message without text, from its media.
pub open spec fn media_preview_spec(media: Option<Media>) -> Seq<char> {
    match media {
        Some(Media::Photo { .. }) => "📷 Photo"@,
        Some(Media::Sticker { emoji, .. }) => emoji@ + " Sticker"@,
        Some(Media::Document { file_name, .. }) => "📎 "@ + file_name@,
        Some(Media::Other { description }) => description@,
        None => Seq::empty(),
    }
}

/// Chat-list preview of a message's media.
pub fn media_preview(message: &Message) -> (r: String)
    ensures
        r@ == media_preview_spec(message.media),
{
    match &message.media {
        Some(Media::Photo { .. }) => String::from_str("📷 Photo"),
        Some(Media::Sticker { emoji, .. }) => {
            let mut s = emoji.clone();
            s.append(" Sticker");
            s
        },
        Some(Media::Document { file_name, .. }) => {
            let mut s = String::from_str("📎 ");
            s.append(file_name.as_str());
            s
        },
        Some(Media::Other { description }) => description.clone(),
        None => String::new(),
    }
}

/// Chat-list preview of a message: its text, or a description of its media
/// when the text is empty.
pub fn message_preview(message: &Message) -> (r: String)
    ensures
        r@ == (if message.text@.len() == 0 {
            media_preview_spec(message.media)
        } else {
            message.text@
        }),
{
    if message.text.as_str().unicode_len() == 0 {
        media_preview(message)
    } else {
        message.text.clone()
    }
}

/// Whether a new message raises the chat's unread counter: only incoming
/// messages not stored before (catch-up after a reconnect re-delivers
/// messages already seen).
pub fn counts_as_unread(message: &Message, already_seen: bool) -> (r: bool)
    ensures
        r == (!message.outgoing && !already_seen),
{
    !message.outgoing && !already_seen
}

/// The unread counter after one more unread message.
pub fn unread_after_new_message(unread: i32) -> (r: i32)
    requires
        unread < i32::MAX,
    ensures
        r == unread + 1,
{
    unread + 1
}

// ----- deletions -----------------------------------------------------------------
/// The ids deleted from chat `chat`, in order.
pub open spec fn deleted_in_chat(deleted: Seq<(ChatId, MessageId)>, chat: ChatId) -> Seq<MessageId>
    decreases deleted.len(),
{
    if deleted.len() == 0 {
        Seq::empty()
    } else if deleted.last().0 == chat {
        deleted_in_chat(deleted.drop_last(), chat).push(deleted.last().1)
    } else {
        deleted_in_chat(deleted.drop_last(), chat)
    }
}

/// Whether some deleted row belongs to chat `chat`.
pub open spec fn touches_chat(deleted: Seq<(ChatId, MessageId)>, chat: ChatId) -> bool {
    exists|k: int| 0 <= k < deleted.len() && deleted[k].0 == chat
}

proof fn lemma_deleted_in_chat_empty(deleted: Seq<(ChatId, MessageId)>, chat: ChatId)
    requires
        !touches_chat(deleted, chat),
    ensures
        deleted_in_chat(deleted, chat).len() == 0,
    decreases deleted.len(),
{
    if deleted.len() > 0 {
        assert(!touches_chat(deleted.drop_last(), chat)) by {
            if touches_chat(deleted.drop_last(), chat) {
                let k = choose|k: int|
                    0 <= k < deleted.drop_last().len() && deleted.drop_last()[k].0 == chat;
                assert(deleted[k].0 == chat);
            }
        }
        lemma_deleted_in_chat_empty(deleted.drop_last(), chat);
    }
}

/// Whether some group is for chat `chat`.
pub open spec fn has_group(groups: Seq<(ChatId, Vec<MessageId>)>, chat: ChatId) -> bool {
    exists|g: int| 0 <= g < groups.len() && groups[g].0 == chat
}

/// Rows deleted by an account-wide deletion, grouped into one entry per
/// chat: every chat touched appears exactly once, in order of first
/// appearance, with its ids in their original order.
pub fn group_deletions_by_chat(deleted: &Vec<(ChatId, MessageId)>) -> (r: Vec<
    (ChatId, Vec<MessageId>),
>)
    ensures
        forall|g: int|
            0 <= g < r@.len() ==> #[trigger] r@[g].1@ == deleted_in_chat(deleted@, r@[g].0)
                && touches_chat(deleted@, r@[g].0),
        forall|a: int, b: int| 0 <= a < b < r@.len() ==> r@[a].0 != r@[b].0,
        forall|k: int| 0 <= k < deleted@.len() ==> has_group(r@, #[trigger] deleted@[k].0),
        forall|a: int, b: int, k: int|
            #![trigger r@[a], r@[b], deleted@[k]]
            0 <= a < b < r@.len() && 0 <= k < deleted@.len() && deleted@[k].0 == r@[b].0
                ==> touches_chat(deleted@.take(k), r@[a].0),
{
    let mut groups: Vec<(ChatId, Vec<MessageId>)> = Vec::new();
    let mut i: usize = 0;
    while i < deleted.len()
        invariant
            i <= deleted.len(),
            forall|g: int|
                0 <= g < groups@.len() ==> #[trigger] groups@[g].1@ == deleted_in_chat(
                    deleted@.subrange(0, i as int),
                    groups@[g].0,
                ) && touches_chat(deleted@.subrange(0, i as int), groups@[g].0),
            forall|a: int, b: int| 0 <= a < b < groups@.len() ==> groups@[a].0 != groups@[b].0,
            forall|k: int| 0 <= k < i ==> has_group(groups@, #[trigger] deleted@[k].0),
            forall|a: int, b: int, k: int|
                #![trigger groups@[a], groups@[b], deleted@[k]]
                0 <= a < b < groups@.len() && 0 <= k < i && deleted@[k].0 == groups@[b].0
                    ==> touches_chat(deleted@.take(k), groups@[a].0),
        decreases deleted.len() - i,
    {
        let (chat, id) = deleted[i];
        let ghost pre = deleted@.subrange(0, i as int);
        let ghost next = deleted@.subrange(0, i + 1);
        proof {
            assert(next.drop_last() == pre);
            assert(next.last() == (chat, id));
        }
        let mut g: usize = 0;
        while g < groups.len() && groups[g].0 != chat
            invariant
                g <= groups.len(),
                forall|h: int| 0 <= h < g ==> groups@[h].0 != chat,
            decreases groups.len() - g,
        {
            g = g + 1;
        }
        let ghost old_groups = groups@;
        if g < groups.len() {
            let mut ids = groups[g].1.clone();
            ids.push(id);
            groups.set(g, (chat, ids));
            proof {
                assert forall|h: int|
                    0 <= h < groups@.len() implies #[trigger] groups@[h].1@ == deleted_in_chat(
                    next,
                    groups@[h].0,
                ) && touches_chat(next, groups@[h].0) by {
                    if h != g {
                        assert(groups@[h] == old_groups[h]);
                    }
                    assert(groups@[h].0 == old_groups[h].0);
                    let t = groups@[h].0;
                    assert(old_groups[h].1@ == deleted_in_chat(pre, t));
                    assert(touches_chat(pre, t));
                    let k = choose|k: int| 0 <= k < pre.len() && pre[k].0 == t;
                    assert(next[k] == pre[k]);
                }
            }
        } else {
            let mut ids: Vec<MessageId> = Vec::new();
            ids.push(id);
            groups.push((chat, ids));
            proof {
                lemma_deleted_in_chat_empty(pre, chat);
                assert forall|h: int|
                    0 <= h < groups@.len() implies #[trigger] groups@[h].1@ == deleted_in_chat(
                    next,
                    groups@[h].0,
                ) && touches_chat(next, groups@[h].0) by {
                    if h < old_groups.len() {
                        assert(groups@[h] == old_groups[h]);
                        let t = groups@[h].0;
                        assert(old_groups[h].1@ == deleted_in_chat(pre, t));
                        assert(touches_chat(pre, t));
                        let k = choose|k: int| 0 <= k < pre.len() && pre[k].0 == t;
                        assert(next[k] == pre[k]);
                    } else {
                        assert(next[i as int].0 == chat);
                        assert(deleted_in_chat(pre, chat) =~= Seq::<MessageId>::empty());
                    }
                }
            }
        }
        proof {
            assert(pre == deleted@.take(i as int));
            assert forall|a: int, b: int, k: int|
                #![trigger groups@[a], groups@[b], deleted@[k]]
                0 <= a < b < groups@.len() && 0 <= k < i + 1 && deleted@[k].0 == groups@[b].0
                    implies touches_chat(deleted@.take(k), groups@[a].0) by {
                assert(groups@[a].0 == old_groups[a].0);
                if k < i {
                    if b < old_groups.len() {
                        assert(groups@[b].0 == old_groups[b].0);
                        assert(old_groups[a] == old_groups[a] && old_groups[b] == old_groups[b]);
                    } else {
                        assert(has_group(old_groups, deleted@[k].0));
                        let h = choose|h: int| 0 <= h < old_groups.len() && old_groups[h].0 == deleted@[k].0;
                        assert(old_groups[h].0 == chat);
                        assert(false);
                    }
                } else {
                    assert(a < old_groups.len());
                    assert(old_groups[a].1@ == deleted_in_chat(pre, old_groups[a].0));
                    assert(touches_chat(pre, old_groups[a].0));
                }
            }
            assert forall|k: int| 0 <= k < i + 1 implies has_group(groups@, #[trigger] deleted@[k].0) by {
                if k < i {
                    assert(has_group(old_groups, deleted@[k].0));
                    let h = choose|h: int| 0 <= h < old_groups.len() && old_groups[h].0 == deleted@[k].0;
                    assert(groups@[h].0 == old_groups[h].0);
                } else {
                    assert(groups@[g as int].0 == chat);
                }
            }
        }
        i = i + 1;
    }
    assert(deleted@.subrange(0, deleted.len() as int) == deleted@);
    groups
}

// ----- applying one update ----------------------------------------------------------
/// Whether an update needs a database write before its events: messages and
/// deletions do; typing carries nothing to store, and presence is published
/// whether or not storing it succeeded.
pub open spec fn update_is_written(event: ApiEvent) -> bool {
    match event {
        ApiEvent::MessageNew(_) | ApiEvent::MessageEdited(_) | ApiEvent::MessagesDeleted { .. } => true,
        _ => false,
    }
}

/// The events published for one update once its database writes have run
/// (`write_ok` says whether they succeeded). The database is written first,
/// so an event always describes a stored fact, and nothing is published for
/// a message or deletion whose write failed.
/// * a new message: the chat as re-read after the writes (when found), then
///   the message;
/// * an edited message: the message;
/// * a channel deletion: the deleted ids of that chat;
/// * an account-wide deletion: one event per chat of `deleted_groups` (the
///   rows removed, grouped by `group_deletions_by_chat`), in order;
/// * typing and presence: one event each;
/// * a QR acceptance or an unhandled update: nothing.
pub fn events_after_write(
    account_id: AccountId,
    event: ApiEvent,
    write_ok: bool,
    chat: Option<Chat>,
    deleted_groups: Vec<(ChatId, Vec<MessageId>)>,
) -> (r: Vec<CoreEvent>)
    ensures
        update_is_written(event) && !write_ok ==> r@.len() == 0,
        write_ok ==> match event {
            ApiEvent::MessageNew(m) => match chat {
                Some(c) => r@ == seq![
                    CoreEvent::ChatUpdated { chat: c },
                    CoreEvent::MessageAdded { message: m },
                ],
                None => r@ == seq![CoreEvent::MessageAdded { message: m }],
            },
            ApiEvent::MessageEdited(m) => r@ == seq![CoreEvent::MessageUpdated { message: m }],
            ApiEvent::MessagesDeleted { channel_chat_id: Some(c), message_ids } => r@ == seq![
                CoreEvent::MessageDeleted { account_id, chat_id: c, message_ids },
            ],
            ApiEvent::MessagesDeleted { channel_chat_id: None, .. } => {
                &&& r@.len() == deleted_groups@.len()
                &&& forall|g: int|
                    0 <= g < r@.len() ==> #[trigger] r@[g] == (CoreEvent::MessageDeleted {
                        account_id,
                        chat_id: deleted_groups@[g].0,
                        message_ids: deleted_groups@[g].1,
                    })
            },
            _ => true,
        },
        match event {
            ApiEvent::Typing { chat_id, user_id } => r@ == seq![
                CoreEvent::Typing { account_id, chat_id, user_id },
            ],
            ApiEvent::Presence { user_id, presence } => r@ == seq![
                CoreEvent::PresenceChanged { account_id, user_id, presence },
            ],
            ApiEvent::QrLoginAccepted | ApiEvent::Unhandled => r@.len() == 0,
            _ => true,
        },
{
    let mut out: Vec<CoreEvent> = Vec::new();
    match event {
        ApiEvent::MessageNew(message) => {
            if write_ok {
                match chat {
                    Some(c) => {
                        out.push(CoreEvent::ChatUpdated { chat: c });
                    },
                    None => {},
                }
                out.push(CoreEvent::MessageAdded { message });
            }
        },
        ApiEvent::MessageEdited(message) => {
            if write_ok {
                out.push(CoreEvent::MessageUpdated { message });
            }
        },
        ApiEvent::MessagesDeleted { channel_chat_id, message_ids } => {
            if write_ok {
                match channel_chat_id {
                    Some(chat_id) => {
                        out.push(CoreEvent::MessageDeleted { account_id, chat_id, message_ids });
                    },
                    None => {
                        let ghost groups = deleted_groups@;
                        assert(groups.len() == deleted_groups.len());
                        let mut rest = deleted_groups;
                        let mut k: usize = 0;
                        while rest.len() > 0
                            invariant
                                k + rest@.len() == groups.len(),
                                groups.len() <= usize::MAX,
                                rest@ == groups.skip(k as int),
                                out@.len() == k,
                                forall|g: int|
                                    0 <= g < k ==> #[trigger] out@[g] == (CoreEvent::MessageDeleted {
                                        account_id,
                                        chat_id: groups[g].0,
                                        message_ids: groups[g].1,
                                    }),
                            decreases rest@.len(),
                        {
                            let (chat_id, message_ids) = rest.remove(0);
                            assert(groups[k as int] == (chat_id, message_ids));
                            out.push(CoreEvent::MessageDeleted { account_id, chat_id, message_ids });
                            k = k + 1;
                            assert(rest@ == groups.skip(k as int));
                        }
                    },
                }
            }
        },
        ApiEvent::Typing { chat_id, user_id } => {
            out.push(CoreEvent::Typing { account_id, chat_id, user_id });
        },
        ApiEvent::Presence { user_id, presence } => {
            out.push(CoreEvent::PresenceChanged { account_id, user_id, presence });
        },
        ApiEvent::QrLoginAccepted => {},
        ApiEvent::Unhandled => {},
    }
    out
}

// ----- one synchronization cycle ----------------------------------------------------
/// Where a synchronization cycle stands.
#[derive(Debug)]
pub enum CyclePhase {
    /// Nothing done yet.
    Starting,
    /// The chat list is being fetched.
    FetchingDialogs,
    /// The fetched chats are being stored, one by one.
    SavingDialogs,
    /// Live updates are being applied.
    Live,
    /// The cycle is over.
    Ended,
}

/// What happened since the engine's last step.
#[derive(Debug)]
pub enum CycleOutcome {
    /// The cycle starts.
    Begin,
    /// The chat list arrived.
    DialogsFetched,
    /// Fetching the chat list failed.
    DialogsFailed { error: TgError, reason: String },
    /// One fetched chat was written to the database, or its write failed.
    ChatWritten { chat: Chat, written: bool },
    /// Every fetched chat was handled.
    DialogsSaved,
    /// The periodic session flush is due.
    FlushDue,
    /// An update arrived on the stream.
    UpdateArrived,
    /// The update stream failed.
    StreamFailed { error: TgError, reason: String },
}

/// What the engine does next, in order.
#[derive(Debug)]
pub enum CycleAction {
    /// Broadcast this event.
    Publish(CoreEvent),
    /// Fetch the chat list.
    FetchDialogs,
    /// Store the last message of the chat just written.
    SaveLastMessage,
    /// Write the session snapshot if it changed.
    FlushSession,
    /// Start applying live updates.
    ListenForUpdates,
    /// Store the update that arrived and publish its events.
    ApplyUpdate,
    /// Persist the update-state watermark so catch-up resumes from it.
    SaveUpdateState,
    /// The cycle ends this way.
    End(CycleEnd),
}

/// How a failed request ends a cycle: revoked authorization logs out,
/// anything else is a disconnection with the given reason.
pub open spec fn cycle_end_of(error: TgError, reason: String) -> CycleEnd {
    if error.spec_auth_revoked() {
        CycleEnd::LoggedOut
    } else {
        CycleEnd::Disconnected(reason)
    }
}

/// One step of a synchronization cycle: the phase after `outcome` and the
/// actions to take, in order.
/// * The cycle announces `Synchronizing` and fetches the chat list.
/// * A chat is published only after its write succeeded (its last message is
///   stored first); a chat whose write failed is skipped.
/// * Once all chats are handled the session is flushed, `UpToDate` is
///   announced and live updates begin; each update is applied, and the
///   session is flushed when due.
/// * A failed request ends the cycle as `cycle_end_of` says; a dropped stream
///   first saves the update-state watermark (not when logged out).
/// * An outcome that does not belong to the phase changes nothing.
pub open spec fn cycle_step_spec(account_id: AccountId, phase: CyclePhase, outcome: CycleOutcome) -> (
    CyclePhase,
    Seq<CycleAction>,
) {
    match (phase, outcome) {
        (CyclePhase::Starting, CycleOutcome::Begin) => (
            CyclePhase::FetchingDialogs,
            seq![
                CycleAction::Publish(
                    CoreEvent::SyncStateChanged { account_id, state: SyncState::Synchronizing },
                ),
                CycleAction::FetchDialogs,
            ],
        ),
        (CyclePhase::FetchingDialogs, CycleOutcome::DialogsFetched) => (
            CyclePhase::SavingDialogs,
            Seq::empty(),
        ),
        (CyclePhase::FetchingDialogs, CycleOutcome::DialogsFailed { error, reason }) => (
            CyclePhase::Ended,
            seq![CycleAction::End(cycle_end_of(error, reason))],
        ),
        (CyclePhase::SavingDialogs, CycleOutcome::ChatWritten { chat, written }) => (
            CyclePhase::SavingDialogs,
            if written {
                seq![CycleAction::SaveLastMessage, CycleAction::Publish(CoreEvent::ChatUpdated { chat })]
            } else {
                Seq::empty()
            },
        ),
        (CyclePhase::SavingDialogs, CycleOutcome::DialogsSaved) => (
            CyclePhase::Live,
            seq![
                CycleAction::FlushSession,
                CycleAction::Publish(
                    CoreEvent::SyncStateChanged { account_id, state: SyncState::UpToDate },
                ),
                CycleAction::ListenForUpdates,
            ],
        ),
        (CyclePhase::Live, CycleOutcome::FlushDue) => (CyclePhase::Live, seq![CycleAction::FlushSession]),
        (CyclePhase::Live, CycleOutcome::UpdateArrived) => (CyclePhase::Live, seq![CycleAction::ApplyUpdate]),
        (CyclePhase::Live, CycleOutcome::StreamFailed { error, reason }) => (
            CyclePhase::Ended,
            if error.spec_auth_revoked() {
                seq![CycleAction::End(CycleEnd::LoggedOut)]
            } else {
                seq![CycleAction::SaveUpdateState, CycleAction::End(CycleEnd::Disconnected(reason))]
            },
        ),
        (p, _) => (p, Seq::empty()),
    }
}

/// One step of a synchronization cycle (see `cycle_step_spec`).
pub fn cycle_step(account_id: AccountId, phase: CyclePhase, outcome: CycleOutcome) -> (r: (
    CyclePhase,
    Vec<CycleAction>,
))
    ensures
        r.0 == cycle_step_spec(account_id, phase, outcome).0,
        r.1@ == cycle_step_spec(account_id, phase, outcome).1,
{
    let mut actions: Vec<CycleAction> = Vec::new();
    match (phase, outcome) {
        (CyclePhase::Starting, CycleOutcome::Begin) => {
            actions.push(
                CycleAction::Publish(
                    CoreEvent::SyncStateChanged { account_id, state: SyncState::Synchronizing },
                ),
            );
            actions.push(CycleAction::FetchDialogs);
            (CyclePhase::FetchingDialogs, actions)
        },
        (CyclePhase::FetchingDialogs, CycleOutcome::DialogsFetched) => (CyclePhase::SavingDialogs, actions),
        (CyclePhase::FetchingDialogs, CycleOutcome::DialogsFailed { error, reason }) => {
            actions.push(CycleAction::End(cycle_end_for(&error, reason)));
            (CyclePhase::Ended, actions)
        },
        (CyclePhase::SavingDialogs, CycleOutcome::ChatWritten { chat, written }) => {
            if written {
                actions.push(CycleAction::SaveLastMessage);
                actions.push(CycleAction::Publish(CoreEvent::ChatUpdated { chat }));
            }
            (CyclePhase::SavingDialogs, actions)
        },
        (CyclePhase::SavingDialogs, CycleOutcome::DialogsSaved) => {
            actions.push(CycleAction::FlushSession);
            actions.push(
                CycleAction::Publish(
                    CoreEvent::SyncStateChanged { account_id, state: SyncState::UpToDate },
                ),
            );
            actions.push(CycleAction::ListenForUpdates);
            (CyclePhase::Live, actions)
        },
        (CyclePhase::Live, CycleOutcome::FlushDue) => {
            actions.push(CycleAction::FlushSession);
            (CyclePhase::Live, actions)
        },
        (CyclePhase::Live, CycleOutcome::UpdateArrived) => {
            actions.push(CycleAction::ApplyUpdate);
            (CyclePhase::Live, actions)
        },
        (CyclePhase::Live, CycleOutcome::StreamFailed { error, reason }) => {
            let end = cycle_end_for(&error, reason);
            match end {
                CycleEnd::LoggedOut => {},
                CycleEnd::Disconnected(_) => {
                    actions.push(CycleAction::SaveUpdateState);
                },
            }
            actions.push(CycleAction::End(end));
            (CyclePhase::Ended, actions)
        },
        (p, _) => (p, actions),
    }
}

/// How a failure ends a cycle: a failed chat-list fetch, or a dropped update
/// stream, logs the account out exactly when the error is a revoked
/// authorization; any other error ends the cycle as a disconnection that
/// carries the reason (and is retried with backoff).
pub proof fn lemma_cycle_end_follows_error(account_id: AccountId, error: TgError, reason: String)
    ensures
        ({
            let (p, a) = cycle_step_spec(
                account_id,
                CyclePhase::FetchingDialogs,
                CycleOutcome::DialogsFailed { error, reason },
            );
            &&& p is Ended
            &&& a.len() == 1
            &&& !error.spec_auth_revoked() ==> a[0] == CycleAction::End(CycleEnd::Disconnected(reason))
            &&& error.spec_auth_revoked() ==> a[0] == CycleAction::End(CycleEnd::LoggedOut)
        }),
        ({
            let (p, a) = cycle_step_spec(
                account_id,
                CyclePhase::Live,
                CycleOutcome::StreamFailed { error, reason },
            );
            &&& p is Ended
            &&& a.len() > 0
            &&& !error.spec_auth_revoked() ==> a.last() == CycleAction::End(CycleEnd::Disconnected(reason))
            &&& error.spec_auth_revoked() ==> a.last() == CycleAction::End(CycleEnd::LoggedOut)
        }),
{
}

/// Only a revoked authorization logs an account out: a step that ends the
/// cycle as logged out was given a failed fetch or a dropped stream whose
/// error is a revoked authorization.
pub proof fn lemma_logged_out_only_when_revoked(
    account_id: AccountId,
    phase: CyclePhase,
    outcome: CycleOutcome,
    k: int,
)
    requires
        0 <= k < cycle_step_spec(account_id, phase, outcome).1.len(),
        cycle_step_spec(account_id, phase, outcome).1[k] == CycleAction::End(CycleEnd::LoggedOut),
    ensures
        match outcome {
            CycleOutcome::DialogsFailed { error, .. } => error.spec_auth_revoked(),
            CycleOutcome::StreamFailed { error, .. } => error.spec_auth_revoked(),
            _ => false,
        },
{
}

} // verus!

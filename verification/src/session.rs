//! Session persistence: naming of session secrets, the update-state
//! watermark, and the dirty-tracking that keeps Keychain writes to at most
//! one per flush.

use vstd::prelude::*;

use crate::errors::{SecretError, TgError};
use crate::model::AccountId;
use crate::secrets::SecretStore;
use crate::text::{decimal, with_decimal_suffix};

verus! {

/// Secret name of the session used while a login is in progress.
pub const PENDING_SECRET: &'static str = "session-pending";

/// Secret name of an account's session: `session-<account id>`.
pub fn session_secret_name(account_id: AccountId) -> (r: String)
    ensures
        r@ == "session-"@ + decimal(account_id as int),
{
    with_decimal_suffix("session-", account_id)
}

/// The user-facing message of a secret-store error.
pub open spec fn secret_error_text(e: SecretError) -> Seq<char> {
    match e {
        SecretError::Backend(m) => "secret store backend error: "@ + m@,
    }
}

impl SecretError {
    /// The error as a user-facing message.
    pub fn describe(&self) -> (r: String)
        ensures
            r@ == secret_error_text(*self),
    {
        match self {
            SecretError::Backend(m) => {
                let mut s = String::from_str("secret store backend error: ");
                s.append(m.as_str());
                s
            },
        }
    }
}

// ----- update state ------------------------------------------------------------
/// Update watermark of one channel.
#[derive(Debug, Clone, Copy, PartialEq, Eq, Structural)]
pub struct ChannelState {
    pub id: i64,
    pub pts: i32,
}

/// The update-state watermark persisted with the session, so catch-up
/// resumes from the right place.
#[derive(Debug, PartialEq, Eq)]
pub struct UpdatesState {
    pub pts: i32,
    pub qts: i32,
    pub date: i32,
    pub seq: i32,
    pub channels: Vec<ChannelState>,
}

/// One delta of the update state.
#[derive(Debug, PartialEq, Eq)]
pub enum UpdateState {
    /// Replace the whole state.
    All(UpdatesState),
    /// The primary state of the account.
    Primary { pts: i32, date: i32, seq: i32 },
    /// The secondary state of the account.
    Secondary { qts: i32 },
    /// The state of one channel.
    Channel { id: i64, pts: i32 },
}

/// Whether some channel entry has id `id`.
pub open spec fn has_channel(channels: Seq<ChannelState>, id: i64) -> bool {
    exists|k: int| 0 <= k < channels.len() && channels[k].id == id
}

/// The first entry with id `id`.
pub open spec fn first_channel(channels: Seq<ChannelState>, id: i64) -> int {
    choose|k: int|
        0 <= k < channels.len() && channels[k].id == id && forall|j: int|
            0 <= j < k ==> channels[j].id != id
}

proof fn lemma_first_channel(channels: Seq<ChannelState>, id: i64, i: int)
    requires
        0 <= i < channels.len(),
        channels[i].id == id,
        forall|j: int| 0 <= j < i ==> channels[j].id != id,
    ensures
        first_channel(channels, id) == i,
{
    let f = first_channel(channels, id);
    assert(0 <= f < channels.len() && channels[f].id == id && forall|j: int|
        0 <= j < f ==> channels[j].id != id);
    if f < i {
        assert(channels[f].id != id);
    }
    if f > i {
        assert(channels[i].id != id);
    }
}

/// Merges one update-state delta into the stored state.
pub fn apply_update_state(state: &mut UpdatesState, update: UpdateState)
    ensures
        match update {
            UpdateState::All(all) => *final(state) == all,
            UpdateState::Primary { pts, date, seq } => final(state).pts == pts && final(state).date
                == date && final(state).seq == seq && final(state).qts == old(state).qts && final(
                state).channels == old(state).channels,
            UpdateState::Secondary { qts } => final(state).qts == qts && final(state).pts == old(
                state).pts && final(state).date == old(state).date && final(state).seq == old(
                state).seq && final(state).channels == old(state).channels,
            UpdateState::Channel { id, pts } => final(state).pts == old(state).pts && final(
                state).qts == old(state).qts && final(state).date == old(state).date && final(
                state).seq == old(state).seq && (if has_channel(old(state).channels@, id) {
                final(state).channels@ == old(state).channels@.update(
                    first_channel(old(state).channels@, id),
                    ChannelState { id, pts },
                )
            } else {
                final(state).channels@ == old(state).channels@.push(ChannelState { id, pts })
            }),
        },
{
    match update {
        UpdateState::All(all) => {
            *state = all;
        },
        UpdateState::Primary { pts, date, seq } => {
            state.pts = pts;
            state.date = date;
            state.seq = seq;
        },
        UpdateState::Secondary { qts } => {
            state.qts = qts;
        },
        UpdateState::Channel { id, pts } => {
            let mut k: usize = 0;
            while k < state.channels.len() && state.channels[k].id != id
                invariant
                    k <= state.channels@.len(),
                    forall|j: int| 0 <= j < k ==> state.channels@[j].id != id,
                decreases state.channels@.len() - k,
            {
                k = k + 1;
            }
            if k < state.channels.len() {
                proof {
                    lemma_first_channel(state.channels@, id, k as int);
                }
                state.channels.set(k, ChannelState { id, pts });
            } else {
                proof {
                    assert(!has_channel(state.channels@, id));
                }
                state.channels.push(ChannelState { id, pts });
            }
        },
    }
}

// ----- dirty tracking --------------------------------------------------------------
/// Tracks whether the in-memory session changed since the last snapshot was
/// written, and writes snapshots to the secret store.
pub struct SessionPersistence {
    dirty: bool,
    secret_name: String,
}

impl SessionPersistence {
    /// Whether the session changed since the last flush.
    pub closed spec fn is_dirty(&self) -> bool {
        self.dirty
    }

    /// The secret name the snapshot is stored under.
    pub closed spec fn name(&self) -> Seq<char> {
        self.secret_name@
    }

    /// Clean tracking for the session stored under `secret_name`.
    pub fn new(secret_name: &str) -> (r: Self)
        ensures
            !r.is_dirty(),
            r.name() == secret_name@,
    {
        SessionPersistence { dirty: false, secret_name: String::from_str(secret_name) }
    }

    /// Records that the session changed.
    pub fn mark_dirty(&mut self)
        ensures
            final(self).is_dirty(),
            final(self).name() == old(self).name(),
    {
        self.dirty = true;
    }

    /// Starts a flush: answers whether anything changed since the last one
    /// and leaves the session clean, so a second flush without changes
    /// writes nothing.
    pub fn take_dirty(&mut self) -> (changed: bool)
        ensures
            changed == old(self).is_dirty(),
            !final(self).is_dirty(),
            final(self).name() == old(self).name(),
    {
        let changed = self.dirty;
        self.dirty = false;
        changed
    }

    /// Writes a serialized snapshot; `Ok(true)` when written, else the
    /// store's failure (`session_store_outcome`).
    pub fn write_snapshot<S: SecretStore>(&self, store: &mut S, snapshot: &[u8]) -> (r: Result<
        bool,
        TgError,
    >)
        ensures
            old(store).obeys_contents() ==> r == Ok::<bool, TgError>(true) && final(store).contents()
                == old(store).contents().insert(self.name(), snapshot@),
            r is Ok ==> r == Ok::<bool, TgError>(true),
            r matches Err(e) ==> e is Session,
    {
        let written = store.set(self.secret_name.as_str(), snapshot);
        match session_store_outcome(written) {
            Ok(()) => Ok(true),
            Err(e) => Err(e),
        }
    }

    /// Removes the persisted session (logout); nothing is left to flush.
    /// A failure of the store is reported as `session_store_outcome` says.
    pub fn destroy<S: SecretStore>(&mut self, store: &mut S) -> (r: Result<(), TgError>)
        ensures
            !final(self).is_dirty(),
            final(self).name() == old(self).name(),
            old(store).obeys_contents() ==> r is Ok && final(store).contents() == old(
                store,
            ).contents().remove(old(self).name()),
            r matches Err(e) ==> e is Session,
    {
        self.dirty = false;
        let deleted = store.delete(self.secret_name.as_str());
        session_store_outcome(deleted)
    }
}

/// What a secret-store write or deletion of the session gives: success, or
/// a `Session` error whose text is the store error's message.
pub fn session_store_outcome(done: Result<(), SecretError>) -> (r: Result<(), TgError>)
    ensures
        match done {
            Ok(()) => r is Ok,
            Err(e) => r matches Err(TgError::Session(m)) && m@ == secret_error_text(e),
        },
{
    match done {
        Ok(()) => Ok(()),
        Err(e) => Err(TgError::Session(e.describe())),
    }
}

/// A written snapshot is what the store then holds under the session's
/// name (so a reload finds it), and after the session is destroyed the store
/// holds no snapshot under that name.
pub proof fn lemma_snapshot_roundtrip(
    before: Map<Seq<char>, Seq<u8>>,
    written: Map<Seq<char>, Seq<u8>>,
    destroyed: Map<Seq<char>, Seq<u8>>,
    name: Seq<char>,
    snapshot: Seq<u8>,
)
    requires
        written == before.insert(name, snapshot),
        destroyed == written.remove(name),
    ensures
        written.contains_key(name),
        written[name] == snapshot,
        !destroyed.contains_key(name),
{
}

} // verus!

//! What the persistence layer stores besides plain columns: the text codes
//! of enumerations, cached user profiles, and the escaping of full-text
//! search queries.

use vstd::prelude::*;

use crate::model::{AccountId, ChatKind, Presence, SendState, UserId};
use crate::text::{split_words, words};

verus! {

/// Bot-API channel ids lie below this bound; chats above it (users and basic
/// groups) share one account-wide message id sequence.
pub const CHANNEL_ID_CUTOFF: i64 = -1000000000000;

/// Whether a chat id belongs to a channel or supergroup.
pub fn is_channel_chat(chat_id: i64) -> (r: bool)
    ensures
        r == (chat_id <= CHANNEL_ID_CUTOFF),
{
    chat_id <= CHANNEL_ID_CUTOFF
}

/// The stored code of a chat kind.
pub open spec fn kind_code(kind: ChatKind) -> Seq<char> {
    match kind {
        ChatKind::Private => "private"@,
        ChatKind::Group => "group"@,
        ChatKind::Channel => "channel"@,
    }
}

/// The stored code of a chat kind.
pub fn kind_to_str(kind: ChatKind) -> (r: &'static str)
    ensures
        r@ == kind_code(kind),
{
    match kind {
        ChatKind::Private => "private",
        ChatKind::Group => "group",
        ChatKind::Channel => "channel",
    }
}

fn str_equals(a: &str, b: &str) -> (r: bool)
    ensures
        r == (a@ == b@),
{
    String::from_str(a) == String::from_str(b)
}

/// The chat kind of a stored code; unknown codes read as a private chat.
pub fn kind_from_str(s: &str) -> (r: ChatKind)
    ensures
        r == (if s@ == "group"@ {
            ChatKind::Group
        } else if s@ == "channel"@ {
            ChatKind::Channel
        } else {
            ChatKind::Private
        }),
{
    if str_equals(s, "group") {
        ChatKind::Group
    } else if str_equals(s, "channel") {
        ChatKind::Channel
    } else {
        ChatKind::Private
    }
}

/// The stored code of a send state.
pub open spec fn send_state_code(state: SendState) -> Seq<char> {
    match state {
        SendState::Pending => "pending"@,
        SendState::Sent => "sent"@,
        SendState::Failed => "failed"@,
    }
}

/// The stored code of a send state.
pub fn send_state_to_str(state: SendState) -> (r: &'static str)
    ensures
        r@ == send_state_code(state),
{
    match state {
        SendState::Pending => "pending",
        SendState::Sent => "sent",
        SendState::Failed => "failed",
    }
}

/// The send state of a stored code; unknown codes read as sent.
pub fn send_state_from_str(s: &str) -> (r: SendState)
    ensures
        r == (if s@ == "pending"@ {
            SendState::Pending
        } else if s@ == "failed"@ {
            SendState::Failed
        } else {
            SendState::Sent
        }),
{
    if str_equals(s, "pending") {
        SendState::Pending
    } else if str_equals(s, "failed") {
        SendState::Failed
    } else {
        SendState::Sent
    }
}

/// Reading back a stored code gives the value that was stored.
pub proof fn lemma_codes_roundtrip(kind: ChatKind, state: SendState)
    ensures
        (if kind_code(kind) == "group"@ {
            ChatKind::Group
        } else if kind_code(kind) == "channel"@ {
            ChatKind::Channel
        } else {
            ChatKind::Private
        }) == kind,
        (if send_state_code(state) == "pending"@ {
            SendState::Pending
        } else if send_state_code(state) == "failed"@ {
            SendState::Failed
        } else {
            SendState::Sent
        }) == state,
{
    reveal_strlit("private");
    reveal_strlit("group");
    reveal_strlit("channel");
    reveal_strlit("pending");
    reveal_strlit("sent");
    reveal_strlit("failed");
    assert("private"@[0] != "group"@[0]);
    assert("private"@[0] != "channel"@[0]);
    assert("group"@[0] != "channel"@[0]);
    assert("sent"@[0] != "pending"@[0]);
    assert("sent"@[0] != "failed"@[0]);
    assert("pending"@[0] != "failed"@[0]);
}

/// A cached Telegram user (message sender, contact, ...).
#[derive(Debug, PartialEq, Eq)]
pub struct CachedUser {
    pub account_id: AccountId,
    pub id: UserId,
    pub first_name: String,
    pub last_name: Option<String>,
    pub username: Option<String>,
    pub presence: Option<Presence>,
}

impl CachedUser {
    /// The name shown in the UI: first name, then the last name when known.
    pub fn display_name(&self) -> (r: String)
        ensures
            r@ == match self.last_name {
                Some(last) => self.first_name@ + " "@ + last@,
                None => self.first_name@,
            },
    {
        match &self.last_name {
            Some(last) => {
                let mut s = self.first_name.clone();
                s.append(" ");
                s.append(last.as_str());
                s
            },
            None => self.first_name.clone(),
        }
    }
}

// ----- full-text search ------------------------------------------------------------
/// A search term with each double quote doubled, as FTS5 string syntax
/// escapes it.
pub open spec fn escape_quotes(t: Seq<char>) -> Seq<char>
    decreases t.len(),
{
    if t.len() == 0 {
        Seq::empty()
    } else if t.last() == '"' {
        escape_quotes(t.drop_last()) + seq!['"', '"']
    } else {
        escape_quotes(t.drop_last()).push(t.last())
    }
}

/// A search term as a quoted FTS5 string: matched literally, never as
/// query syntax.
pub open spec fn quoted_term(t: Seq<char>) -> Seq<char> {
    seq!['"'] + escape_quotes(t) + seq!['"']
}

/// The quoted terms joined by single spaces.
pub open spec fn join_terms(ts: Seq<Seq<char>>) -> Seq<char>
    decreases ts.len(),
{
    if ts.len() == 0 {
        Seq::empty()
    } else if ts.len() == 1 {
        quoted_term(ts[0])
    } else {
        join_terms(ts.drop_last()) + seq![' '] + quoted_term(ts.last())
    }
}

fn quote_term(t: &str) -> (r: String)
    ensures
        r@ == quoted_term(t@),
{
    let cs = crate::text::chars_of(t);
    let mut out = String::from_str("\"");
    proof {
        reveal_strlit("\"");
    }
    let mut i: usize = 0;
    while i < cs.len()
        invariant
            i <= cs.len(),
            cs@ == t@,
            out@ == seq!['"'] + escape_quotes(t@.subrange(0, i as int)),
        decreases cs.len() - i,
    {
        let c = cs[i];
        proof {
            assert(t@.subrange(0, i + 1).drop_last() == t@.subrange(0, i as int));
            assert(t@.subrange(0, i + 1).last() == c);
        }
        if c == '"' {
            crate::text::push_char(&mut out, '"');
            crate::text::push_char(&mut out, '"');
            proof {
                assert(seq!['"'] + escape_quotes(t@.subrange(0, i + 1)) == (seq!['"']
                    + escape_quotes(t@.subrange(0, i as int))).push('"').push('"'));
            }
        } else {
            crate::text::push_char(&mut out, c);
            proof {
                assert(seq!['"'] + escape_quotes(t@.subrange(0, i + 1)) == (seq!['"']
                    + escape_quotes(t@.subrange(0, i as int))).push(c));
            }
        }
        i = i + 1;
    }
    assert(t@.subrange(0, cs.len() as int) == t@);
    crate::text::push_char(&mut out, '"');
    out
}

/// The FTS5 match expression for a user's search text: every
/// whitespace-separated word as a quoted literal, separated by spaces.
/// `None` when the text holds no word (nothing to search for).
pub fn fts_match_query(query: &str) -> (r: Option<String>)
    ensures
        words(query@).len() == 0 ==> r is None,
        words(query@).len() > 0 ==> (r matches Some(q) && q@ == join_terms(words(query@))),
{
    let terms = split_words(query);
    if terms.len() == 0 {
        return None;
    }
    let ghost ws = words(query@);
    let mut out = quote_term(terms[0].as_str());
    assert(ws.subrange(0, 1).len() == 1);
    let mut i: usize = 1;
    while i < terms.len()
        invariant
            1 <= i <= terms.len(),
            terms@.len() == ws.len(),
            forall|k: int| 0 <= k < terms@.len() ==> #[trigger] terms@[k]@ == ws[k],
            out@ == join_terms(ws.subrange(0, i as int)),
        decreases terms.len() - i,
    {
        crate::text::push_char(&mut out, ' ');
        let q = quote_term(terms[i].as_str());
        out.append(q.as_str());
        proof {
            let pre = ws.subrange(0, i as int);
            let next = ws.subrange(0, i + 1);
            assert(next.drop_last() == pre);
            assert(next.last() == ws[i as int]);
            assert(terms@[i as int]@ == ws[i as int]);
        }
        i = i + 1;
    }
    assert(ws.subrange(0, ws.len() as int) == ws);
    Some(out)
}

} // verus!

//! Decisions of the service layer: pending-message ids, history backfill,
//! optimistic reactions, search ranking, read watermarks and transfer
//! progress. The surrounding program performs the database and network calls
//! and feeds their results through these functions.

use vstd::prelude::*;

use crate::model::{AccountId, ChatId, Message, MessageId, Reaction, SendState, Timestamp, TransferProgress, UserId};
use crate::text::{decimal, with_decimal_suffix};

verus! {

// ----- local (pending) message ids -----------------------------------------
/// Source of ids for locally created, not yet delivered messages. Ids are
/// handed out downwards from a negative per-run seed, so they never collide
/// with the positive ids Telegram assigns.
pub struct LocalIdAllocator {
    next: i32,
}

impl LocalIdAllocator {
    /// The id the next call of [`next_local_id`] hands out.
    pub closed spec fn upcoming(&self) -> i32 {
        self.next
    }

    /// A fresh allocator whose first id is `seed`, a negative value chosen
    /// per run (far below zero, so that separate runs do not hand out the
    /// same ids).
    pub fn new(seed: i32) -> (r: Self)
        requires
            seed < 0,
        ensures
            r.upcoming() == seed,
            r.upcoming() < 0,
    {
        LocalIdAllocator { next: seed }
    }
}

/// Seeds of separate runs step down by one per second of start time, over a
/// period of this many seconds.
pub const SEED_PERIOD_SECS: u64 = 2000000000;

/// The seed of a run started at `unix_secs` (seconds since the Unix epoch).
pub open spec fn seed_for(unix_secs: u64) -> int {
    -1 - (unix_secs % SEED_PERIOD_SECS) as int
}

/// The first local id of a run started at `unix_secs`: far below zero, and
/// one lower for every second the start is later (within a seed period).
pub fn local_id_seed(unix_secs: u64) -> (r: i32)
    ensures
        r == seed_for(unix_secs),
        r < 0,
{
    let offset = (unix_secs % SEED_PERIOD_SECS) as i32;
    -1 - offset
}

/// Separate runs do not reuse ids: a run started `t2 - t1` seconds after
/// another (within one seed period) starts that much lower, so as long as
/// the earlier run handed out no more ids than that, the `j`-th id of the
/// later run differs from the `i`-th id of the earlier one.
pub proof fn lemma_runs_do_not_collide(t1: u64, t2: u64, issued: int, i: int, j: int)
    requires
        t1 <= t2,
        t1 / SEED_PERIOD_SECS == t2 / SEED_PERIOD_SECS,
        issued <= t2 - t1,
        0 <= i < issued,
        0 <= j,
    ensures
        seed_for(t2) - j < seed_for(t1) - i,
{
    vstd::arithmetic::div_mod::lemma_fundamental_div_mod(t1 as int, SEED_PERIOD_SECS as int);
    vstd::arithmetic::div_mod::lemma_fundamental_div_mod(t2 as int, SEED_PERIOD_SECS as int);
}

/// Hands out the next local message id. The counter wraps around like an
/// atomic `fetch_sub`.
pub fn next_local_id(ids: &mut LocalIdAllocator) -> (id: MessageId)
    ensures
        id == old(ids).upcoming(),
        final(ids).upcoming() == (if old(ids).upcoming() == i32::MIN {
            i32::MAX
        } else {
            (old(ids).upcoming() - 1) as i32
        }),
{
    let id = ids.next;
    ids.next = if id == i32::MIN {
        i32::MAX
    } else {
        id - 1
    };
    id
}

/// Two consecutive local ids: the second is strictly below the first, and
/// both are negative, as long as the counter has not run through every
/// negative value.
pub proof fn lemma_local_ids_descend(before: LocalIdAllocator, middle: LocalIdAllocator, first: i32, second: i32)
    requires
        before.upcoming() < 0,
        before.upcoming() > i32::MIN,
        first == before.upcoming(),
        middle.upcoming() == before.upcoming() - 1,
        second == middle.upcoming(),
    ensures
        first < 0,
        second < 0,
        second < first,
{
}

/// The pending local copy of an outgoing text message, written to the
/// database before any network round-trip.
pub fn pending_text_message(
    account_id: AccountId,
    chat_id: ChatId,
    id: MessageId,
    text: String,
    reply_to: Option<MessageId>,
    now: Timestamp,
) -> (m: Message)
    ensures
        m.account_id == account_id,
        m.chat_id == chat_id,
        m.id == id,
        m.sender_id == Some(account_id),
        m.sender_name.is_none(),
        m.text == text,
        m.media.is_none(),
        m.reactions@.len() == 0,
        m.reply_to == reply_to,
        m.date == now,
        !m.edited,
        m.outgoing,
        m.send_state == SendState::Pending,
{
    Message {
        account_id,
        chat_id,
        id,
        sender_id: Some(account_id),
        sender_name: None,
        text,
        media: None,
        reactions: Vec::new(),
        reply_to,
        date: now,
        edited: false,
        outgoing: true,
        send_state: SendState::Pending,
    }
}

/// The pending message after its delivery failed: unchanged except for its
/// send state.
pub fn mark_delivery_failed(local: Message) -> (m: Message)
    ensures
        m.account_id == local.account_id,
        m.chat_id == local.chat_id,
        m.id == local.id,
        m.sender_id == local.sender_id,
        m.sender_name == local.sender_name,
        m.text == local.text,
        m.media == local.media,
        m.reactions == local.reactions,
        m.reply_to == local.reply_to,
        m.date == local.date,
        m.edited == local.edited,
        m.outgoing == local.outgoing,
        m.send_state == SendState::Failed,
{
    let mut failed = local;
    failed.send_state = SendState::Failed;
    failed
}

// ----- history ---------------------------------------------------------------
/// Whether a history page read from the database must be topped up from the
/// network: the first page when it holds fewer than `limit` messages, an
/// older page only when the database has nothing older at all.
pub fn needs_backfill(paging_back: bool, local_len: usize, limit: u32) -> (r: bool)
    ensures
        r == (if paging_back {
            local_len == 0
        } else {
            local_len < limit
        }),
{
    if paging_back {
        local_len == 0
    } else {
        (local_len as u64) < (limit as u64)
    }
}

/// The server-side offset for a backfill: the id of the oldest loaded
/// message, when it is a real (positive) server id.
pub fn backfill_before_id(before: Option<(Timestamp, MessageId)>) -> (r: Option<MessageId>)
    ensures
        r == (match before {
            Some((_, id)) => if id > 0 {
                Some(id)
            } else {
                None
            },
            None => None,
        }),
{
    match before {
        Some((_, id)) => if id > 0 {
            Some(id)
        } else {
            None
        },
        None => None,
    }
}

/// The history cursor built from the two optional halves a caller supplies:
/// present only when both the date and the id are given.
pub fn history_cursor(before_date: Option<Timestamp>, before_id: Option<MessageId>) -> (r: Option<
    (Timestamp, MessageId),
>)
    ensures
        r == (match (before_date, before_id) {
            (Some(d), Some(i)) => Some((d, i)),
            _ => None,
        }),
{
    match (before_date, before_id) {
        (Some(d), Some(i)) => Some((d, i)),
        _ => None,
    }
}

// ----- deleting and reading --------------------------------------------------
/// The ids that exist on the server (positive ids), in their original order.
/// Pending local messages never reached Telegram.
pub open spec fn positive_ids(ids: Seq<MessageId>) -> Seq<MessageId>
    decreases ids.len(),
{
    if ids.len() == 0 {
        Seq::empty()
    } else if ids.last() > 0 {
        positive_ids(ids.drop_last()).push(ids.last())
    } else {
        positive_ids(ids.drop_last())
    }
}

/// The message ids of a deletion that need the server call.
pub fn remote_message_ids(ids: &Vec<MessageId>) -> (r: Vec<MessageId>)
    ensures
        r@ == positive_ids(ids@),
{
    let mut out: Vec<MessageId> = Vec::new();
    let mut i: usize = 0;
    while i < ids.len()
        invariant
            i <= ids.len(),
            out@ == positive_ids(ids@.subrange(0, i as int)),
        decreases ids.len() - i,
    {
        proof {
            assert(ids@.subrange(0, i + 1).drop_last() == ids@.subrange(0, i as int));
        }
        if ids[i] > 0 {
            out.push(ids[i]);
        }
        i = i + 1;
    }
    assert(ids@.subrange(0, ids.len() as int) == ids@);
    out
}

/// Read watermark for a chat: the largest positive id among the given ones,
/// or 0 when there is none.
pub fn read_watermark(ids: &Vec<MessageId>) -> (r: MessageId)
    ensures
        r >= 0,
        r == 0 || ids@.contains(r),
        forall|k: int| 0 <= k < ids@.len() && ids@[k] > 0 ==> ids@[k] <= r,
{
    let mut best: MessageId = 0;
    let mut i: usize = 0;
    while i < ids.len()
        invariant
            i <= ids.len(),
            best >= 0,
            best == 0 || ids@.contains(best),
            forall|k: int| 0 <= k < i && ids@[k] > 0 ==> ids@[k] <= best,
        decreases ids.len() - i,
    {
        if ids[i] > 0 && ids[i] > best {
            best = ids[i];
            proof {
                assert(ids@[i as int] == best);
            }
        }
        i = i + 1;
    }
    best
}

// ----- optimistic reactions ----------------------------------------------------
/// A reaction with the account's own vote withdrawn.
pub open spec fn unchosen(r: Reaction) -> Reaction {
    if r.chosen {
        Reaction { emoji: r.emoji, count: (r.count - 1) as i32, chosen: false }
    } else {
        r
    }
}

/// The reaction list after withdrawing the account's own votes and dropping
/// aggregates that no longer have any reactor.
pub open spec fn withdrawn(rs: Seq<Reaction>) -> Seq<Reaction>
    decreases rs.len(),
{
    if rs.len() == 0 {
        Seq::empty()
    } else {
        let r = unchosen(rs.last());
        if r.count > 0 {
            withdrawn(rs.drop_last()).push(r)
        } else {
            withdrawn(rs.drop_last())
        }
    }
}

/// Whether some reaction in `rs` uses `emoji`.
pub open spec fn has_emoji(rs: Seq<Reaction>, emoji: Seq<char>) -> bool {
    exists|i: int| 0 <= i < rs.len() && rs[i].emoji@ == emoji
}

/// The first index of a reaction using `emoji`.
pub open spec fn first_emoji_index(rs: Seq<Reaction>, emoji: Seq<char>) -> int {
    choose|i: int|
        0 <= i < rs.len() && rs[i].emoji@ == emoji && forall|j: int|
            0 <= j < i ==> rs[j].emoji@ != emoji
}

/// The reaction list after the account's own reaction is set to `emoji`
/// (or cleared when `None`).
pub open spec fn with_own_reaction(rs: Seq<Reaction>, emoji: Option<String>) -> Seq<Reaction> {
    let w = withdrawn(rs);
    match emoji {
        None => w,
        Some(e) => if has_emoji(w, e@) {
            let i = first_emoji_index(w, e@);
            w.update(i, Reaction { emoji: w[i].emoji, count: (w[i].count + 1) as i32, chosen: true })
        } else {
            w.push(Reaction { emoji: e, count: 1, chosen: true })
        },
    }
}

/// What [`apply_own_reaction`] needs to stay within `i32`: no withdrawn vote
/// underflows and the incremented aggregate does not overflow.
pub open spec fn own_reaction_in_range(rs: Seq<Reaction>, emoji: Option<String>) -> bool {
    &&& forall|k: int| 0 <= k < rs.len() && rs[k].chosen ==> rs[k].count > i32::MIN
    &&& match emoji {
        None => true,
        Some(e) => has_emoji(withdrawn(rs), e@) ==> withdrawn(rs)[first_emoji_index(
            withdrawn(rs),
            e@,
        )].count < i32::MAX,
    }
}

proof fn lemma_withdrawn_positive(rs: Seq<Reaction>)
    ensures
        forall|k: int| 0 <= k < withdrawn(rs).len() ==> #[trigger] withdrawn(rs)[k].count > 0,
        forall|k: int| 0 <= k < withdrawn(rs).len() ==> !(#[trigger] withdrawn(rs)[k]).chosen,
    decreases rs.len(),
{
    if rs.len() > 0 {
        lemma_withdrawn_positive(rs.drop_last());
        let w0 = withdrawn(rs.drop_last());
        let r = unchosen(rs.last());
        if r.count > 0 {
            assert(withdrawn(rs) == w0.push(r));
        } else {
            assert(withdrawn(rs) == w0);
        }
    }
}

proof fn lemma_min_emoji_match(rs: Seq<Reaction>, emoji: Seq<char>, i: int)
    requires
        0 <= i < rs.len(),
        rs[i].emoji@ == emoji,
    ensures
        exists|f: int|
            0 <= f <= i && rs[f].emoji@ == emoji && forall|j: int|
                0 <= j < f ==> rs[j].emoji@ != emoji,
    decreases i,
{
    if exists|j: int| 0 <= j < i && rs[j].emoji@ == emoji {
        let j = choose|j: int| 0 <= j < i && rs[j].emoji@ == emoji;
        lemma_min_emoji_match(rs, emoji, j);
    }
}

/// The first reaction using `emoji`, when there is one, is where
/// [`first_emoji_index`] points.
pub proof fn lemma_first_emoji_index(rs: Seq<Reaction>, emoji: Seq<char>)
    requires
        has_emoji(rs, emoji),
    ensures
        0 <= first_emoji_index(rs, emoji) < rs.len(),
        rs[first_emoji_index(rs, emoji)].emoji@ == emoji,
        forall|j: int| 0 <= j < first_emoji_index(rs, emoji) ==> rs[j].emoji@ != emoji,
{
    let i = choose|i: int| 0 <= i < rs.len() && rs[i].emoji@ == emoji;
    lemma_min_emoji_match(rs, emoji, i);
}

/// Optimistic local update of a message's reactions after the account set
/// (`Some`) or cleared (`None`) its reaction.
pub fn apply_own_reaction(reactions: Vec<Reaction>, emoji: Option<String>) -> (r: Vec<Reaction>)
    requires
        own_reaction_in_range(reactions@, emoji),
    ensures
        r@ == with_own_reaction(reactions@, emoji),
{
    let ghost rs = reactions@;
    let mut w: Vec<Reaction> = Vec::new();
    let mut i: usize = 0;
    while i < reactions.len()
        invariant
            i <= reactions.len(),
            rs == reactions@,
            forall|k: int| 0 <= k < rs.len() && rs[k].chosen ==> rs[k].count > i32::MIN,
            w@ == withdrawn(rs.subrange(0, i as int)),
        decreases reactions.len() - i,
    {
        let r = &reactions[i];
        let u = if r.chosen {
            Reaction { emoji: r.emoji.clone(), count: r.count - 1, chosen: false }
        } else {
            r.clone()
        };
        proof {
            assert(u == unchosen(rs[i as int]));
            assert(rs.subrange(0, i + 1).drop_last() == rs.subrange(0, i as int));
            assert(rs.subrange(0, i + 1).last() == rs[i as int]);
        }
        if u.count > 0 {
            w.push(u);
        }
        i = i + 1;
    }
    assert(rs.subrange(0, rs.len() as int) == rs);
    match emoji {
        None => w,
        Some(e) => {
            let mut j: usize = 0;
            let mut found = false;
            while j < w.len() && !found
                invariant
                    j <= w.len(),
                    found ==> j < w.len() && w@[j as int].emoji@ == e@,
                    forall|k: int| 0 <= k < j && !(found && k == j) ==> w@[k].emoji@ != e@,
                decreases w.len() - j, if found { 0int } else { 1int },
            {
                if w[j] .emoji == e {
                    found = true;
                } else {
                    j = j + 1;
                }
            }
            if found {
                proof {
                    assert(has_emoji(w@, e@));
                    lemma_first_emoji_index(w@, e@);
                    let f = first_emoji_index(w@, e@);
                    if f < j {
                        assert(w@[f].emoji@ != e@);
                    }
                    if f > j {
                        assert(w@[j as int].emoji@ != e@);
                    }
                    assert(f == j);
                }
                let old = &w[j];
                let upd = Reaction { emoji: old.emoji.clone(), count: old.count + 1, chosen: true };
                w.set(j, upd);
                w
            } else {
                proof {
                    assert(!has_emoji(w@, e@));
                }
                w.push(Reaction { emoji: e, count: 1, chosen: true });
                w
            }
        },
    }
}

/// Whether no two aggregates of `rs` use the same emoji.
pub open spec fn distinct_emoji(rs: Seq<Reaction>) -> bool {
    forall|a: int, b: int| 0 <= a < b < rs.len() ==> rs[a].emoji@ != rs[b].emoji@
}

/// Every aggregate left after withdrawing uses the emoji of some input
/// aggregate.
proof fn lemma_withdrawn_emoji_from(rs: Seq<Reaction>)
    ensures
        forall|i: int|
            0 <= i < withdrawn(rs).len() ==> exists|k: int|
                0 <= k < rs.len() && rs[k].emoji@ == (#[trigger] withdrawn(rs)[i]).emoji@,
    decreases rs.len(),
{
    if rs.len() > 0 {
        lemma_withdrawn_emoji_from(rs.drop_last());
        let w0 = withdrawn(rs.drop_last());
        assert forall|i: int| 0 <= i < withdrawn(rs).len() implies exists|k: int|
            0 <= k < rs.len() && rs[k].emoji@ == (#[trigger] withdrawn(rs)[i]).emoji@ by {
            if i < w0.len() {
                assert(withdrawn(rs)[i] == w0[i]);
                let k = choose|k: int|
                    0 <= k < rs.drop_last().len() && rs.drop_last()[k].emoji@ == w0[i].emoji@;
                assert(rs[k] == rs.drop_last()[k]);
            } else {
                assert(withdrawn(rs)[i] == unchosen(rs.last()));
                assert(rs[rs.len() - 1] == rs.last());
            }
        }
    }
}

/// Withdrawing the account's votes keeps aggregates distinct by emoji.
proof fn lemma_withdrawn_distinct(rs: Seq<Reaction>)
    requires
        distinct_emoji(rs),
    ensures
        distinct_emoji(withdrawn(rs)),
    decreases rs.len(),
{
    if rs.len() > 0 {
        let d = rs.drop_last();
        assert(distinct_emoji(d)) by {
            assert forall|a: int, b: int| 0 <= a < b < d.len() implies d[a].emoji@ != d[b].emoji@ by {
                assert(d[a] == rs[a] && d[b] == rs[b]);
            }
        }
        lemma_withdrawn_distinct(d);
        lemma_withdrawn_emoji_from(d);
        let w0 = withdrawn(d);
        let r = unchosen(rs.last());
        if r.count > 0 {
            assert forall|a: int, b: int|
                0 <= a < b < w0.push(r).len() implies w0.push(r)[a].emoji@ != w0.push(r)[b].emoji@ by {
                if b < w0.len() {
                    assert(w0.push(r)[a] == w0[a] && w0.push(r)[b] == w0[b]);
                } else {
                    assert(w0.push(r)[a] == w0[a]);
                    let k = choose|k: int| 0 <= k < d.len() && d[k].emoji@ == (#[trigger] w0[a]).emoji@;
                    assert(d[k] == rs[k]);
                    assert(rs[rs.len() - 1] == rs.last());
                }
            }
        }
    }
}

/// Setting the account's reaction joins the existing aggregate of that
/// emoji when there is one: the list keeps its length, that aggregate gains
/// exactly one vote and becomes the account's own, and every other
/// aggregate stays as it was after withdrawing. Only an emoji nobody used
/// yet adds an aggregate, with one vote, at the end. Aggregates distinct by
/// emoji stay distinct.
pub proof fn lemma_own_reaction_joins_aggregate(rs: Seq<Reaction>, e: String)
    requires
        own_reaction_in_range(rs, Some(e)),
    ensures
        (exists|k: int| 0 <= k < withdrawn(rs).len() && withdrawn(rs)[k].emoji@ == e@) ==> {
            &&& with_own_reaction(rs, Some(e)).len() == withdrawn(rs).len()
            &&& exists|i: int|
                0 <= i < withdrawn(rs).len() && withdrawn(rs)[i].emoji@ == e@
                    && with_own_reaction(rs, Some(e))[i].emoji@ == e@
                    && with_own_reaction(rs, Some(e))[i].count == withdrawn(rs)[i].count + 1
                    && with_own_reaction(rs, Some(e))[i].chosen
            &&& forall|k: int|
                0 <= k < withdrawn(rs).len() && withdrawn(rs)[k].emoji@ != e@
                    ==> with_own_reaction(rs, Some(e))[k] == withdrawn(rs)[k]
        },
        !(exists|k: int| 0 <= k < withdrawn(rs).len() && withdrawn(rs)[k].emoji@ == e@) ==> {
            &&& with_own_reaction(rs, Some(e)).len() == withdrawn(rs).len() + 1
            &&& forall|k: int|
                0 <= k < withdrawn(rs).len() ==> with_own_reaction(rs, Some(e))[k]
                    == withdrawn(rs)[k]
            &&& with_own_reaction(rs, Some(e))[withdrawn(rs).len() as int].emoji@ == e@
            &&& with_own_reaction(rs, Some(e))[withdrawn(rs).len() as int].count == 1
            &&& with_own_reaction(rs, Some(e))[withdrawn(rs).len() as int].chosen
        },
        distinct_emoji(rs) ==> distinct_emoji(with_own_reaction(rs, Some(e))),
{
    let w = withdrawn(rs);
    let res = with_own_reaction(rs, Some(e));
    if has_emoji(w, e@) {
        lemma_first_emoji_index(w, e@);
        let i = first_emoji_index(w, e@);
        let up = Reaction { emoji: w[i].emoji, count: (w[i].count + 1) as i32, chosen: true };
        assert(res == w.update(i, up));
        assert(res[i] == up);
        assert(w[i].count < i32::MAX);
        assert(res[i].count == w[i].count + 1);
        assert forall|k: int| 0 <= k < w.len() && w[k].emoji@ != e@ implies res[k] == w[k] by {
            assert(k != i);
        }
        if distinct_emoji(rs) {
            lemma_withdrawn_distinct(rs);
            assert forall|a: int, b: int| 0 <= a < b < res.len() implies res[a].emoji@
                != res[b].emoji@ by {
                assert(res[a].emoji@ == w[a].emoji@);
                assert(res[b].emoji@ == w[b].emoji@);
            }
        }
    } else {
        let nr = Reaction { emoji: e, count: 1, chosen: true };
        assert(res == w.push(nr));
        assert(res[w.len() as int] == nr);
        assert forall|k: int| 0 <= k < w.len() implies res[k] == w[k] by {}
        if distinct_emoji(rs) {
            lemma_withdrawn_distinct(rs);
            assert forall|a: int, b: int| 0 <= a < b < res.len() implies res[a].emoji@
                != res[b].emoji@ by {
                assert(res[a] == w[a]);
                if b < w.len() {
                    assert(res[b] == w[b]);
                }
            }
        }
    }
}

/// After an optimistic reaction update every aggregate has at least one
/// reactor, at most one aggregate is the account's own, and when a reaction
/// was set it is the account's own.
pub proof fn lemma_own_reaction_unique(rs: Seq<Reaction>, emoji: Option<String>)
    requires
        own_reaction_in_range(rs, emoji),
    ensures
        forall|k: int|
            0 <= k < with_own_reaction(rs, emoji).len() ==> #[trigger] with_own_reaction(
                rs,
                emoji,
            )[k].count > 0,
        forall|a: int, b: int|
            0 <= a < b < with_own_reaction(rs, emoji).len() && (#[trigger] with_own_reaction(
                rs,
                emoji,
            )[a]).chosen ==> !(#[trigger] with_own_reaction(rs, emoji)[b]).chosen,
        emoji is None ==> forall|k: int|
            0 <= k < with_own_reaction(rs, emoji).len() ==> !(#[trigger] with_own_reaction(
                rs,
                emoji,
            )[k]).chosen,
        emoji matches Some(e) ==> exists|k: int|
            0 <= k < with_own_reaction(rs, emoji).len() && (#[trigger] with_own_reaction(
                rs,
                emoji,
            )[k]).chosen && with_own_reaction(rs, emoji)[k].emoji@ == e@,
{
    lemma_withdrawn_positive(rs);
    let w = withdrawn(rs);
    match emoji {
        None => {
            assert(with_own_reaction(rs, emoji) == w);
        },
        Some(e) => {
            if has_emoji(w, e@) {
                lemma_first_emoji_index(w, e@);
                let i = first_emoji_index(w, e@);
                let r = with_own_reaction(rs, emoji);
                assert(r[i].chosen && r[i].emoji@ == e@);
            } else {
                let r = with_own_reaction(rs, emoji);
                assert(r[w.len() as int].chosen);
            }
        },
    }
}

// ----- search ---------------------------------------------------------------
/// Whether `s` already holds a message with the same chat and id as `m`.
pub open spec fn has_message_key(s: Seq<Message>, m: Message) -> bool {
    exists|i: int| 0 <= i < s.len() && s[i].chat_id == m.chat_id && s[i].id == m.id
}

/// The remote results that are new: each remote message whose (chat, id)
/// is neither among `known` nor among the remote messages accepted before it.
pub open spec fn fresh_results(known: Seq<Message>, remote: Seq<Message>) -> Seq<Message>
    decreases remote.len(),
{
    if remote.len() == 0 {
        Seq::empty()
    } else {
        let f = fresh_results(known, remote.drop_last());
        if has_message_key(known + f, remote.last()) {
            f
        } else {
            f.push(remote.last())
        }
    }
}

/// Every fresh result is one of the remote messages.
proof fn lemma_fresh_from_remote(known: Seq<Message>, remote: Seq<Message>)
    ensures
        forall|i: int|
            0 <= i < fresh_results(known, remote).len() ==> exists|k: int|
                0 <= k < remote.len() && remote[k] == #[trigger] fresh_results(known, remote)[i],
    decreases remote.len(),
{
    if remote.len() > 0 {
        lemma_fresh_from_remote(known, remote.drop_last());
        let f = fresh_results(known, remote.drop_last());
        assert forall|i: int| 0 <= i < fresh_results(known, remote).len() implies exists|k: int|
            0 <= k < remote.len() && remote[k] == #[trigger] fresh_results(known, remote)[i] by {
            if i < f.len() {
                assert(fresh_results(known, remote)[i] == f[i]);
                let k = choose|k: int| 0 <= k < remote.drop_last().len() && remote.drop_last()[k] == f[i];
                assert(remote[k] == f[i]);
            } else {
                assert(fresh_results(known, remote)[i] == remote.last());
                assert(remote[remote.len() - 1] == remote.last());
            }
        }
    }
}

/// A remote search result is dropped only as a duplicate: when no known
/// message and no earlier remote message has the same chat and the same
/// id, the remote message is among the fresh results.
pub proof fn lemma_new_remote_results_kept(known: Seq<Message>, remote: Seq<Message>, j: int)
    requires
        0 <= j < remote.len(),
        forall|k: int|
            0 <= k < known.len() ==> !(known[k].chat_id == remote[j].chat_id && known[k].id
                == remote[j].id),
        forall|k: int|
            0 <= k < j ==> !(remote[k].chat_id == remote[j].chat_id && remote[k].id == remote[j].id),
    ensures
        fresh_results(known, remote).contains(remote[j]),
    decreases remote.len(),
{
    let f = fresh_results(known, remote.drop_last());
    if j < remote.len() - 1 {
        assert(remote.drop_last()[j] == remote[j]);
        lemma_new_remote_results_kept(known, remote.drop_last(), j);
        let i = choose|i: int| 0 <= i < f.len() && f[i] == remote[j];
        if has_message_key(known + f, remote.last()) {
        } else {
            assert(f.push(remote.last())[i] == remote[j]);
        }
    } else {
        lemma_fresh_from_remote(known, remote.drop_last());
        if has_message_key(known + f, remote.last()) {
            let i = choose|i: int|
                0 <= i < (known + f).len() && (known + f)[i].chat_id == remote.last().chat_id && (known
                    + f)[i].id == remote.last().id;
            if i < known.len() {
                assert((known + f)[i] == known[i]);
            } else {
                assert((known + f)[i] == f[i - known.len()]);
                let k = choose|k: int|
                    0 <= k < remote.drop_last().len() && remote.drop_last()[k] == f[i - known.len()];
                assert(remote[k] == remote.drop_last()[k]);
            }
        }
        assert(fresh_results(known, remote) == f.push(remote.last()));
        assert(f.push(remote.last())[f.len() as int] == remote[j]);
    }
}

/// A fresh result never repeats a known message: no fresh result has the
/// chat and id of a known one.
pub proof fn lemma_fresh_results_not_known(known: Seq<Message>, remote: Seq<Message>, i: int, k: int)
    requires
        0 <= i < fresh_results(known, remote).len(),
        0 <= k < known.len(),
    ensures
        !(fresh_results(known, remote)[i].chat_id == known[k].chat_id && fresh_results(known, remote)[i].id
            == known[k].id),
    decreases remote.len(),
{
    let f = fresh_results(known, remote.drop_last());
    if i < f.len() {
        if has_message_key(known + f, remote.last()) {
        } else {
            assert(fresh_results(known, remote)[i] == f[i]);
        }
        lemma_fresh_results_not_known(known, remote.drop_last(), i, k);
    } else {
        assert(!has_message_key(known + f, remote.last()));
        assert((known + f)[k] == known[k]);
    }
}

/// Whether the offline results leave room for a server-side top-up.
pub fn search_needs_remote(found: usize, limit: u32) -> (r: bool)
    ensures
        r == (found < limit),
{
    (found as u64) < (limit as u64)
}

fn contains_message_key(s: &Vec<Message>, m: &Message) -> (r: bool)
    ensures
        r == has_message_key(s@, *m),
{
    let mut i: usize = 0;
    while i < s.len()
        invariant
            i <= s.len(),
            forall|k: int| 0 <= k < i ==> !(s@[k].chat_id == m.chat_id && s@[k].id == m.id),
        decreases s.len() - i,
    {
        if s[i].chat_id == m.chat_id && s[i].id == m.id {
            return true;
        }
        i = i + 1;
    }
    false
}

/// The server results worth keeping: those not already found offline and
/// not repeated within the server answer. The caller persists each of them.
pub fn fresh_remote_results(known: &Vec<Message>, remote: Vec<Message>) -> (r: Vec<Message>)
    ensures
        r@ == fresh_results(known@, remote@),
{
    let ghost orig = remote@;
    let mut rest = remote;
    assert(orig.len() == rest.len());
    let mut fresh: Vec<Message> = Vec::new();
    let mut i: usize = 0;
    while rest.len() > 0
        invariant
            i <= orig.len(),
            rest@ == orig.subrange(i as int, orig.len() as int),
            rest@.len() + i == orig.len(),
            orig.len() <= usize::MAX,
            fresh@ == fresh_results(known@, orig.subrange(0, i as int)),
        decreases rest.len(),
    {
        let m = rest.remove(0);
        proof {
            assert(m == orig[i as int]);
            assert(orig.subrange(0, i + 1).drop_last() == orig.subrange(0, i as int));
            assert(orig.subrange(0, i + 1).last() == orig[i as int]);
            assert(rest@ == orig.subrange(i + 1, orig.len() as int));
        }
        let seen = contains_message_key(known, &m) || contains_message_key(&fresh, &m);
        proof {
            let f = fresh@;
            let kf = known@ + f;
            if has_message_key(kf, m) {
                let k = choose|k: int| 0 <= k < kf.len() && kf[k].chat_id == m.chat_id && kf[k].id == m.id;
                if k >= known@.len() {
                    assert(f[k - known@.len()] == kf[k]);
                    assert(has_message_key(f, m));
                } else {
                    assert(known@[k] == kf[k]);
                    assert(has_message_key(known@, m));
                }
            }
            if has_message_key(f, m) {
                let k = choose|k: int| 0 <= k < f.len() && f[k].chat_id == m.chat_id && f[k].id == m.id;
                assert(kf[known@.len() + k] == f[k]);
                assert(has_message_key(kf, m));
            }
            if has_message_key(known@, m) {
                let k = choose|k: int| 0 <= k < known@.len() && known@[k].chat_id == m.chat_id && known@[k].id == m.id;
                assert(kf[k] == known@[k]);
                assert(has_message_key(kf, m));
            }
        }
        if !seen {
            fresh.push(m);
        }
        i = i + 1;
    }
    assert(orig.subrange(0, orig.len() as int) == orig);
    fresh
}

/// The first position at or after `j` whose message is older than `date`:
/// where a message of that date goes in a newest-first list, after every
/// message of the same date.
pub open spec fn insert_pos_from(s: Seq<Message>, date: Timestamp, j: int) -> int
    decreases s.len() - j,
{
    if 0 <= j < s.len() && s[j].date >= date {
        insert_pos_from(s, date, j + 1)
    } else {
        j
    }
}

/// `s` in newest-first order; messages of equal date keep their relative
/// order (a stable sort by descending date).
pub open spec fn newest_first(s: Seq<Message>) -> Seq<Message>
    decreases s.len(),
{
    if s.len() == 0 {
        Seq::empty()
    } else {
        let t = newest_first(s.drop_last());
        t.insert(insert_pos_from(t, s.last().date, 0), s.last())
    }
}

/// Whether `s` is ordered newest first.
pub open spec fn is_newest_first(s: Seq<Message>) -> bool {
    forall|a: int, b: int| 0 <= a < b < s.len() ==> s[a].date >= s[b].date
}

proof fn lemma_insert_pos(s: Seq<Message>, date: Timestamp, j: int)
    requires
        0 <= j <= s.len(),
    ensures
        j <= insert_pos_from(s, date, j) <= s.len(),
        forall|k: int| j <= k < insert_pos_from(s, date, j) ==> #[trigger] s[k].date >= date,
        insert_pos_from(s, date, j) < s.len() ==> s[insert_pos_from(s, date, j)].date < date,
    decreases s.len() - j,
{
    if j < s.len() && s[j].date >= date {
        lemma_insert_pos(s, date, j + 1);
    } else {
        assert(insert_pos_from(s, date, j) == j);
    }
}

/// Ranking yields a newest-first list with one entry per input message.
pub proof fn lemma_newest_first_sorted(s: Seq<Message>)
    ensures
        newest_first(s).len() == s.len(),
        is_newest_first(newest_first(s)),
    decreases s.len(),
{
    if s.len() > 0 {
        lemma_newest_first_sorted(s.drop_last());
        let t = newest_first(s.drop_last());
        let m = s.last();
        lemma_insert_pos(t, m.date, 0);
        let p = insert_pos_from(t, m.date, 0);
        let u = t.insert(p, m);
        assert forall|a: int, b: int| 0 <= a < b < u.len() implies u[a].date >= u[b].date by {
            if b < p {
            } else if b == p {
                assert(u[a] == t[a]);
            } else if a == p {
                assert(u[b] == t[b - 1]);
                if b - 1 > p {
                    assert(t[p].date >= t[b - 1].date);
                }
            } else if a < p {
                assert(u[a] == t[a]);
                assert(u[b] == t[b - 1]);
            } else {
                assert(u[a] == t[a - 1]);
                assert(u[b] == t[b - 1]);
            }
        }
    }
}

/// The final search answer: offline results and new server results merged
/// newest first, cut to `limit` entries.
pub fn rank_search_results(results: Vec<Message>, fresh: Vec<Message>, limit: usize) -> (r: Vec<
    Message,
>)
    ensures
        r@ == newest_first(results@ + fresh@).take(
            if limit < results@.len() + fresh@.len() {
                limit as int
            } else {
                (results@.len() + fresh@.len()) as int
            },
        ),
{
    let ghost all = results@ + fresh@;
    let mut pending = results;
    let mut more = fresh;
    pending.append(&mut more);
    assert(pending@ == all);
    assert(all.len() == pending.len());
    let mut out: Vec<Message> = Vec::new();
    let mut i: usize = 0;
    while pending.len() > 0
        invariant
            i <= all.len(),
            pending@ == all.subrange(i as int, all.len() as int),
            pending@.len() + i == all.len(),
            all.len() <= usize::MAX,
            out@ == newest_first(all.subrange(0, i as int)),
        decreases pending.len(),
    {
        let m = pending.remove(0);
        proof {
            assert(m == all[i as int]);
            assert(all.subrange(0, i + 1).drop_last() == all.subrange(0, i as int));
            assert(all.subrange(0, i + 1).last() == all[i as int]);
            assert(pending@ == all.subrange(i + 1, all.len() as int));
            lemma_newest_first_sorted(all.subrange(0, i as int));
        }
        let mut pos: usize = 0;
        while pos < out.len() && out[pos].date >= m.date
            invariant
                pos <= out.len(),
                insert_pos_from(out@, m.date, pos as int) == insert_pos_from(out@, m.date, 0),
            decreases out.len() - pos,
        {
            pos = pos + 1;
        }
        out.insert(pos, m);
        i = i + 1;
    }
    assert(all.subrange(0, all.len() as int) == all);
    proof {
        lemma_newest_first_sorted(all);
    }
    out.truncate(limit);
    out
}

/// A transfer progress report: done once the whole (known, non-zero) size
/// has arrived.
pub fn transfer_progress(cache_key: String, transferred: i64, total: i64) -> (p: TransferProgress)
    ensures
        p.cache_key == cache_key,
        p.transferred_bytes == transferred,
        p.total_bytes == total,
        p.done == (transferred >= total && total > 0),
{
    TransferProgress {
        cache_key,
        transferred_bytes: transferred,
        total_bytes: total,
        done: transferred >= total && total > 0,
    }
}

/// Cache key of a user's profile photo, keyed by user id.
pub fn user_avatar_cache_key(user_id: UserId) -> (k: String)
    ensures
        k@ == "uavatar-"@ + decimal(user_id as int),
{
    with_decimal_suffix("uavatar-", user_id)
}

/// The events announcing a delivered message: the pending local row is
/// gone, and the server's message (as re-keyed in the database, or as the
/// server returned it when the database has no row) is added.
pub fn delivery_events(local: &Message, confirmed: Option<Message>, sent: Message) -> (r: (
    crate::event::CoreEvent,
    crate::event::CoreEvent,
))
    ensures
        r.0 matches crate::event::CoreEvent::MessageDeleted { account_id, chat_id, message_ids }
            && account_id == local.account_id && chat_id == local.chat_id && message_ids@ == seq![
            local.id,
        ],
        r.1 matches crate::event::CoreEvent::MessageAdded { message } && message == (match confirmed {
            Some(c) => c,
            None => sent,
        }),
{
    let mut ids: Vec<MessageId> = Vec::new();
    ids.push(local.id);
    let deleted = crate::event::CoreEvent::MessageDeleted {
        account_id: local.account_id,
        chat_id: local.chat_id,
        message_ids: ids,
    };
    let message = match confirmed {
        Some(c) => c,
        None => sent,
    };
    (deleted, crate::event::CoreEvent::MessageAdded { message })
}

} // verus!

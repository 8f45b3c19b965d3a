use telegram_gui::event::{notification_for, CoreEvent};
use telegram_gui::model::{Chat, ChatKind, LoginStage, Media, Message, Presence, Reaction, SendState, SyncState};
use telegram_gui::services::{
    apply_own_reaction, backfill_before_id, delivery_events, fresh_remote_results, history_cursor,
    mark_delivery_failed, needs_backfill, next_local_id, pending_text_message, rank_search_results,
    read_watermark, remote_message_ids, search_needs_remote, transfer_progress,
    user_avatar_cache_key, local_id_seed, LocalIdAllocator,
};
use telegram_gui::store::{fts_match_query, CachedUser};

fn msg(chat_id: i64, id: i32, text: &str, date: i64) -> Message {
    Message {
        account_id: 1,
        chat_id,
        id,
        sender_id: Some(7),
        sender_name: Some("Alice".into()),
        text: text.into(),
        media: None,
        reactions: vec![],
        reply_to: None,
        date,
        edited: false,
        outgoing: false,
        send_state: SendState::Sent,
    }
}

fn reaction(emoji: &str, count: i32, chosen: bool) -> Reaction {
    Reaction { emoji: emoji.into(), count, chosen }
}

#[test]
fn local_ids_count_down_from_seed() {
    let mut ids = LocalIdAllocator::new(-1);
    assert_eq!(next_local_id(&mut ids), -1);
    assert_eq!(next_local_id(&mut ids), -2);
    assert_eq!(next_local_id(&mut ids), -3);
    let mut later_run = LocalIdAllocator::new(-1_700_000_001);
    assert_eq!(next_local_id(&mut later_run), -1_700_000_001);
    assert_eq!(next_local_id(&mut later_run), -1_700_000_002);
}

#[test]
fn pending_message_then_failure() {
    let local = pending_text_message(1, 100, -1, "hello".into(), Some(5), 1_000);
    assert_eq!(local.send_state, SendState::Pending);
    assert!(local.outgoing);
    assert_eq!(local.sender_id, Some(1));
    assert_eq!(local.reply_to, Some(5));
    let failed = mark_delivery_failed(local.clone());
    assert_eq!(failed.send_state, SendState::Failed);
    assert_eq!(failed.text, "hello");
    assert_eq!(failed.id, -1);
}

#[test]
fn delivery_replaces_the_pending_row() {
    let local = pending_text_message(1, 100, -3, "hi".into(), None, 1_000);
    let sent = msg(100, 555, "hi", 2_000);
    let (deleted, added) = delivery_events(&local, None, sent.clone());
    assert_eq!(
        deleted,
        CoreEvent::MessageDeleted { account_id: 1, chat_id: 100, message_ids: vec![-3] }
    );
    assert_eq!(added, CoreEvent::MessageAdded { message: sent });
}

#[test]
fn backfill_decisions() {
    assert!(needs_backfill(false, 1, 50));
    assert!(!needs_backfill(false, 50, 50));
    assert!(needs_backfill(true, 0, 50));
    assert!(!needs_backfill(true, 3, 50));
    assert_eq!(backfill_before_id(Some((10, 42))), Some(42));
    assert_eq!(backfill_before_id(Some((10, -42))), None);
    assert_eq!(backfill_before_id(None), None);
    assert_eq!(history_cursor(Some(5), Some(9)), Some((5, 9)));
    assert_eq!(history_cursor(Some(5), None), None);
    assert_eq!(history_cursor(None, Some(9)), None);
}

#[test]
fn deletion_and_read_watermark() {
    assert_eq!(remote_message_ids(&vec![5, -1, 7, -2]), vec![5, 7]);
    assert_eq!(read_watermark(&vec![3, -4, 9, 2]), 9);
    assert_eq!(read_watermark(&vec![-4, -5]), 0);
    assert_eq!(read_watermark(&vec![]), 0);
}

#[test]
fn own_reaction_replaces_previous_choice() {
    let rs = vec![reaction("👍", 3, true), reaction("❤", 1, false)];
    let after = apply_own_reaction(rs, Some("❤".into()));
    assert_eq!(after, vec![reaction("👍", 2, false), reaction("❤", 2, true)]);
}

#[test]
fn own_reaction_cleared_drops_empty_aggregates() {
    let rs = vec![reaction("👍", 1, true), reaction("🔥", 4, false)];
    let after = apply_own_reaction(rs, None);
    assert_eq!(after, vec![reaction("🔥", 4, false)]);
}

#[test]
fn own_reaction_new_emoji_is_appended() {
    let after = apply_own_reaction(vec![reaction("🔥", 4, false)], Some("🎉".into()));
    assert_eq!(after, vec![reaction("🔥", 4, false), reaction("🎉", 1, true)]);
}

#[test]
fn search_merge_dedups_sorts_and_truncates() {
    let local = vec![msg(100, 1, "a", 50), msg(100, 2, "b", 10)];
    assert!(search_needs_remote(local.len(), 3));
    assert!(!search_needs_remote(3, 3));
    let remote = vec![msg(100, 2, "b", 10), msg(200, 9, "c", 30), msg(200, 9, "c", 30), msg(300, 4, "d", 60)];
    let fresh = fresh_remote_results(&local, remote);
    assert_eq!(fresh.iter().map(|m| (m.chat_id, m.id)).collect::<Vec<_>>(), vec![(200, 9), (300, 4)]);
    let ranked = rank_search_results(local, fresh, 3);
    assert_eq!(ranked.iter().map(|m| m.id).collect::<Vec<_>>(), vec![4, 1, 9]);
}

#[test]
fn ranking_is_stable_for_equal_dates() {
    let ranked = rank_search_results(vec![msg(1, 1, "", 5), msg(1, 2, "", 5)], vec![msg(1, 3, "", 5)], 10);
    assert_eq!(ranked.iter().map(|m| m.id).collect::<Vec<_>>(), vec![1, 2, 3]);
}

#[test]
fn progress_reports_done_at_full_size() {
    let p = transfer_progress("k".into(), 10, 20);
    assert!(!p.done);
    assert!(transfer_progress("k".into(), 20, 20).done);
    assert!(!transfer_progress("k".into(), 0, 0).done);
}

#[test]
fn avatar_keys() {
    assert_eq!(user_avatar_cache_key(77), "uavatar-77");
    assert_eq!(user_avatar_cache_key(0), "uavatar-0");
}

#[test]
fn fts_query_quotes_terms() {
    assert_eq!(fts_match_query("quick fox").as_deref(), Some("\"quick\" \"fox\""));
    assert_eq!(fts_match_query("\"dog OR").as_deref(), Some("\"\"\"dog\" \"OR\""));
    assert_eq!(fts_match_query("   \t "), None);
    assert_eq!(fts_match_query(""), None);
}

#[test]
fn display_name_joins_names() {
    let mut user = CachedUser {
        account_id: 1,
        id: 7,
        first_name: "Alice".into(),
        last_name: Some("A".into()),
        username: None,
        presence: Some(Presence::Online),
    };
    assert_eq!(user.display_name(), "Alice A");
    user.last_name = None;
    assert_eq!(user.display_name(), "Alice");
}

#[test]
fn events_know_their_account() {
    let chat = Chat {
        account_id: 9,
        id: 3,
        kind: ChatKind::Group,
        title: "chat 3".into(),
        username: None,
        unread_count: 0,
        pinned: false,
        last_message_at: None,
        last_message_preview: None,
        avatar_key: None,
    };
    assert_eq!(CoreEvent::ChatUpdated { chat }.account_id(), Some(9));
    assert_eq!(CoreEvent::SyncStateChanged { account_id: 4, state: SyncState::Connecting }.account_id(), Some(4));
    assert_eq!(CoreEvent::Login { account_id: None, stage: LoginStage::CodeSent }.account_id(), None);
    assert_eq!(CoreEvent::MessageAdded { message: msg(1, 1, "x", 0) }.account_id(), Some(1));
}

#[test]
fn notifications_for_incoming_messages_only() {
    let incoming = CoreEvent::MessageAdded { message: msg(1, 1, "hello", 0) };
    assert_eq!(notification_for(&incoming), Some(("Alice".to_string(), "hello".to_string())));

    let mut m = msg(1, 2, "", 0);
    m.sender_name = None;
    m.media = Some(Media::Photo { cache_key: "p".into(), width: 1, height: 1 });
    assert_eq!(
        notification_for(&CoreEvent::MessageAdded { message: m }),
        Some(("New message".to_string(), "📎 Attachment".to_string()))
    );

    let long: String = "é".repeat(200);
    let (_, body) = notification_for(&CoreEvent::MessageAdded { message: msg(1, 3, &long, 0) }).expect("notify");
    assert_eq!(body.chars().count(), 140);

    let mut out = msg(1, 4, "mine", 0);
    out.outgoing = true;
    assert_eq!(notification_for(&CoreEvent::MessageAdded { message: out }), None);
    assert_eq!(notification_for(&CoreEvent::LoggedOut { account_id: 1 }), None);
}

#[test]
fn later_runs_start_lower() {
    assert_eq!(local_id_seed(0), -1);
    assert_eq!(local_id_seed(1_700_000_000), -1_700_000_001);
    assert_eq!(local_id_seed(1_700_000_060), -1_700_000_061);
    assert_eq!(local_id_seed(2_000_000_000), -1);
    assert!(local_id_seed(u64::MAX) < 0);
}

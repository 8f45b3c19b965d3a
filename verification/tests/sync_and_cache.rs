use telegram_gui::blob::{blob_location, encrypt_blob, open_blob, open_cache_key, seal_blob, BlobStat, CacheKey, Eviction};
use telegram_gui::errors::{CacheError, RpcFailure, TgError};
use telegram_gui::format::{avatar_data_url, data_url, qr_login_url};
use telegram_gui::login::{active_reactions, qr_wait_millis, reported_total, AvailableReaction, LoginTokens, QR_EXPIRED_WAIT_MS};
use telegram_gui::model::{ChatKind, Media, Message, SendState};
use telegram_gui::session::{apply_update_state, ChannelState, UpdateState, UpdatesState};
use telegram_gui::store::{kind_from_str, kind_to_str, send_state_from_str, send_state_to_str, is_channel_chat};
use telegram_gui::sync::{
    after_cycle, counts_as_unread, cycle_end_for, group_deletions_by_chat, media_preview,
    message_preview, unread_after_new_message, Backoff, CycleEnd, SyncAction,
};
use telegram_gui::text::{is_blank, split_words, trim};
use telegram_gui::secrets::MemorySecretStore;

fn rpc(name: &str) -> TgError {
    TgError::Invocation { rpc: Some(RpcFailure { code: 401, name: name.into() }), detail: String::new() }
}

fn message_with(text: &str, media: Option<Media>) -> Message {
    Message {
        account_id: 1,
        chat_id: 2,
        id: 3,
        sender_id: None,
        sender_name: None,
        text: text.into(),
        media,
        reactions: vec![],
        reply_to: None,
        date: 0,
        edited: false,
        outgoing: false,
        send_state: SendState::Sent,
    }
}

#[test]
fn backoff_doubles_up_to_the_cap() {
    let mut b = Backoff::new(2, 10);
    let end = CycleEnd::Disconnected("net".into());
    let delays: Vec<u64> = (0..5)
        .map(|_| match after_cycle(&mut b, &end) {
            SyncAction::RetryAfter(d) => d,
            SyncAction::StopLoggedOut => panic!("not logged out"),
        })
        .collect();
    assert_eq!(delays, vec![2, 4, 8, 10, 10]);
    assert_eq!(after_cycle(&mut b, &CycleEnd::LoggedOut), SyncAction::StopLoggedOut);
    let mut zero = Backoff::new(0, 0);
    assert_eq!(zero.next_delay(), 1);
    assert_eq!(zero.next_delay(), 1);
}

#[test]
fn revoked_sessions_end_the_sync() {
    assert!(TgError::NotAuthorized.is_auth_revoked());
    assert!(rpc("SESSION_REVOKED").is_auth_revoked());
    assert!(rpc("AUTH_KEY_UNREGISTERED").is_auth_revoked());
    assert!(!rpc("FLOOD_WAIT").is_auth_revoked());
    assert!(!TgError::Io("disk".into()).is_auth_revoked());
    assert!(rpc("PHONE_CODE_INVALID").is_rpc("PHONE_CODE_*"));
    assert!(rpc("PHONE_CODE_INVALID").is_rpc("*_INVALID"));
    assert!(!rpc("PHONE_CODE_INVALID").is_rpc("PHONE_CODE"));
    assert_eq!(cycle_end_for(&TgError::NotAuthorized, "x".into()), CycleEnd::LoggedOut);
    assert_eq!(cycle_end_for(&rpc("FLOOD_WAIT"), "slow".into()), CycleEnd::Disconnected("slow".into()));
}

#[test]
fn previews_describe_media() {
    assert_eq!(message_preview(&message_with("hi", None)), "hi");
    let photo = Media::Photo { cache_key: "k".into(), width: 1, height: 1 };
    assert_eq!(media_preview(&message_with("", Some(photo))), "📷 Photo");
    let sticker = Media::Sticker { cache_key: "k".into(), emoji: "😀".into() };
    assert_eq!(message_preview(&message_with("", Some(sticker))), "😀 Sticker");
    let doc = Media::Document { cache_key: "k".into(), file_name: "a.pdf".into(), mime_type: "x".into(), size_bytes: 1 };
    assert_eq!(message_preview(&message_with("", Some(doc))), "📎 a.pdf");
    let other = Media::Other { description: "📊 Poll".into() };
    assert_eq!(message_preview(&message_with("", Some(other))), "📊 Poll");
    assert_eq!(message_preview(&message_with("", None)), "");
}

#[test]
fn unread_counting() {
    let m = message_with("x", None);
    assert!(counts_as_unread(&m, false));
    assert!(!counts_as_unread(&m, true));
    let mut out = message_with("x", None);
    out.outgoing = true;
    assert!(!counts_as_unread(&out, false));
    assert_eq!(unread_after_new_message(4), 5);
}

#[test]
fn deletions_grouped_per_chat() {
    let groups = group_deletions_by_chat(&vec![(10, 1), (20, 2), (10, 3)]);
    assert_eq!(groups, vec![(10, vec![1, 3]), (20, vec![2])]);
    assert!(group_deletions_by_chat(&vec![]).is_empty());
}

#[test]
fn blob_paths_shard_by_digest() {
    let (shard, file) = blob_location("photo:1");
    assert_eq!(shard.len(), 2);
    assert_eq!(file.len(), 64 + 4);
    assert!(file.starts_with(&shard));
    assert!(file.ends_with(".bin"));
    // sha256("abc")
    let (shard, file) = blob_location("abc");
    assert_eq!(shard, "ba");
    assert_eq!(file, "ba7816bf8f01cfea414140de5dae2223b00361a396177a9cb410ff61f20015ad.bin");
}

#[test]
fn sealed_blob_roundtrip_hides_plaintext() {
    let key = CacheKey::from_bytes(vec![7u8; 32]).expect("key");
    let nonce = [1u8; 12];
    let contents = seal_blob(&key, &nonce, b"jpeg bytes").expect("seal");
    assert_eq!(&contents[..12], &nonce);
    assert!(!contents.windows(b"jpeg bytes".len()).any(|w| w == b"jpeg bytes"));
    assert_eq!(open_blob(&key, &contents).expect("open"), b"jpeg bytes");

    let other = CacheKey::from_bytes(vec![8u8; 32]).expect("key");
    assert_eq!(open_blob(&other, &contents), Err(CacheError::Decrypt));
    assert_eq!(open_blob(&key, &contents[..5]), Err(CacheError::Decrypt));
    assert!(matches!(CacheKey::from_bytes(vec![0u8; 31]), Err(CacheError::BadKey)));

    // A fresh nonce per blob: the same data seals to different files.
    let a = encrypt_blob(&key, b"jpeg bytes").expect("seal");
    let b = encrypt_blob(&key, b"jpeg bytes").expect("seal");
    assert_ne!(a, b);
    assert_eq!(open_blob(&key, &a).expect("open"), b"jpeg bytes");
    assert_eq!(open_blob(&key, &b).expect("open"), b"jpeg bytes");
}

#[test]
fn eviction_removes_oldest_until_within_budget() {
    let blobs = vec![
        BlobStat { size: 1052, modified: 2_000 },
        BlobStat { size: 1052, modified: 1_000 },
        BlobStat { size: 10, modified: 1_000 },
    ];
    let mut eviction = Eviction::new(blobs, 1500);
    let first = eviction.next_victim();
    assert_eq!(first, Some(1));
    eviction.record_removal(1, true);
    // 1062 bytes remain: within budget.
    assert_eq!(eviction.next_victim(), None);
    assert_eq!(eviction.evicted_count(), 1);

    // A failed removal moves on to the next oldest.
    let mut again = Eviction::new(
        vec![BlobStat { size: 900, modified: 1 }, BlobStat { size: 900, modified: 2 }],
        1000,
    );
    assert_eq!(again.next_victim(), Some(0));
    again.record_removal(0, false);
    assert_eq!(again.next_victim(), Some(1));
    again.record_removal(1, true);
    assert_eq!(again.next_victim(), None);
    assert_eq!(again.evicted_count(), 1);
}

#[test]
fn update_state_merges_deltas() {
    let mut state = UpdatesState { pts: 1, qts: 2, date: 3, seq: 4, channels: vec![] };
    apply_update_state(&mut state, UpdateState::Primary { pts: 10, date: 30, seq: 40 });
    assert_eq!((state.pts, state.qts, state.date, state.seq), (10, 2, 30, 40));
    apply_update_state(&mut state, UpdateState::Secondary { qts: 20 });
    assert_eq!(state.qts, 20);
    apply_update_state(&mut state, UpdateState::Channel { id: 5, pts: 1 });
    apply_update_state(&mut state, UpdateState::Channel { id: 6, pts: 2 });
    apply_update_state(&mut state, UpdateState::Channel { id: 5, pts: 9 });
    assert_eq!(state.channels, vec![ChannelState { id: 5, pts: 9 }, ChannelState { id: 6, pts: 2 }]);
    apply_update_state(&mut state, UpdateState::All(UpdatesState { pts: 0, qts: 0, date: 0, seq: 0, channels: vec![] }));
    assert!(state.channels.is_empty());
}

#[test]
fn stored_codes_roundtrip() {
    for kind in [ChatKind::Private, ChatKind::Group, ChatKind::Channel] {
        assert_eq!(kind_from_str(kind_to_str(kind)), kind);
    }
    assert_eq!(kind_from_str("bogus"), ChatKind::Private);
    for state in [SendState::Pending, SendState::Sent, SendState::Failed] {
        assert_eq!(send_state_from_str(send_state_to_str(state)), state);
    }
    assert_eq!(send_state_from_str("bogus"), SendState::Sent);
    assert!(is_channel_chat(-1_000_000_000_001));
    assert!(!is_channel_chat(-42));
}

#[test]
fn data_and_qr_urls() {
    assert_eq!(data_url(Some("image/png"), b"hi"), "data:image/png;base64,aGk=");
    assert_eq!(data_url(None, b"abc"), "data:application/octet-stream;base64,YWJj");
    assert_eq!(avatar_data_url(b"a"), "data:image/jpeg;base64,YQ==");
    assert_eq!(qr_login_url(&[0xfb, 0xff]), "tg://login?token=-_8");
}

#[test]
fn login_tokens_allow_retry() {
    let mut tokens: LoginTokens<u32, &str> = LoginTokens::awaiting_code(7);
    let t = tokens.take_code_token().expect("code");
    assert_eq!(t, 7);
    assert!(tokens.take_code_token().is_err());
    tokens.restore_code_token(t);
    assert_eq!(tokens.take_code_token().expect("retry"), 7);
    assert!(tokens.take_password_token().is_err());
    tokens.await_password("hint");
    assert_eq!(tokens.take_password_token().expect("password"), "hint");
    let mut empty: LoginTokens<u32, u32> = LoginTokens::empty();
    assert!(empty.take_code_token().is_err());
}

#[test]
fn offered_reactions_skip_inactive_and_premium() {
    let list = vec![
        AvailableReaction { emoji: "👍".into(), inactive: false, premium: false },
        AvailableReaction { emoji: "🦄".into(), inactive: false, premium: true },
        AvailableReaction { emoji: "💤".into(), inactive: true, premium: false },
        AvailableReaction { emoji: "❤".into(), inactive: false, premium: false },
    ];
    assert_eq!(active_reactions(&list), vec!["👍".to_string(), "❤".to_string()]);
    assert_eq!(reported_total(100, 20), 100);
    assert_eq!(reported_total(0, 20), 20);
}

#[test]
fn text_helpers() {
    assert_eq!(trim("  +46 700\u{3000}"), "+46 700");
    assert_eq!(trim("   "), "");
    assert!(is_blank(" \n\t"));
    assert!(!is_blank(" a "));
    assert_eq!(split_words(" a  bb\tc "), vec!["a".to_string(), "bb".to_string(), "c".to_string()]);
}

#[test]
fn key_persists_across_reopen() {
    let mut store = MemorySecretStore::new();
    let k1 = open_cache_key(&mut store).expect("open");
    let contents = encrypt_blob(&k1, b"data").expect("put");
    drop(k1);
    // The same secret store gives the same key, so old blobs stay readable.
    let k2 = open_cache_key(&mut store).expect("reopen");
    assert_eq!(open_blob(&k2, &contents).as_deref(), Ok(&b"data"[..]));
}

#[test]
fn wrong_key_fails_decryption() {
    let mut s1 = MemorySecretStore::new();
    let k1 = open_cache_key(&mut s1).expect("open");
    let contents = encrypt_blob(&k1, b"data").expect("put");
    // A fresh secret store generates another key.
    let mut s2 = MemorySecretStore::new();
    let k2 = open_cache_key(&mut s2).expect("open");
    assert!(matches!(open_blob(&k2, &contents), Err(CacheError::Decrypt)));
}

#[test]
fn eviction_removes_oldest_first() {
    // Two blobs of 1 KiB payload plus framing, over a 1500-byte budget.
    let size = (12 + 1024 + 16) as u64;
    let blobs = vec![
        BlobStat { size, modified: 1_000_000_000 },
        BlobStat { size, modified: 2_100_000_000 },
    ];
    let mut eviction = Eviction::new(blobs, 1500);
    let mut removed = Vec::new();
    while let Some(i) = eviction.next_victim() {
        removed.push(i);
        eviction.record_removal(i, true);
    }
    assert_eq!(eviction.evicted_count(), 1);
    assert_eq!(removed, vec![0]);
}

#[test]
fn qr_wait_until_expiry_or_fallback() {
    assert_eq!(qr_wait_millis(61_000, 1_000), 60_000);
    assert_eq!(qr_wait_millis(1_000, 1_000), 0);
    assert_eq!(qr_wait_millis(1_000, 2_000), 30_000);
    assert_eq!(QR_EXPIRED_WAIT_MS, 30_000);
    assert_eq!(qr_wait_millis(i64::MAX, i64::MIN), u64::MAX);
}

#[test]
fn sealed_file_length_is_nonce_data_tag() {
    let key = CacheKey::from_bytes(vec![7u8; 32]).expect("key");
    let contents = seal_blob(&key, &[1u8; 12], b"jpeg bytes").expect("seal");
    assert_eq!(contents.len(), 12 + 10 + 16);
    let fresh = encrypt_blob(&key, b"").expect("seal");
    assert_eq!(fresh.len(), 12 + 16);
}

#[test]
fn deletion_groups_keep_first_appearance_order() {
    let groups = group_deletions_by_chat(&vec![(30, 1), (10, 2), (30, 3), (20, 4), (10, 5)]);
    assert_eq!(groups, vec![(30, vec![1, 3]), (10, vec![2, 5]), (20, vec![4])]);
}

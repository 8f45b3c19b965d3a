use telegram_gui::errors::{CoreError, RpcFailure, TgError};
use telegram_gui::event::{ApiEvent, CoreEvent};
use telegram_gui::login::{login_token_decision, qr_step, LoginTokenKind, QrAction, QrStepKind, TokenDecision};
use telegram_gui::model::{Chat, ChatKind, LoginStage, Message, SendState, SyncState};
use telegram_gui::secrets::KeychainSecretStore;
use telegram_gui::sync::{cycle_step, events_after_write, CycleAction, CycleEnd, CycleOutcome, CyclePhase};

fn message(id: i32) -> Message {
    Message {
        account_id: 1,
        chat_id: 2,
        id,
        sender_id: Some(7),
        sender_name: None,
        text: "hi".into(),
        media: None,
        reactions: vec![],
        reply_to: None,
        date: 1_000,
        edited: false,
        outgoing: false,
        send_state: SendState::Sent,
    }
}

fn chat() -> Chat {
    Chat {
        account_id: 1,
        id: 2,
        kind: ChatKind::Private,
        title: "Alice".into(),
        username: None,
        unread_count: 1,
        pinned: false,
        last_message_at: Some(1_000),
        last_message_preview: Some("hi".into()),
        avatar_key: None,
    }
}

fn rpc(name: &str) -> TgError {
    TgError::Invocation { rpc: Some(RpcFailure { code: 401, name: name.into() }), detail: String::new() }
}

#[test]
fn stored_update_publishes_chat_then_message() {
    let events = events_after_write(1, ApiEvent::MessageNew(message(5)), true, Some(chat()), vec![]);
    assert_eq!(events, vec![CoreEvent::ChatUpdated { chat: chat() }, CoreEvent::MessageAdded { message: message(5) }]);
    let events = events_after_write(1, ApiEvent::MessageNew(message(5)), true, None, vec![]);
    assert_eq!(events, vec![CoreEvent::MessageAdded { message: message(5) }]);
    let events = events_after_write(1, ApiEvent::MessageEdited(message(5)), true, None, vec![]);
    assert_eq!(events, vec![CoreEvent::MessageUpdated { message: message(5) }]);
}

#[test]
fn failed_write_publishes_nothing() {
    assert!(events_after_write(1, ApiEvent::MessageNew(message(5)), false, Some(chat()), vec![]).is_empty());
    assert!(events_after_write(1, ApiEvent::MessageEdited(message(5)), false, None, vec![]).is_empty());
    let deletion = ApiEvent::MessagesDeleted { channel_chat_id: Some(-1001), message_ids: vec![1, 2] };
    assert!(events_after_write(1, deletion, false, None, vec![]).is_empty());
    // Presence is published whether or not storing it worked.
    let presence = ApiEvent::Presence { user_id: 7, presence: telegram_gui::model::Presence::Online };
    assert_eq!(
        events_after_write(1, presence, false, None, vec![]),
        vec![CoreEvent::PresenceChanged { account_id: 1, user_id: 7, presence: telegram_gui::model::Presence::Online }]
    );
}

#[test]
fn deletions_publish_per_chat() {
    let deletion = ApiEvent::MessagesDeleted { channel_chat_id: Some(-1001), message_ids: vec![1, 2] };
    assert_eq!(
        events_after_write(1, deletion, true, None, vec![]),
        vec![CoreEvent::MessageDeleted { account_id: 1, chat_id: -1001, message_ids: vec![1, 2] }]
    );
    let account_wide = ApiEvent::MessagesDeleted { channel_chat_id: None, message_ids: vec![1, 2, 3] };
    assert_eq!(
        events_after_write(1, account_wide, true, None, vec![(10, vec![1, 3]), (20, vec![2])]),
        vec![
            CoreEvent::MessageDeleted { account_id: 1, chat_id: 10, message_ids: vec![1, 3] },
            CoreEvent::MessageDeleted { account_id: 1, chat_id: 20, message_ids: vec![2] },
        ]
    );
    let typing = ApiEvent::Typing { chat_id: 2, user_id: 7 };
    assert_eq!(
        events_after_write(1, typing, true, None, vec![]),
        vec![CoreEvent::Typing { account_id: 1, chat_id: 2, user_id: 7 }]
    );
    assert!(events_after_write(1, ApiEvent::Unhandled, true, None, vec![]).is_empty());
}

#[test]
fn cycle_steps_through_its_phases() {
    let (phase, actions) = cycle_step(1, CyclePhase::Starting, CycleOutcome::Begin);
    assert!(matches!(phase, CyclePhase::FetchingDialogs));
    assert!(matches!(
        actions.as_slice(),
        [CycleAction::Publish(CoreEvent::SyncStateChanged { account_id: 1, state: SyncState::Synchronizing }), CycleAction::FetchDialogs]
    ));
    let (phase, actions) = cycle_step(1, phase, CycleOutcome::DialogsFetched);
    assert!(matches!(phase, CyclePhase::SavingDialogs) && actions.is_empty());
    let (phase, actions) = cycle_step(1, phase, CycleOutcome::ChatWritten { chat: chat(), written: false });
    assert!(matches!(phase, CyclePhase::SavingDialogs) && actions.is_empty());
    let (phase, actions) = cycle_step(1, phase, CycleOutcome::ChatWritten { chat: chat(), written: true });
    assert!(matches!(
        actions.as_slice(),
        [CycleAction::SaveLastMessage, CycleAction::Publish(CoreEvent::ChatUpdated { .. })]
    ));
    let (phase, actions) = cycle_step(1, phase, CycleOutcome::DialogsSaved);
    assert!(matches!(phase, CyclePhase::Live));
    assert!(matches!(
        actions.as_slice(),
        [
            CycleAction::FlushSession,
            CycleAction::Publish(CoreEvent::SyncStateChanged { state: SyncState::UpToDate, .. }),
            CycleAction::ListenForUpdates
        ]
    ));
    let (phase, actions) = cycle_step(1, phase, CycleOutcome::UpdateArrived);
    assert!(matches!(actions.as_slice(), [CycleAction::ApplyUpdate]));
    let (phase, actions) = cycle_step(1, phase, CycleOutcome::FlushDue);
    assert!(matches!(actions.as_slice(), [CycleAction::FlushSession]));
    let (phase, actions) =
        cycle_step(1, phase, CycleOutcome::StreamFailed { error: TgError::Io("reset".into()), reason: "reset".into() });
    assert!(matches!(phase, CyclePhase::Ended));
    assert!(matches!(
        actions.as_slice(),
        [CycleAction::SaveUpdateState, CycleAction::End(CycleEnd::Disconnected(r))] if r == "reset"
    ));
}

#[test]
fn revoked_session_ends_cycle_logged_out() {
    let (_, actions) = cycle_step(
        1,
        CyclePhase::FetchingDialogs,
        CycleOutcome::DialogsFailed { error: rpc("SESSION_REVOKED"), reason: "revoked".into() },
    );
    assert!(matches!(actions.as_slice(), [CycleAction::End(CycleEnd::LoggedOut)]));
    let (_, actions) = cycle_step(
        1,
        CyclePhase::Live,
        CycleOutcome::StreamFailed { error: TgError::NotAuthorized, reason: "x".into() },
    );
    assert!(matches!(actions.as_slice(), [CycleAction::End(CycleEnd::LoggedOut)]));
    // An outcome outside its phase changes nothing.
    let (phase, actions) = cycle_step(1, CyclePhase::Starting, CycleOutcome::FlushDue);
    assert!(matches!(phase, CyclePhase::Starting) && actions.is_empty());
}

#[test]
fn qr_steps() {
    match qr_step(QrStepKind::Waiting { url: "tg://login?token=AA".into(), expires_at: 31_000 }, 1_000, true) {
        QrAction::ShowAndWait { event, wait_ms } => {
            assert_eq!(wait_ms, 30_000);
            assert_eq!(
                event,
                CoreEvent::Login {
                    account_id: None,
                    stage: LoginStage::QrCode { url: "tg://login?token=AA".into(), expires_at: 31_000 }
                }
            );
        }
        other => panic!("unexpected {other:?}"),
    }
    assert!(matches!(qr_step(QrStepKind::WaitEnded { accepted: false }, 0, true), QrAction::ExportAgain));
    assert!(matches!(qr_step(QrStepKind::WaitEnded { accepted: true }, 0, true), QrAction::ExportAgain));
    assert!(matches!(qr_step(QrStepKind::Authorized, 0, true), QrAction::Finalize));
    assert!(matches!(qr_step(QrStepKind::Authorized, 0, false), QrAction::Fail(CoreError::NoPendingLogin)));
    assert!(matches!(
        qr_step(QrStepKind::PasswordRequired { hint: Some("cat".into()) }, 0, true),
        QrAction::RecordPasswordToken { event: CoreEvent::Login { stage: LoginStage::PasswordRequired { hint: Some(_) }, .. } }
    ));
    assert!(matches!(qr_step(QrStepKind::PasswordRequired { hint: None }, 0, false), QrAction::Announce { .. }));
}

#[test]
fn login_token_decisions() {
    match login_token_decision(Ok(LoginTokenKind::Token { token: vec![0xfb, 0xff], expires: 60 })) {
        TokenDecision::ShowCode { url, expires_at } => {
            assert_eq!(url, "tg://login?token=-_8");
            assert_eq!(expires_at, 60_000);
        }
        other => panic!("unexpected {other:?}"),
    }
    assert!(matches!(
        login_token_decision(Ok(LoginTokenKind::MigrateTo { dc_id: 4, token: vec![1] })),
        TokenDecision::SwitchHomeAndImport { dc_id: 4, .. }
    ));
    assert!(matches!(login_token_decision(Ok(LoginTokenKind::Authorized)), TokenDecision::CompleteLogin));
    assert!(matches!(
        login_token_decision(Ok(LoginTokenKind::SignUpRequired)),
        TokenDecision::Fail(TgError::SignIn(m)) if m == "this account requires sign-up with an official app"
    ));
    assert!(matches!(login_token_decision(Err(rpc("SESSION_PASSWORD_NEEDED"))), TokenDecision::AskPassword));
    assert!(matches!(login_token_decision(Err(rpc("FLOOD_WAIT"))), TokenDecision::Fail(e) if e == rpc("FLOOD_WAIT")));
}

#[test]
fn keychain_item_is_service_and_secret_name() {
    let store = KeychainSecretStore::new();
    let (service, account) = store.keychain_item("session-42");
    assert_eq!(service, "dev.stefan.TelegramGui");
    assert_eq!(account, "session-42");
}

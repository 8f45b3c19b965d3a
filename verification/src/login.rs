//! Bookkeeping of an interactive login: which token the next step needs,
//! and which reactions an account may offer.
//!
//! A code login hands out a code token (to submit the code) and, for
//! accounts with two-step verification, a password token. A step consumes
//! its token; a failed code submission gives the code token back so the
//! user can retry without restarting the flow.

use vstd::prelude::*;

use crate::errors::{CoreError, TgError};
use crate::event::CoreEvent;
use crate::format::{base64, qr_login_url};
use crate::model::{LoginStage, Timestamp};

verus! {

/// The tokens of the login flow in progress.
pub struct LoginTokens<C, P> {
    code: Option<C>,
    password: Option<P>,
}

impl<C, P> LoginTokens<C, P> {
    /// The token for submitting the login code, if the flow is waiting for one.
    pub closed spec fn code_token(&self) -> Option<C> {
        self.code
    }

    /// The token for submitting the cloud password, if the flow is waiting for one.
    pub closed spec fn password_token(&self) -> Option<P> {
        self.password
    }

    /// A flow waiting for the login code.
    pub fn awaiting_code(token: C) -> (r: Self)
        ensures
            r.code_token() == Some(token),
            r.password_token() is None,
    {
        LoginTokens { code: Some(token), password: None }
    }

    /// A flow with no token yet (a QR login before the code is scanned).
    pub fn empty() -> (r: Self)
        ensures
            r.code_token() is None,
            r.password_token() is None,
    {
        LoginTokens { code: None, password: None }
    }

    /// Takes the code token for a submission; `NoPendingLogin` when the flow
    /// is not waiting for a code.
    pub fn take_code_token(&mut self) -> (r: Result<C, CoreError>)
        ensures
            match old(self).code_token() {
                Some(t) => r == Ok::<C, CoreError>(t),
                None => r == Err::<C, CoreError>(CoreError::NoPendingLogin),
            },
            final(self).code_token() is None,
            final(self).password_token() == old(self).password_token(),
    {
        match self.code.take() {
            Some(t) => Ok(t),
            None => Err(CoreError::NoPendingLogin),
        }
    }

    /// Gives the code token back after a failed submission.
    pub fn restore_code_token(&mut self, token: C)
        ensures
            final(self).code_token() == Some(token),
            final(self).password_token() == old(self).password_token(),
    {
        self.code = Some(token);
    }

    /// Records that the account needs its cloud password.
    pub fn await_password(&mut self, token: P)
        ensures
            final(self).password_token() == Some(token),
            final(self).code_token() == old(self).code_token(),
    {
        self.password = Some(token);
    }

    /// Takes the password token for a submission; `NoPendingLogin` when the
    /// flow is not waiting for a password.
    pub fn take_password_token(&mut self) -> (r: Result<P, CoreError>)
        ensures
            match old(self).password_token() {
                Some(t) => r == Ok::<P, CoreError>(t),
                None => r == Err::<P, CoreError>(CoreError::NoPendingLogin),
            },
            final(self).password_token() is None,
            final(self).code_token() == old(self).code_token(),
    {
        match self.password.take() {
            Some(t) => Ok(t),
            None => Err(CoreError::NoPendingLogin),
        }
    }
}

/// A reaction as Telegram lists it for the account.
pub struct AvailableReaction {
    pub emoji: String,
    /// No longer offered.
    pub inactive: bool,
    /// Reserved for premium accounts.
    pub premium: bool,
}

/// The reactions a quick-reaction bar may offer, in Telegram's order:
/// inactive and premium-only reactions are left out.
pub open spec fn offered_reactions(list: Seq<AvailableReaction>) -> Seq<Seq<char>>
    decreases list.len(),
{
    if list.len() == 0 {
        Seq::empty()
    } else if list.last().inactive || list.last().premium {
        offered_reactions(list.drop_last())
    } else {
        offered_reactions(list.drop_last()).push(list.last().emoji@)
    }
}

/// The emoji of the reactions the account may send.
pub fn active_reactions(list: &Vec<AvailableReaction>) -> (r: Vec<String>)
    ensures
        r@.len() == offered_reactions(list@).len(),
        forall|k: int| 0 <= k < r@.len() ==> #[trigger] r@[k]@ == offered_reactions(list@)[k],
{
    let mut out: Vec<String> = Vec::new();
    let mut i: usize = 0;
    while i < list.len()
        invariant
            i <= list.len(),
            out@.len() == offered_reactions(list@.subrange(0, i as int)).len(),
            forall|k: int|
                0 <= k < out@.len() ==> #[trigger] out@[k]@ == offered_reactions(
                    list@.subrange(0, i as int),
                )[k],
        decreases list.len() - i,
    {
        proof {
            assert(list@.subrange(0, i + 1).drop_last() == list@.subrange(0, i as int));
            assert(list@.subrange(0, i + 1).last() == list@[i as int]);
        }
        let r = &list[i];
        if !(r.inactive || r.premium) {
            out.push(r.emoji.clone());
        }
        i = i + 1;
    }
    assert(list@.subrange(0, list.len() as int) == list@);
    out
}

/// The total reported with download progress: the announced size, or the
/// bytes received so far when more have arrived than announced.
pub fn reported_total(announced: i64, received: i64) -> (r: i64)
    ensures
        r == (if announced >= received {
            announced
        } else {
            received
        }),
{
    if announced >= received {
        announced
    } else {
        received
    }
}

/// How long a QR login waits, in milliseconds, before a fresh code is
/// exported when the shown one has already expired.
pub const QR_EXPIRED_WAIT_MS: u64 = 30000;

/// How long to wait for the shown QR code to be scanned: until it expires,
/// or `QR_EXPIRED_WAIT_MS` when it has already expired.
pub fn qr_wait_millis(expires_at: Timestamp, now: Timestamp) -> (r: u64)
    ensures
        r == (if expires_at >= now {
            expires_at - now
        } else {
            QR_EXPIRED_WAIT_MS as int
        }),
{
    if expires_at >= now {
        let wide: i128 = (expires_at as i128) - (now as i128);
        wide as u64
    } else {
        QR_EXPIRED_WAIT_MS
    }
}

// ----- QR login ---------------------------------------------------------------------
/// What Telegram answered to an export or import of a QR login token.
#[derive(Debug)]
pub enum LoginTokenKind {
    /// A token to show as a QR code, valid until `expires` (Unix seconds).
    Token { token: Vec<u8>, expires: i32 },
    /// The account lives on datacenter `dc_id`; `token` must be imported there.
    MigrateTo { dc_id: i32, token: Vec<u8> },
    /// The code was accepted and the account is signed in.
    Authorized,
    /// The account must first sign up with an official application.
    SignUpRequired,
}

/// What the QR flow does with Telegram's answer.
#[derive(Debug)]
pub enum TokenDecision {
    /// Show `url` as a QR code until `expires_at`.
    ShowCode { url: String, expires_at: Timestamp },
    /// Make `dc_id` the session's home datacenter and import `token` there.
    SwitchHomeAndImport { dc_id: i32, token: Vec<u8> },
    /// Complete the login with the authorization received.
    CompleteLogin,
    /// Fetch the account's password parameters and ask for the password.
    AskPassword,
    /// The flow fails with this error.
    Fail(TgError),
}

/// What the QR flow does with Telegram's answer to an export or import:
/// a token is shown as a `tg://login` QR code until it expires, a
/// migration switches the home datacenter and imports there, an
/// authorization completes the login, sign-up is refused, and a
/// `SESSION_PASSWORD_NEEDED` error asks for the password; other errors fail
/// the flow.
pub fn login_token_decision(answer: Result<LoginTokenKind, TgError>) -> (r: TokenDecision)
    ensures
        match answer {
            Ok(LoginTokenKind::Token { token, expires }) => r matches TokenDecision::ShowCode {
                url,
                expires_at,
            } && url@ == "tg://login?token="@ + base64(token@, true, false) && expires_at
                == expires as int * 1000,
            Ok(LoginTokenKind::MigrateTo { dc_id, token }) => r == (TokenDecision::SwitchHomeAndImport {
                dc_id,
                token,
            }),
            Ok(LoginTokenKind::Authorized) => r is CompleteLogin,
            Ok(LoginTokenKind::SignUpRequired) => r matches TokenDecision::Fail(TgError::SignIn(m))
                && m@ == "this account requires sign-up with an official app"@,
            Err(e) => if e.rpc_matches("SESSION_PASSWORD_NEEDED"@) {
                r is AskPassword
            } else {
                r == TokenDecision::Fail(e)
            },
        },
{
    match answer {
        Ok(LoginTokenKind::Token { token, expires }) => {
            let url = qr_login_url(token.as_slice());
            let expires_at: Timestamp = (expires as i64) * 1000;
            TokenDecision::ShowCode { url, expires_at }
        },
        Ok(LoginTokenKind::MigrateTo { dc_id, token }) => TokenDecision::SwitchHomeAndImport { dc_id, token },
        Ok(LoginTokenKind::Authorized) => TokenDecision::CompleteLogin,
        Ok(LoginTokenKind::SignUpRequired) => TokenDecision::Fail(
            TgError::SignIn(String::from_str("this account requires sign-up with an official app")),
        ),
        Err(e) => {
            if e.is_rpc("SESSION_PASSWORD_NEEDED") {
                TokenDecision::AskPassword
            } else {
                TokenDecision::Fail(e)
            }
        },
    }
}

/// Where the QR flow stands after a step of the login.
#[derive(Debug)]
pub enum QrStepKind {
    /// A code to show, valid until `expires_at`.
    Waiting { url: String, expires_at: Timestamp },
    /// Waiting for the shown code ended: it was scanned and accepted, or it
    /// expired.
    WaitEnded { accepted: bool },
    /// The account is signed in.
    Authorized,
    /// The account has two-step verification; `hint` is its password hint.
    PasswordRequired { hint: Option<String> },
}

/// What the QR flow does next.
#[derive(Debug)]
pub enum QrAction {
    /// Announce `event` (the QR code) and wait up to `wait_ms` for it to be
    /// accepted.
    ShowAndWait { event: CoreEvent, wait_ms: u64 },
    /// Export again: after acceptance this answers with the login, after
    /// expiry with a fresh code.
    ExportAgain,
    /// Turn the pending login into the account.
    Finalize,
    /// Record the password token in the pending login, then announce `event`.
    RecordPasswordToken { event: CoreEvent },
    /// Announce `event`; there is no pending login to record the token in.
    Announce { event: CoreEvent },
    /// The flow fails.
    Fail(CoreError),
}

/// One step of the QR login flow at time `now`, with `has_pending` telling
/// whether the login is still pending: a code is announced and waited for
/// until it expires (`qr_wait_millis`); when waiting ends the flow exports
/// again; a sign-in finalizes the pending login, or fails with
/// `NoPendingLogin` when there is none; a password request records the
/// password token in the pending login and announces the password stage.
pub fn qr_step(step: QrStepKind, now: Timestamp, has_pending: bool) -> (r: QrAction)
    ensures
        match step {
            QrStepKind::Waiting { url, expires_at } => r == (QrAction::ShowAndWait {
                event: CoreEvent::Login {
                    account_id: None,
                    stage: LoginStage::QrCode { url, expires_at },
                },
                wait_ms: (if expires_at >= now {
                    expires_at - now
                } else {
                    QR_EXPIRED_WAIT_MS as int
                }) as u64,
            }),
            QrStepKind::WaitEnded { .. } => r is ExportAgain,
            QrStepKind::Authorized => if has_pending {
                r is Finalize
            } else {
                r == QrAction::Fail(CoreError::NoPendingLogin)
            },
            QrStepKind::PasswordRequired { hint } => {
                let event = CoreEvent::Login {
                    account_id: None,
                    stage: LoginStage::PasswordRequired { hint },
                };
                if has_pending {
                    r == (QrAction::RecordPasswordToken { event })
                } else {
                    r == (QrAction::Announce { event })
                }
            },
        },
{
    match step {
        QrStepKind::Waiting { url, expires_at } => QrAction::ShowAndWait {
            event: CoreEvent::Login { account_id: None, stage: LoginStage::QrCode { url, expires_at } },
            wait_ms: qr_wait_millis(expires_at, now),
        },
        QrStepKind::WaitEnded { accepted: _ } => QrAction::ExportAgain,
        QrStepKind::Authorized => {
            if has_pending {
                QrAction::Finalize
            } else {
                QrAction::Fail(CoreError::NoPendingLogin)
            }
        },
        QrStepKind::PasswordRequired { hint } => {
            let event = CoreEvent::Login { account_id: None, stage: LoginStage::PasswordRequired { hint } };
            if has_pending {
                QrAction::RecordPasswordToken { event }
            } else {
                QrAction::Announce { event }
            }
        },
    }
}

} // verus!

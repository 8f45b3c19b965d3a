//! Error vocabulary of every layer, and the classification of Telegram
//! failures that the sync engine acts on.

use vstd::prelude::*;

use crate::model::AccountId;

verus! {

/// Errors from a secret store backend.
#[derive(Debug, PartialEq, Eq)]
pub enum SecretError {
    Backend(String),
}

impl Clone for SecretError {
    fn clone(&self) -> (r: Self)
        ensures
            r == *self,
    {
        match self {
            SecretError::Backend(m) => SecretError::Backend(m.clone()),
        }
    }
}

/// Errors from the encrypted media cache.
#[derive(Debug, PartialEq, Eq)]
pub enum CacheError {
    /// Local file I/O failed; the text describes the failure.
    Io(String),
    /// The secret store holding the cache key failed.
    Secret(SecretError),
    /// A blob failed decryption (corrupt file or rotated key).
    Decrypt,
    /// A blob failed encryption.
    Encrypt,
    /// The stored cache key has an invalid length.
    BadKey,
    /// The operating system's random source failed while drawing a key.
    Random,
}

/// Error reported by Telegram for a request it refused.
#[derive(Debug, PartialEq, Eq)]
pub struct RpcFailure {
    /// Numeric status, similar to an HTTP status code.
    pub code: i32,
    /// The error name in screaming snake case, such as `SESSION_REVOKED`.
    pub name: String,
}

/// Errors surfaced by the Telegram boundary.
#[derive(Debug, PartialEq, Eq)]
pub enum TgError {
    /// An RPC invocation failed: `rpc` holds the server's error when the
    /// server answered with one, `detail` describes the failure.
    Invocation { rpc: Option<RpcFailure>, detail: String },
    /// Authorization is missing or was revoked.
    NotAuthorized,
    /// The login flow failed in a way the user must act on.
    SignIn(String),
    /// The session storage misbehaved.
    Session(String),
    /// A referenced entity (chat, message, media) could not be found.
    NotFound(String),
    /// Local I/O while uploading or downloading.
    Io(String),
}

/// Error type of the session storage.
#[derive(Debug, PartialEq, Eq)]
pub struct SessionError {
    pub message: String,
}

/// Whether an RPC error name matches a pattern: a single trailing `*` asks
/// for a prefix, a single leading `*` for a suffix, anything else for the
/// exact name.
pub open spec fn rpc_pattern_matches(name: Seq<char>, pattern: Seq<char>) -> bool {
    if pattern.len() > 0 && pattern.last() == '*' {
        let p = pattern.drop_last();
        p.len() <= name.len() && name.take(p.len() as int) == p
    } else if pattern.len() > 0 && pattern[0] == '*' {
        let p = pattern.drop_first();
        p.len() <= name.len() && name.skip(name.len() - p.len()) == p
    } else {
        name == pattern
    }
}

/// `grammers`' matcher for RPC error names (`RpcError::is`), applied to an
/// error with the given status code and name.
#[verifier::external_body]
fn rpc_error_is(code: i32, name: &str, pattern: &str) -> (r: bool)
    ensures
        r == rpc_pattern_matches(name@, pattern@),
{
    grammers_client::sender::RpcError {
        code,
        name: name.to_string(),
        value: None,
        caused_by: None,
    }.is(pattern)
}

impl TgError {
    /// Whether this error is a server error whose name matches `pattern`.
    pub open spec fn rpc_matches(&self, pattern: Seq<char>) -> bool {
        match self {
            TgError::Invocation { rpc: Some(failure), .. } => rpc_pattern_matches(
                failure.name@,
                pattern,
            ),
            _ => false,
        }
    }

    /// Whether this error carries the given Telegram RPC error name
    /// (a leading or trailing `*` is a wildcard).
    pub fn is_rpc(&self, name: &str) -> (r: bool)
        ensures
            r == self.rpc_matches(name@),
    {
        match self {
            TgError::Invocation { rpc: Some(failure), .. } => rpc_error_is(
                failure.code,
                failure.name.as_str(),
                name,
            ),
            _ => false,
        }
    }

    /// Whether the server revoked this session: the user must log in again
    /// and retrying is pointless.
    pub open spec fn spec_auth_revoked(&self) -> bool {
        ||| *self is NotAuthorized
        ||| self.rpc_matches("AUTH_KEY_UNREGISTERED"@)
        ||| self.rpc_matches("SESSION_REVOKED"@)
        ||| self.rpc_matches("USER_DEACTIVATED"@)
    }

    /// Whether the server revoked this session.
    pub fn is_auth_revoked(&self) -> (r: bool)
        ensures
            r == self.spec_auth_revoked(),
    {
        matches!(self, TgError::NotAuthorized) || self.is_rpc("AUTH_KEY_UNREGISTERED")
            || self.is_rpc("SESSION_REVOKED") || self.is_rpc("USER_DEACTIVATED")
    }
}

/// Errors surfaced to the user interface.
#[derive(Debug, PartialEq, Eq)]
pub enum CoreError {
    /// The database failed; the text describes the failure.
    Db(String),
    Telegram(TgError),
    Cache(CacheError),
    Config(crate::config::ConfigError),
    UnknownAccount(AccountId),
    NoPendingLogin,
}

} // verus!

//! Byte-oriented secret storage: the `SecretStore` abstraction, the macOS
//! Keychain implementation and an in-memory implementation for tests.
//!
//! Secrets stored here: MTProto session snapshots (one per account) and the
//! media-cache encryption key. None of them ever touch the filesystem in
//! plaintext.

use vstd::prelude::*;
use vstd::hash_map::StringHashMap;

use crate::config::{APP_NAME, APP_ORGANIZATION, APP_QUALIFIER};
use crate::errors::SecretError;

verus! {

/// Minimal byte-oriented secret storage.
///
/// A store whose `obeys_contents` holds behaves as a map from names to
/// bytes described by `contents`; a store backed by an operating-system
/// service (whose state lives outside this process) makes no such promise.
pub trait SecretStore {
    /// Whether `contents` describes this store.
    spec fn obeys_contents(&self) -> bool;

    /// The secrets currently held, by name.
    spec fn contents(&self) -> Map<Seq<char>, Seq<u8>>;

    /// Store (create or replace) a secret under `name`.
    fn set(&mut self, name: &str, value: &[u8]) -> (r: Result<(), SecretError>)
        ensures
            final(self).obeys_contents() == old(self).obeys_contents(),
            old(self).obeys_contents() ==> r is Ok && final(self).contents() == old(
                self,
            ).contents().insert(name@, value@),
    ;

    /// Fetch a secret; `Ok(None)` if it does not exist.
    fn get(&self, name: &str) -> (r: Result<Option<Vec<u8>>, SecretError>)
        ensures
            self.obeys_contents() ==> match r {
                Ok(Some(v)) => self.contents().contains_key(name@) && v@ == self.contents()[name@],
                Ok(None) => !self.contents().contains_key(name@),
                Err(_) => false,
            },
    ;

    /// Delete a secret; deleting a missing secret is not an error.
    fn delete(&mut self, name: &str) -> (r: Result<(), SecretError>)
        ensures
            final(self).obeys_contents() == old(self).obeys_contents(),
            old(self).obeys_contents() ==> r is Ok && final(self).contents() == old(
                self,
            ).contents().remove(name@),
    ;
}

// ----- in-memory store ---------------------------------------------------------
/// In-memory secret store for tests and headless runs (no Keychain prompts).
pub struct MemorySecretStore {
    values: StringHashMap<Vec<u8>>,
}

impl MemorySecretStore {
    /// The secrets held, by name.
    pub closed spec fn held(&self) -> Map<Seq<char>, Seq<u8>> {
        self.values@.map_values(|v: Vec<u8>| v@)
    }

    /// An empty store.
    pub fn new() -> (r: Self)
        ensures
            r.held() == Map::<Seq<char>, Seq<u8>>::empty(),
    {
        let r = MemorySecretStore { values: StringHashMap::new() };
        assert(r.held() =~= Map::<Seq<char>, Seq<u8>>::empty());
        r
    }
}

impl SecretStore for MemorySecretStore {
    open spec fn obeys_contents(&self) -> bool {
        true
    }

    open spec fn contents(&self) -> Map<Seq<char>, Seq<u8>> {
        self.held()
    }

    fn set(&mut self, name: &str, value: &[u8]) -> (r: Result<(), SecretError>) {
        let ghost before = self.held();
        self.values.insert(String::from_str(name), vstd::slice::slice_to_vec(value));
        assert(self.held() =~= before.insert(name@, value@));
        Ok(())
    }

    fn get(&self, name: &str) -> (r: Result<Option<Vec<u8>>, SecretError>) {
        match self.values.get(name) {
            Some(v) => Ok(Some(v.clone())),
            None => Ok(None),
        }
    }

    fn delete(&mut self, name: &str) -> (r: Result<(), SecretError>) {
        let ghost before = self.held();
        self.values.remove(name);
        assert(self.held() =~= before.remove(name@));
        Ok(())
    }
}

/// A store that obeys its contents gives back what was last stored under a
/// name, and nothing once the name was deleted.
pub proof fn lemma_store_roundtrip(
    before: Map<Seq<char>, Seq<u8>>,
    name: Seq<char>,
    value: Seq<u8>,
    other: Seq<char>,
)
    ensures
        before.insert(name, value).contains_key(name),
        before.insert(name, value)[name] == value,
        !before.insert(name, value).remove(name).contains_key(name),
        !before.remove(name).remove(name).contains_key(name),
        before.remove(name).remove(name) == before.remove(name),
        other != name ==> before.insert(name, value).contains_key(other) == before.contains_key(
            other,
        ),
        other != name && before.contains_key(other) ==> before.insert(name, value)[other]
            == before[other],
{
    assert(before.remove(name).remove(name) =~= before.remove(name));
}

// ----- Keychain store ----------------------------------------------------------
/// Why a keyring call failed.
pub enum KeyringFailure {
    /// No credential exists for the entry.
    NoEntry,
    /// Any other failure of the platform store, described.
    Other(String),
}

/// The text keyring gives a missing credential.
pub open spec fn keyring_missing_text() -> Seq<char> {
    "No matching credential found"@
}

/// Whether `m` has the shape of keyring's description of a failure other
/// than a missing credential: each such description starts with one of the
/// texts below, or is one of the two fixed texts.
pub open spec fn keyring_failure_text(m: Seq<char>) -> bool {
    ||| "Platform failure: "@.is_prefix_of(m)
    ||| "Couldn't access platform storage: "@.is_prefix_of(m)
    ||| m == "Password data is not valid UTF-8"@
    ||| "Secret data is malformed: "@.is_prefix_of(m)
    ||| "Store data is malformed: "@.is_prefix_of(m)
    ||| "Value of '"@.is_prefix_of(m)
    ||| "Entry is matched by "@.is_prefix_of(m)
    ||| m == "No default store has been set, so cannot search or create entries"@
    ||| "Unsupported: "@.is_prefix_of(m)
}

/// No description of another keyring failure reads as a missing credential.
pub proof fn lemma_failure_text_not_missing()
    ensures
        forall|m: Seq<char>| #[trigger] keyring_failure_text(m) ==> m != keyring_missing_text(),
{
    assert forall|m: Seq<char>| #[trigger] keyring_failure_text(m) implies m
        != keyring_missing_text() by {
        reveal_strlit("No matching credential found");
        reveal_strlit("Platform failure: ");
        reveal_strlit("Couldn't access platform storage: ");
        reveal_strlit("Password data is not valid UTF-8");
        reveal_strlit("Secret data is malformed: ");
        reveal_strlit("Store data is malformed: ");
        reveal_strlit("Value of '");
        reveal_strlit("Entry is matched by ");
        reveal_strlit("No default store has been set, so cannot search or create entries");
        reveal_strlit("Unsupported: ");
        if m == keyring_missing_text() {
            assert(m[0] == 'N' && m[1] == 'o' && m[2] == ' ' && m[3] == 'm');
            if "Platform failure: "@.is_prefix_of(m) {
                assert("Platform failure: "@[0] == m[0]);
            }
            if "Couldn't access platform storage: "@.is_prefix_of(m) {
                assert("Couldn't access platform storage: "@[0] == m[0]);
            }
            if "Secret data is malformed: "@.is_prefix_of(m) {
                assert("Secret data is malformed: "@[0] == m[0]);
            }
            if "Store data is malformed: "@.is_prefix_of(m) {
                assert("Store data is malformed: "@[0] == m[0]);
            }
            if "Value of '"@.is_prefix_of(m) {
                assert("Value of '"@[0] == m[0]);
            }
            if "Entry is matched by "@.is_prefix_of(m) {
                assert("Entry is matched by "@[0] == m[0]);
            }
            if "Unsupported: "@.is_prefix_of(m) {
                assert("Unsupported: "@[0] == m[0]);
            }
            assert(m != "Password data is not valid UTF-8"@);
            assert(m != "No default store has been set, so cannot search or create entries"@);
            assert(false);
        }
    }
}

#[verifier::external_type_specification]
#[verifier::external_body]
pub struct ExKeyringEntry(keyring::Entry);

/// `keyring::Entry::new`: the platform credential-store entry for a
/// service and account name. Building an entry never reports a missing
/// credential (only an invalid argument or no default store), and any
/// failure is described by keyring's `Display` text.
#[verifier::external_body]
fn keyring_entry(service: &str, name: &str) -> (r: Result<keyring::Entry, KeyringFailure>)
    ensures
        !(r matches Err(KeyringFailure::NoEntry)),
        r matches Err(KeyringFailure::Other(m)) ==> keyring_failure_text(m@),
{
    keyring::Entry::new(service, name).map_err(|e| match e {
        keyring::Error::NoEntry => KeyringFailure::NoEntry,
        other => KeyringFailure::Other(other.to_string()),
    })
}

/// `keyring::Entry::set_secret`: a failure other than a missing credential is
/// described by keyring's `Display` text.
#[verifier::external_body]
fn keyring_set_secret(entry: &keyring::Entry, value: &[u8]) -> (r: Result<(), KeyringFailure>)
    ensures
        r matches Err(KeyringFailure::Other(m)) ==> keyring_failure_text(m@),
{
    entry.set_secret(value).map_err(|e| match e {
        keyring::Error::NoEntry => KeyringFailure::NoEntry,
        other => KeyringFailure::Other(other.to_string()),
    })
}

/// `keyring::Entry::get_secret`: a failure other than a missing credential is
/// described by keyring's `Display` text.
#[verifier::external_body]
fn keyring_get_secret(entry: &keyring::Entry) -> (r: Result<Vec<u8>, KeyringFailure>)
    ensures
        r matches Err(KeyringFailure::Other(m)) ==> keyring_failure_text(m@),
{
    entry.get_secret().map_err(|e| match e {
        keyring::Error::NoEntry => KeyringFailure::NoEntry,
        other => KeyringFailure::Other(other.to_string()),
    })
}

/// `keyring::Entry::delete_credential`: a failure other than a missing credential is
/// described by keyring's `Display` text.
#[verifier::external_body]
fn keyring_delete_credential(entry: &keyring::Entry) -> (r: Result<(), KeyringFailure>)
    ensures
        r matches Err(KeyringFailure::Other(m)) ==> keyring_failure_text(m@),
{
    entry.delete_credential().map_err(|e| match e {
        keyring::Error::NoEntry => KeyringFailure::NoEntry,
        other => KeyringFailure::Other(other.to_string()),
    })
}

/// The description of a keyring failure, as a store error: keyring's own
/// text for a missing item, else the failure's description.
fn backend_error(failure: KeyringFailure) -> (r: SecretError)
    ensures
        failure matches KeyringFailure::Other(m) ==> r == SecretError::Backend(m),
        failure is NoEntry ==> (r matches SecretError::Backend(m) && m@
            == "No matching credential found"@),
{
    match failure {
        KeyringFailure::NoEntry => SecretError::Backend(String::from_str("No matching credential found")),
        KeyringFailure::Other(m) => SecretError::Backend(m),
    }
}

/// What a Keychain read answers: the secret, `None` for a missing item, or
/// the store's failure.
pub fn keychain_read_outcome(read: Result<Vec<u8>, KeyringFailure>) -> (r: Result<
    Option<Vec<u8>>,
    SecretError,
>)
    ensures
        read matches Ok(bytes) ==> r == Ok::<Option<Vec<u8>>, SecretError>(Some(bytes)),
        read matches Err(KeyringFailure::NoEntry) ==> r == Ok::<Option<Vec<u8>>, SecretError>(None),
        read matches Err(KeyringFailure::Other(m)) ==> r == Err::<Option<Vec<u8>>, SecretError>(
            SecretError::Backend(m),
        ),
{
    match read {
        Ok(bytes) => Ok(Some(bytes)),
        Err(KeyringFailure::NoEntry) => Ok(None),
        Err(failure) => Err(backend_error(failure)),
    }
}

/// What a Keychain write answers: success, or the store's failure.
pub fn keychain_write_outcome(written: Result<(), KeyringFailure>) -> (r: Result<(), SecretError>)
    ensures
        written is Ok ==> r is Ok,
        written is Err ==> r is Err,
        written matches Err(KeyringFailure::Other(m)) ==> r == Err::<(), SecretError>(
            SecretError::Backend(m),
        ),
        written matches Err(KeyringFailure::NoEntry) ==> (r matches Err(SecretError::Backend(m))
            && m@ == "No matching credential found"@),
{
    match written {
        Ok(()) => Ok(()),
        Err(failure) => Err(backend_error(failure)),
    }
}

/// What a Keychain deletion answers: deleting a missing item succeeds.
pub fn keychain_delete_outcome(deleted: Result<(), KeyringFailure>) -> (r: Result<(), SecretError>)
    ensures
        deleted is Ok ==> r is Ok,
        deleted matches Err(KeyringFailure::NoEntry) ==> r is Ok,
        deleted matches Err(KeyringFailure::Other(m)) ==> r == Err::<(), SecretError>(
            SecretError::Backend(m),
        ),
{
    match deleted {
        Ok(()) => Ok(()),
        Err(KeyringFailure::NoEntry) => Ok(()),
        Err(failure) => Err(backend_error(failure)),
    }
}

/// The Keychain service name: `<qualifier>.<organization>.<application>`.
pub open spec fn keychain_service_name() -> Seq<char> {
    APP_QUALIFIER@ + "."@ + APP_ORGANIZATION@ + "."@ + APP_NAME@
}

/// Secret storage backed by the macOS Keychain: each secret is a
/// generic-password item with the application's service name and the secret
/// name as the account field.
pub struct KeychainSecretStore {
    service: String,
}

impl KeychainSecretStore {
    /// The Keychain service name the store files its items under.
    pub closed spec fn service_name(&self) -> Seq<char> {
        self.service@
    }

    /// The store for this application's Keychain service.
    pub fn new() -> (r: Self)
        ensures
            r.service_name() == keychain_service_name(),
    {
        let mut service = String::from_str(APP_QUALIFIER);
        service.append(".");
        service.append(APP_ORGANIZATION);
        service.append(".");
        service.append(APP_NAME);
        KeychainSecretStore { service }
    }

    /// The Keychain item a secret lives in: the store's service name and the
    /// secret's name as the account.
    pub fn keychain_item(&self, name: &str) -> (r: (String, String))
        ensures
            r.0@ == self.service_name(),
            r.1@ == name@,
    {
        (self.service.clone(), String::from_str(name))
    }

    /// The keyring entry of the item `keychain_item(name)`.
    fn entry(&self, name: &str) -> (r: Result<keyring::Entry, SecretError>)
        ensures
            r matches Err(e) ==> (e matches SecretError::Backend(m) && keyring_failure_text(m@)),
    {
        let (service, account) = self.keychain_item(name);
        match keyring_entry(service.as_str(), account.as_str()) {
            Ok(entry) => Ok(entry),
            Err(failure) => Err(backend_error(failure)),
        }
    }
}

impl SecretStore for KeychainSecretStore {
    open spec fn obeys_contents(&self) -> bool {
        false
    }

    open spec fn contents(&self) -> Map<Seq<char>, Seq<u8>> {
        Map::empty()
    }

    /// Writes the item `keychain_item(name)`; the store itself (its service
    /// name) is unchanged, and a failure is the keyring backend's.
    fn set(&mut self, name: &str, value: &[u8]) -> (r: Result<(), SecretError>)
        ensures
            final(self).service_name() == old(self).service_name(),
            r is Ok || r matches Err(SecretError::Backend(_)),
    {
        let entry = self.entry(name)?;
        keychain_write_outcome(keyring_set_secret(&entry, value))
    }

    /// Reads the item `keychain_item(name)`; a missing item reads as
    /// `Ok(None)`, never as an error, and a failure is the keyring backend's
    /// description of another failure.
    fn get(&self, name: &str) -> (r: Result<Option<Vec<u8>>, SecretError>)
        ensures
            r is Ok || r matches Err(SecretError::Backend(_)),
            r matches Err(SecretError::Backend(m)) ==> keyring_failure_text(m@) && m@
                != keyring_missing_text(),
    {
        proof {
            lemma_failure_text_not_missing();
        }
        let entry = self.entry(name)?;
        keychain_read_outcome(keyring_get_secret(&entry))
    }

    /// Deletes the item `keychain_item(name)`; deleting a missing item
    /// succeeds, the store itself (its service name) is unchanged, and a
    /// failure is the keyring backend's.
    fn delete(&mut self, name: &str) -> (r: Result<(), SecretError>)
        ensures
            final(self).service_name() == old(self).service_name(),
            r is Ok || r matches Err(SecretError::Backend(_)),
            r matches Err(SecretError::Backend(m)) ==> keyring_failure_text(m@),
    {
        let entry = self.entry(name)?;
        keychain_delete_outcome(keyring_delete_credential(&entry))
    }
}

} // verus!

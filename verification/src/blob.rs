//! The encrypted media cache: where a blob lives, how its file is framed and
//! sealed, how the cache key is obtained, and which blobs eviction removes.
//!
//! Layout: `<cache_dir>/<aa>/<sha256(cache_key)>.bin`, where `aa` is the
//! first hex byte of the digest. File format: `nonce (12 bytes) ||
//! ChaCha20-Poly1305 ciphertext`. The 256-bit key is created on first use and
//! kept only in the secret store.

use vstd::prelude::*;

use crate::errors::{CacheError, SecretError};
use crate::secrets::SecretStore;
use crate::text::{hex_of, to_hex};

use chacha20poly1305::aead::rand_core::RngCore;
use chacha20poly1305::aead::{Aead, KeyInit, OsRng};
use chacha20poly1305::ChaCha20Poly1305;
use sha2::Digest;

verus! {

/// Secret-store item name of the cache master key.
pub const KEY_SECRET_NAME: &'static str = "media-cache-key";

/// Size of the AEAD nonce in front of every blob file.
pub const NONCE_LEN: usize = 12;

/// Size of the ChaCha20-Poly1305 key.
pub const KEY_LEN: usize = 32;

/// Size of the Poly1305 authentication tag appended to a ciphertext.
pub const TAG_LEN: usize = 16;

// ----- outside calls -----------------------------------------------------------
/// The SHA-256 digest of `data`.
pub uninterp spec fn sha256_digest(data: Seq<u8>) -> Seq<u8>;

/// ChaCha20-Poly1305 encryption of `plaintext` under `key` and `nonce`
/// (`None` when the cipher refuses the input).
pub uninterp spec fn chacha_seal(key: Seq<u8>, nonce: Seq<u8>, plaintext: Seq<u8>) -> Option<Seq<u8>>;

/// ChaCha20-Poly1305 decryption of `ciphertext` under `key` and `nonce`
/// (`None` when authentication fails).
pub uninterp spec fn chacha_open(key: Seq<u8>, nonce: Seq<u8>, ciphertext: Seq<u8>) -> Option<Seq<u8>>;

/// `sha2::Sha256::digest`: the 32-byte SHA-256 digest of `data`.
#[verifier::external_body]
fn sha256(data: &[u8]) -> (r: Vec<u8>)
    ensures
        r@ == sha256_digest(data@),
        r@.len() == 32,
{
    sha2::Sha256::digest(data).to_vec()
}

/// `ChaCha20Poly1305::new_from_slice`: whether `key` is accepted as a key,
/// which it is exactly when it has the key size.
#[verifier::external_body]
fn chacha_key_accepted(key: &[u8]) -> (r: bool)
    ensures
        r == (key@.len() == KEY_LEN),
{
    ChaCha20Poly1305::new_from_slice(key).is_ok()
}

/// `ChaCha20Poly1305::encrypt`. The ciphertext is the plaintext's length
/// plus the appended tag, and decrypting it under the same key and nonce
/// gives the plaintext back.
#[verifier::external_body]
fn chacha_encrypt(key: &[u8], nonce: &[u8], plaintext: &[u8]) -> (r: Option<Vec<u8>>)
    requires
        key@.len() == KEY_LEN,
        nonce@.len() == NONCE_LEN,
    ensures
        r matches Some(c) ==> c@.len() == plaintext@.len() + TAG_LEN,
        r matches Some(c) ==> chacha_seal(key@, nonce@, plaintext@) == Some(c@) && chacha_open(
            key@,
            nonce@,
            c@,
        ) == Some(plaintext@),
        r is None ==> chacha_seal(key@, nonce@, plaintext@) is None,
{
    ChaCha20Poly1305::new(chacha20poly1305::Key::from_slice(key)).encrypt(
        chacha20poly1305::Nonce::from_slice(nonce),
        plaintext,
    ).ok()
}

/// `ChaCha20Poly1305::decrypt`.
#[verifier::external_body]
fn chacha_decrypt(key: &[u8], nonce: &[u8], ciphertext: &[u8]) -> (r: Option<Vec<u8>>)
    requires
        key@.len() == KEY_LEN,
        nonce@.len() == NONCE_LEN,
    ensures
        r matches Some(p) ==> chacha_open(key@, nonce@, ciphertext@) == Some(p@),
        r is None ==> chacha_open(key@, nonce@, ciphertext@) is None,
{
    ChaCha20Poly1305::new(chacha20poly1305::Key::from_slice(key)).decrypt(
        chacha20poly1305::Nonce::from_slice(nonce),
        ciphertext,
    ).ok()
}

/// `OsRng::try_fill_bytes` into a key-sized buffer (the draw that
/// `ChaCha20Poly1305::generate_key` makes): a fresh random key, or `None`
/// when the operating system's random source fails.
#[verifier::external_body]
fn fresh_cache_key() -> (r: Option<Vec<u8>>)
    ensures
        r matches Some(k) ==> k@.len() == KEY_LEN,
{
    let mut buf = vec![0u8; KEY_LEN];
    OsRng.try_fill_bytes(&mut buf).ok().map(|()| buf)
}

/// `OsRng::try_fill_bytes` into a nonce-sized buffer (the draw that
/// `AeadCore::generate_nonce` makes): a fresh random nonce, or `None` when
/// the operating system's random source fails.
#[verifier::external_body]
fn fresh_nonce() -> (r: Option<Vec<u8>>)
    ensures
        r matches Some(n) ==> n@.len() == NONCE_LEN,
{
    let mut buf = vec![0u8; NONCE_LEN];
    OsRng.try_fill_bytes(&mut buf).ok().map(|()| buf)
}

// ----- blob location -------------------------------------------------------------
/// The hex digest naming the blob of `cache_key`.
pub open spec fn blob_digest_hex(cache_key: Seq<char>) -> Seq<char> {
    hex_of(sha256_digest(vstd::utf8::encode_utf8(cache_key)))
}

/// Where the blob of a cache key lives, relative to the cache directory:
/// the shard directory (first hex byte of the digest) and the file name
/// (`<hex digest>.bin`).
pub fn blob_location(cache_key: &str) -> (r: (String, String))
    ensures
        r.0@ == blob_digest_hex(cache_key@).take(2),
        r.1@ == blob_digest_hex(cache_key@) + ".bin"@,
{
    let digest = sha256(cache_key.as_bytes());
    let hex = to_hex(&digest);
    let chars = crate::text::chars_of(hex.as_str());
    let shard = crate::text::string_of_chars(&chars, 0, 2);
    let mut file = hex;
    file.append(".bin");
    (shard, file)
}

// ----- blob framing ----------------------------------------------------------------
/// A validated cache encryption key.
pub struct CacheKey {
    bytes: Vec<u8>,
}

impl CacheKey {
    /// The key bytes.
    pub closed spec fn key(&self) -> Seq<u8> {
        self.bytes@
    }

    /// Keys always have the cipher's key size.
    pub closed spec fn wf(&self) -> bool {
        self.bytes@.len() == KEY_LEN
    }

    /// A well-formed key is exactly a key of the cipher's key size.
    pub proof fn lemma_wf(&self)
        ensures
            self.wf() <==> self.key().len() == KEY_LEN,
    {
    }

    /// Accepts `bytes` as the cache key; `BadKey` unless it has the key size.
    pub fn from_bytes(bytes: Vec<u8>) -> (r: Result<CacheKey, CacheError>)
        ensures
            r is Ok <==> bytes@.len() == KEY_LEN,
            r matches Ok(k) ==> k.key() == bytes@ && k.wf(),
            r is Err ==> r == Err::<CacheKey, CacheError>(CacheError::BadKey),
    {
        if chacha_key_accepted(bytes.as_slice()) {
            Ok(CacheKey { bytes })
        } else {
            Err(CacheError::BadKey)
        }
    }
}

/// The file contents of a blob sealed under `key` with `nonce`.
pub open spec fn sealed_blob(key: Seq<u8>, nonce: Seq<u8>, data: Seq<u8>) -> Option<Seq<u8>> {
    match chacha_seal(key, nonce, data) {
        Some(c) => Some(nonce + c),
        None => None,
    }
}

/// The plaintext of a blob file, when it authenticates under `key`.
pub open spec fn opened_blob(key: Seq<u8>, contents: Seq<u8>) -> Option<Seq<u8>> {
    if contents.len() < NONCE_LEN {
        None
    } else {
        chacha_open(key, contents.take(NONCE_LEN as int), contents.skip(NONCE_LEN as int))
    }
}

/// Encrypts `data` into blob file contents: the nonce followed by the
/// ciphertext. Opening the contents under the same key gives `data` back.
pub fn seal_blob(key: &CacheKey, nonce: &[u8], data: &[u8]) -> (r: Result<Vec<u8>, CacheError>)
    requires
        key.wf(),
        nonce@.len() == NONCE_LEN,
    ensures
        r matches Ok(f) ==> sealed_blob(key.key(), nonce@, data@) == Some(f@) && opened_blob(
            key.key(),
            f@,
        ) == Some(data@),
        r matches Ok(f) ==> f@.len() == NONCE_LEN + data@.len() + TAG_LEN,
        r is Err ==> r == Err::<Vec<u8>, CacheError>(CacheError::Encrypt) && sealed_blob(
            key.key(),
            nonce@,
            data@,
        ) is None,
{
    match chacha_encrypt(key.bytes.as_slice(), nonce, data) {
        Some(ciphertext) => {
            let mut contents = vstd::slice::slice_to_vec(nonce);
            let mut tail = ciphertext;
            let ghost c = tail@;
            contents.append(&mut tail);
            proof {
                assert(contents@ == nonce@ + c);
                assert(contents@.take(NONCE_LEN as int) == nonce@);
                assert(contents@.skip(NONCE_LEN as int) == c);
            }
            Ok(contents)
        },
        None => Err(CacheError::Encrypt),
    }
}

/// Encrypts `data` into blob file contents under a fresh random nonce.
/// Whatever nonce was drawn, opening the contents under the same key gives
/// `data` back, and the contents start with that nonce. `Encrypt` when the
/// random source failed to give a nonce or the cipher refused the data.
pub fn encrypt_blob(key: &CacheKey, data: &[u8]) -> (r: Result<Vec<u8>, CacheError>)
    requires
        key.wf(),
    ensures
        r matches Ok(f) ==> f@.len() >= NONCE_LEN && sealed_blob(
            key.key(),
            f@.take(NONCE_LEN as int),
            data@,
        ) == Some(f@) && opened_blob(key.key(), f@) == Some(data@),
        r matches Ok(f) ==> f@.len() == NONCE_LEN + data@.len() + TAG_LEN,
        r is Err ==> r == Err::<Vec<u8>, CacheError>(CacheError::Encrypt),
{
    let nonce = match fresh_nonce() {
        Some(n) => n,
        None => return Err(CacheError::Encrypt),
    };
    let r = seal_blob(key, nonce.as_slice(), data);
    assert(r matches Ok(f) ==> f@.take(NONCE_LEN as int) == nonce@);
    r
}

/// Decrypts blob file contents; `Decrypt` when the file is too short to
/// hold a nonce or fails authentication (corrupt file or another key).
pub fn open_blob(key: &CacheKey, contents: &[u8]) -> (r: Result<Vec<u8>, CacheError>)
    requires
        key.wf(),
    ensures
        r matches Ok(p) ==> opened_blob(key.key(), contents@) == Some(p@),
        r is Err ==> r == Err::<Vec<u8>, CacheError>(CacheError::Decrypt) && opened_blob(
            key.key(),
            contents@,
        ) is None,
{
    if contents.len() < NONCE_LEN {
        return Err(CacheError::Decrypt);
    }
    let nonce = vstd::slice::slice_subrange(contents, 0, NONCE_LEN);
    let ciphertext = vstd::slice::slice_subrange(contents, NONCE_LEN, contents.len());
    assert(nonce@ == contents@.take(NONCE_LEN as int));
    assert(ciphertext@ == contents@.skip(NONCE_LEN as int));
    match chacha_decrypt(key.bytes.as_slice(), nonce, ciphertext) {
        Some(plaintext) => Ok(plaintext),
        None => Err(CacheError::Decrypt),
    }
}

// ----- cache key -------------------------------------------------------------------
/// What the key store's answer for the key item gives: the stored key when
/// it has the key size (`BadKey` otherwise), `None` when no key is stored
/// yet, and `Secret` with the store's error when the store failed.
pub fn stored_key_outcome(stored: Result<Option<Vec<u8>>, SecretError>) -> (r: Result<
    Option<CacheKey>,
    CacheError,
>)
    ensures
        match stored {
            Err(e) => r == Err::<Option<CacheKey>, CacheError>(CacheError::Secret(e)),
            Ok(None) => r matches Ok(None),
            Ok(Some(b)) => if b@.len() == KEY_LEN {
                r matches Ok(Some(k)) && k.key() == b@ && k.wf()
            } else {
                r == Err::<Option<CacheKey>, CacheError>(CacheError::BadKey)
            },
        },
{
    match stored {
        Err(e) => Err(CacheError::Secret(e)),
        Ok(None) => Ok(None),
        Ok(Some(bytes)) => match CacheKey::from_bytes(bytes) {
            Ok(k) => Ok(Some(k)),
            Err(e) => Err(e),
        },
    }
}

/// What writing a freshly drawn key to the store gives: that key when the
/// write succeeded, `Secret` with the store's error when it failed.
pub fn written_key_outcome(fresh: Vec<u8>, written: Result<(), SecretError>) -> (r: Result<
    CacheKey,
    CacheError,
>)
    requires
        fresh@.len() == KEY_LEN,
    ensures
        match written {
            Ok(()) => r matches Ok(k) && k.key() == fresh@ && k.wf(),
            Err(e) => r == Err::<CacheKey, CacheError>(CacheError::Secret(e)),
        },
{
    match written {
        Ok(()) => CacheKey::from_bytes(fresh),
        Err(e) => Err(CacheError::Secret(e)),
    }
}

/// How the key store looks after the cache was opened with key `key`: the
/// store holds `key`; a key it had is kept unchanged, and a missing one is
/// added.
pub open spec fn key_opened(
    before: Map<Seq<char>, Seq<u8>>,
    after: Map<Seq<char>, Seq<u8>>,
    key: Seq<u8>,
) -> bool {
    &&& after.contains_key(KEY_SECRET_NAME@)
    &&& after[KEY_SECRET_NAME@] == key
    &&& before.contains_key(KEY_SECRET_NAME@) ==> key == before[KEY_SECRET_NAME@] && after == before
    &&& !before.contains_key(KEY_SECRET_NAME@) ==> after == before.insert(KEY_SECRET_NAME@, key)
}

/// The cache key on opening the cache: the store is asked for its key
/// (`stored_key_outcome` says what its answer gives); when it has none, a
/// key is drawn from the random source (`Random` when that fails) and
/// written to the store (`written_key_outcome` says what the write gives).
/// A store that obeys its contents then holds the returned key, keeps a key
/// it already had, and is left unchanged by a failure.
pub fn open_cache_key<S: SecretStore>(store: &mut S) -> (r: Result<CacheKey, CacheError>)
    ensures
        old(store).obeys_contents() ==> match r {
            Ok(k) => key_opened(old(store).contents(), final(store).contents(), k.key()),
            Err(CacheError::BadKey) => old(store).contents().contains_key(KEY_SECRET_NAME@)
                && old(store).contents()[KEY_SECRET_NAME@].len() != KEY_LEN && final(store).contents()
                == old(store).contents(),
            Err(CacheError::Random) => !old(store).contents().contains_key(KEY_SECRET_NAME@)
                && final(store).contents() == old(store).contents(),
            Err(_) => false,
        },
        old(store).obeys_contents() && old(store).contents().contains_key(KEY_SECRET_NAME@)
            ==> final(store).contents() == old(store).contents(),
        r matches Ok(k) ==> k.wf() && k.key().len() == KEY_LEN,
        r matches Err(e) ==> (e is BadKey || e is Secret || e is Random),
{
    let stored = store.get(KEY_SECRET_NAME);
    match stored_key_outcome(stored) {
        Err(e) => Err(e),
        Ok(Some(k)) => Ok(k),
        Ok(None) => match fresh_cache_key() {
            None => Err(CacheError::Random),
            Some(fresh) => {
                let written = store.set(KEY_SECRET_NAME, fresh.as_slice());
                written_key_outcome(fresh, written)
            },
        },
    }
}

/// Reopening the cache over the same key store finds the key of the first
/// opening, and leaves the store as the first opening left it, so blobs
/// sealed before stay readable.
pub proof fn lemma_cache_key_stable(
    before: Map<Seq<char>, Seq<u8>>,
    middle: Map<Seq<char>, Seq<u8>>,
    after: Map<Seq<char>, Seq<u8>>,
    first: Seq<u8>,
    second: Seq<u8>,
)
    requires
        key_opened(before, middle, first),
        key_opened(middle, after, second),
    ensures
        second == first,
        after == middle,
{
}

// ----- eviction ----------------------------------------------------------------------
/// One cached blob as seen by an eviction scan.
pub struct BlobStat {
    /// Size of the blob file in bytes.
    pub size: u64,
    /// Last modification (recency) time, in nanoseconds since the Unix epoch.
    pub modified: u128,
}

/// Whether blob `i` comes before blob `j` in eviction order: older first,
/// and in scan order among blobs of equal age.
pub open spec fn evicted_before(blobs: Seq<BlobStat>, i: int, j: int) -> bool {
    blobs[i].modified < blobs[j].modified || (blobs[i].modified == blobs[j].modified && i < j)
}

/// The total size of the blobs.
pub open spec fn total_size(blobs: Seq<BlobStat>) -> int
    decreases blobs.len(),
{
    if blobs.len() == 0 {
        0
    } else {
        total_size(blobs.drop_last()) + blobs.last().size
    }
}

/// A prefix of the blobs is no larger than all of them.
proof fn lemma_total_size_prefix(blobs: Seq<BlobStat>, n: int)
    requires
        0 <= n <= blobs.len(),
    ensures
        total_size(blobs.take(n)) <= total_size(blobs),
    decreases blobs.len(),
{
    if n < blobs.len() {
        assert(blobs.drop_last().take(n) == blobs.take(n));
        lemma_total_size_prefix(blobs.drop_last(), n);
    } else {
        assert(blobs.take(n) == blobs);
    }
}

/// Least-recently-used eviction in progress: blobs are tried oldest first,
/// and only a successful removal counts against the running total.
pub struct Eviction {
    blobs: Vec<BlobStat>,
    tried: Vec<bool>,
    total: u64,
    max_bytes: u64,
    evicted: usize,
}

impl Eviction {
    /// The blobs of the scan.
    pub closed spec fn scanned(&self) -> Seq<BlobStat> {
        self.blobs@
    }

    /// Which blobs have been handed out for removal.
    pub closed spec fn attempted(&self) -> Seq<bool> {
        self.tried@
    }

    /// The size still on disk, as far as removals succeeded.
    pub closed spec fn remaining(&self) -> u64 {
        self.total
    }

    /// The size budget.
    pub closed spec fn budget(&self) -> u64 {
        self.max_bytes
    }

    /// How many blobs were removed.
    pub closed spec fn removed(&self) -> usize {
        self.evicted
    }

    /// Internal consistency of the eviction state.
    pub closed spec fn wf(&self) -> bool {
        self.tried@.len() == self.blobs@.len()
    }

    /// The eviction state is consistent exactly when every scanned blob
    /// has its tried mark.
    pub proof fn lemma_wf(&self)
        ensures
            self.wf() <==> self.attempted().len() == self.scanned().len(),
    {
    }

    /// Eviction over the scanned blobs; their sizes must add up within
    /// `u64`. Nothing is tried yet and the remaining size is their total.
    pub fn new(blobs: Vec<BlobStat>, max_bytes: u64) -> (e: Self)
        requires
            total_size(blobs@) <= u64::MAX,
        ensures
            e.wf(),
            e.scanned() == blobs@,
            e.attempted().len() == e.scanned().len(),
            e.remaining() == total_size(blobs@),
            e.budget() == max_bytes,
            e.removed() == 0,
            forall|k: int| 0 <= k < e.attempted().len() ==> !#[trigger] e.attempted()[k],
    {
        let mut tried: Vec<bool> = Vec::new();
        let mut total: u64 = 0;
        let mut i: usize = 0;
        while i < blobs.len()
            invariant
                i <= blobs.len(),
                tried@.len() == i,
                forall|k: int| 0 <= k < i ==> !#[trigger] tried@[k],
                total == total_size(blobs@.take(i as int)),
                total_size(blobs@) <= u64::MAX,
            decreases blobs.len() - i,
        {
            proof {
                lemma_total_size_prefix(blobs@, i + 1);
                assert(blobs@.take(i + 1).drop_last() == blobs@.take(i as int));
            }
            total = total + blobs[i].size;
            tried.push(false);
            i = i + 1;
        }
        assert(blobs@.take(blobs@.len() as int) == blobs@);
        Eviction { blobs, tried, total, max_bytes, evicted: 0 }
    }

    /// The next blob to remove: `None` once the remaining size fits the
    /// budget or every blob was tried; otherwise the oldest blob not tried
    /// yet, which is then marked as tried.
    pub fn next_victim(&mut self) -> (v: Option<usize>)
        requires
            old(self).wf(),
        ensures
            final(self).wf(),
            final(self).attempted().len() == final(self).scanned().len(),
            final(self).scanned() == old(self).scanned(),
            final(self).remaining() == old(self).remaining(),
            final(self).budget() == old(self).budget(),
            final(self).removed() == old(self).removed(),
            old(self).remaining() <= old(self).budget() ==> v is None && final(self).attempted()
                == old(self).attempted(),
            v is None && old(self).remaining() > old(self).budget() ==> forall|k: int|
                0 <= k < old(self).attempted().len() ==> #[trigger] old(self).attempted()[k],
            v matches Some(i) ==> {
                &&& old(self).remaining() > old(self).budget()
                &&& i < old(self).scanned().len()
                &&& !old(self).attempted()[i as int]
                &&& final(self).attempted() == old(self).attempted().update(i as int, true)
                &&& forall|k: int|
                    0 <= k < old(self).scanned().len() && !old(self).attempted()[k] && k != i
                        ==> evicted_before(old(self).scanned(), i as int, k)
            },
    {
        if self.total <= self.max_bytes {
            return None;
        }
        let mut best: Option<usize> = None;
        let mut k: usize = 0;
        while k < self.blobs.len()
            invariant
                k <= self.blobs@.len(),
                self.tried@.len() == self.blobs@.len(),
                best matches Some(b) ==> b < k && !self.tried@[b as int] && forall|j: int|
                    0 <= j < k && !self.tried@[j] && j != b ==> evicted_before(
                        self.blobs@,
                        b as int,
                        j,
                    ),
                best is None ==> forall|j: int| 0 <= j < k ==> #[trigger] self.tried@[j],
            decreases self.blobs@.len() - k,
        {
            if !self.tried[k] {
                match best {
                    None => {
                        best = Some(k);
                    },
                    Some(b) => {
                        if self.blobs[k].modified < self.blobs[b].modified {
                            best = Some(k);
                        }
                    },
                }
            }
            k = k + 1;
        }
        match best {
            Some(b) => {
                self.tried.set(b, true);
                Some(b)
            },
            None => None,
        }
    }

    /// Records the outcome of removing blob `i`: a removed blob no longer
    /// counts against the budget.
    pub fn record_removal(&mut self, i: usize, removed: bool)
        requires
            old(self).wf(),
            i < old(self).scanned().len(),
        ensures
            final(self).wf(),
            final(self).attempted().len() == final(self).scanned().len(),
            final(self).scanned() == old(self).scanned(),
            final(self).attempted() == old(self).attempted(),
            final(self).budget() == old(self).budget(),
            removed ==> final(self).remaining() == (if old(self).remaining() >= old(
                self,
            ).scanned()[i as int].size {
                old(self).remaining() - old(self).scanned()[i as int].size
            } else {
                0
            }) && final(self).removed() == (if old(self).removed() < usize::MAX {
                old(self).removed() + 1
            } else {
                usize::MAX as int
            }),
            !removed ==> final(self).remaining() == old(self).remaining() && final(self).removed()
                == old(self).removed(),
    {
        if removed {
            let size = self.blobs[i].size;
            self.total = if self.total >= size {
                self.total - size
            } else {
                0
            };
            self.evicted = if self.evicted < usize::MAX {
                self.evicted + 1
            } else {
                usize::MAX
            };
        }
    }

    /// How many blobs were removed.
    pub fn evicted_count(&self) -> (n: usize)
        ensures
            n == self.removed(),
    {
        self.evicted
    }
}

} // verus!

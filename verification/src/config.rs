//! Layered, typed configuration.
//!
//! Precedence, lowest to highest: compiled-in defaults, a repository-local
//! `config/default.toml`, the user's `config.toml`, and the environment
//! variables `TG_API_ID` / `TG_API_HASH`. Empty paths and sizes are then
//! resolved to platform defaults.

use vstd::prelude::*;

use crate::text::{chars_of, trim, trimmed};


verus! {

/// Errors raised while loading configuration.
#[derive(Debug, PartialEq, Eq)]
pub enum ConfigError {
    /// A configuration file could not be read.
    Io { path: String, message: String },
    /// A configuration file is not valid TOML or does not fit the schema.
    Parse { path: String, message: String },
    /// The platform application directories could not be determined.
    NoProjectDirs,
    /// `telegram.api_id` / `telegram.api_hash` are not configured.
    MissingApiCredentials,
}

/// Qualifier, organization and application name: the application identity
/// used for platform directories and Keychain service names.
pub const APP_QUALIFIER: &'static str = "dev";
pub const APP_ORGANIZATION: &'static str = "stefan";
pub const APP_NAME: &'static str = "TelegramGui";

/// Default device model reported to Telegram.
pub const DEFAULT_DEVICE_MODEL: &'static str = "TelegramGui (macOS)";

/// Default size budget of the media cache: 2 GiB.
pub const DEFAULT_CACHE_MAX_BYTES: u64 = 2147483648;

/// Telegram application identity.
#[derive(Debug, PartialEq, Eq)]
pub struct TelegramConfig {
    /// API id from my.telegram.org; `0` means "not configured".
    pub api_id: i32,
    pub api_hash: String,
    /// Device model reported to Telegram ("Active sessions").
    pub device_model: String,
    /// Catch up on missed updates after reconnecting.
    pub catch_up: bool,
}

impl Default for TelegramConfig {
    fn default() -> (r: Self)
        ensures
            r.api_id == 0,
            r.api_hash@.len() == 0,
            r.device_model@.len() == 0,
            !r.catch_up,
    {
        TelegramConfig {
            api_id: 0,
            api_hash: String::new(),
            device_model: String::new(),
            catch_up: false,
        }
    }
}

/// Storage locations.
#[derive(Debug, PartialEq, Eq)]
pub struct StorageConfig {
    /// Directory for the database; empty means the platform data directory.
    pub data_dir: String,
    /// Directory for the encrypted media cache; empty means the platform cache directory.
    pub cache_dir: String,
    /// Soft size limit of the media cache; least recently used blobs are evicted beyond it.
    pub cache_max_bytes: u64,
}

impl Default for StorageConfig {
    fn default() -> (r: Self)
        ensures
            r.data_dir@.len() == 0,
            r.cache_dir@.len() == 0,
            r.cache_max_bytes == 0,
    {
        StorageConfig { data_dir: String::new(), cache_dir: String::new(), cache_max_bytes: 0 }
    }
}

/// Logging configuration.
#[derive(Debug, PartialEq, Eq)]
pub struct LogConfig {
    /// Log filter directive, such as `info,telegram_core=debug`.
    pub filter: String,
    /// Also write a rolling log file into the data directory.
    pub file: bool,
}

impl Default for LogConfig {
    fn default() -> (r: Self)
        ensures
            r.filter@ == "info"@,
            r.file,
    {
        LogConfig { filter: String::from_str("info"), file: true }
    }
}

/// Synchronization tuning.
#[derive(Debug, PartialEq, Eq)]
pub struct SyncConfig {
    /// How many dialogs to fetch when building the chat list.
    pub dialogs_page_size: usize,
    /// How many recent messages to backfill per chat.
    pub history_page_size: usize,
    /// Initial reconnect backoff in seconds (doubles up to `backoff_max_secs`).
    pub backoff_initial_secs: u64,
    pub backoff_max_secs: u64,
}

impl Default for SyncConfig {
    fn default() -> (r: Self)
        ensures
            r.dialogs_page_size == 100,
            r.history_page_size == 50,
            r.backoff_initial_secs == 2,
            r.backoff_max_secs == 300,
    {
        SyncConfig {
            dialogs_page_size: 100,
            history_page_size: 50,
            backoff_initial_secs: 2,
            backoff_max_secs: 300,
        }
    }
}

/// Root configuration object.
#[derive(Debug, PartialEq, Eq)]
pub struct AppConfig {
    pub telegram: TelegramConfig,
    pub storage: StorageConfig,
    pub log: LogConfig,
    pub sync: SyncConfig,
}

impl Default for AppConfig {
    fn default() -> (r: Self)
        ensures
            r.telegram.api_id == 0,
            r.telegram.api_hash@.len() == 0,
            r.telegram.device_model@.len() == 0,
            !r.telegram.catch_up,
            r.storage.data_dir@.len() == 0,
            r.storage.cache_dir@.len() == 0,
            r.storage.cache_max_bytes == 0,
            r.log.filter@ == "info"@,
            r.log.file,
            r.sync.dialogs_page_size == 100,
            r.sync.history_page_size == 50,
            r.sync.backoff_initial_secs == 2,
            r.sync.backoff_max_secs == 300,
    {
        AppConfig {
            telegram: TelegramConfig::default(),
            storage: StorageConfig::default(),
            log: LogConfig::default(),
            sync: SyncConfig::default(),
        }
    }
}

impl AppConfig {
    /// Whether the Telegram application credentials are configured.
    pub open spec fn has_api_credentials(&self) -> bool {
        self.telegram.api_id != 0 && self.telegram.api_hash@.len() > 0
    }

    /// Fail fast if the Telegram application credentials are missing.
    pub fn require_api_credentials(&self) -> (r: Result<(), ConfigError>)
        ensures
            r is Ok <==> self.has_api_credentials(),
            r is Err ==> r == Err::<(), ConfigError>(ConfigError::MissingApiCredentials),
    {
        if self.telegram.api_id == 0 || self.telegram.api_hash.as_str().unicode_len() == 0 {
            return Err(ConfigError::MissingApiCredentials);
        }
        Ok(())
    }
}

// ----- environment and platform layers ------------------------------------------
/// Whether `c` is an ASCII decimal digit.
pub open spec fn is_ascii_digit(c: char) -> bool {
    '0' <= c && c <= '9'
}

/// The value of a string of ASCII decimal digits.
pub open spec fn digits_value(s: Seq<char>) -> int
    decreases s.len(),
{
    if s.len() == 0 {
        0
    } else {
        digits_value(s.drop_last()) * 10 + (s.last() as int - 48)
    }
}

/// `i32::from_str`: an optional `+` or `-` followed by one or more ASCII
/// digits, whose value fits in `i32`; anything else is an error.
pub open spec fn parsed_i32(s: Seq<char>) -> Option<i32> {
    let negative = s.len() > 0 && s[0] == '-';
    let body = if s.len() > 0 && (s[0] == '-' || s[0] == '+') {
        s.skip(1)
    } else {
        s
    };
    if body.len() == 0 || !(forall|i: int| 0 <= i < body.len() ==> is_ascii_digit(#[trigger] body[i])) {
        None
    } else {
        let v = if negative {
            -digits_value(body)
        } else {
            digits_value(body)
        };
        if i32::MIN <= v && v <= i32::MAX {
            Some(v as i32)
        } else {
            None
        }
    }
}

/// `str::parse::<i32>`.
#[verifier::external_body]
fn parse_i32(s: &str) -> (r: Option<i32>)
    ensures
        r == parsed_i32(s@),
{
    s.parse::<i32>().ok()
}

/// Applies the environment layer: `TG_API_ID` (when it parses as a number
/// after trimming) and `TG_API_HASH` (trimmed) override the file layers.
pub fn apply_env_overrides(cfg: &mut AppConfig, api_id_var: Option<&str>, api_hash_var: Option<&str>)
    ensures
        final(cfg).telegram.api_id == (match api_id_var {
            Some(v) => match parsed_i32(trimmed(v@)) {
                Some(id) => id,
                None => old(cfg).telegram.api_id,
            },
            None => old(cfg).telegram.api_id,
        }),
        final(cfg).telegram.api_hash@ == (match api_hash_var {
            Some(v) => trimmed(v@),
            None => old(cfg).telegram.api_hash@,
        }),
        final(cfg).telegram.device_model == old(cfg).telegram.device_model,
        final(cfg).telegram.catch_up == old(cfg).telegram.catch_up,
        final(cfg).storage == old(cfg).storage,
        final(cfg).log == old(cfg).log,
        final(cfg).sync == old(cfg).sync,
{
    match api_id_var {
        Some(v) => {
            let t = trim(v);
            match parse_i32(t.as_str()) {
                Some(id) => {
                    cfg.telegram.api_id = id;
                },
                None => {},
            }
        },
        None => {},
    }
    match api_hash_var {
        Some(v) => {
            cfg.telegram.api_hash = trim(v);
        },
        None => {},
    }
}

/// Whether a path is absolute (starts at the file-system root).
pub open spec fn is_absolute_path(p: Seq<char>) -> bool {
    p.len() > 0 && p[0] == '/'
}

/// `p` taken relative to the directory `base`, as `Path::join` forms it.
pub open spec fn joined_path(base: Seq<char>, p: Seq<char>) -> Seq<char> {
    if base.len() == 0 {
        p
    } else if base.last() == '/' {
        base + p
    } else {
        base + "/"@ + p
    }
}

/// A configured storage directory after loading: empty means the platform
/// directory, an absolute path stays, a relative path is taken relative to
/// `base`.
pub open spec fn resolved_dir(configured: Seq<char>, base: Seq<char>, platform: Seq<char>) -> Seq<char> {
    if configured.len() == 0 {
        platform
    } else if is_absolute_path(configured) {
        configured
    } else {
        joined_path(base, configured)
    }
}

/// Storage paths are absolute after loading, as long as the base directory
/// and the platform directory are.
pub proof fn lemma_storage_paths_absolute(configured: Seq<char>, base: Seq<char>, platform: Seq<char>)
    requires
        is_absolute_path(base),
        is_absolute_path(platform),
    ensures
        is_absolute_path(resolved_dir(configured, base, platform)),
{
    if configured.len() != 0 && !is_absolute_path(configured) {
        if base.last() == '/' {
            assert((base + configured)[0] == base[0]);
        } else {
            assert((base + "/"@ + configured)[0] == base[0]);
        }
    }
}

/// The storage directory for a configured value (see `resolved_dir`).
pub fn resolve_dir(configured: &str, base: &str, platform: &str) -> (r: String)
    ensures
        r@ == resolved_dir(configured@, base@, platform@),
{
    let c = chars_of(configured);
    if c.len() == 0 {
        return String::from_str(platform);
    }
    if c[0] == '/' {
        return String::from_str(configured);
    }
    let b = chars_of(base);
    if b.len() == 0 {
        return String::from_str(configured);
    }
    let mut out = String::from_str(base);
    if b[b.len() - 1] != '/' {
        out.append("/");
    }
    out.append(configured);
    out
}

/// Resolves what the layers left empty or relative: the data and cache
/// directories (empty means the platform directory, a relative path is
/// taken relative to `base_dir`), a zero cache budget (2 GiB), and an empty
/// device model (the application's own).
pub fn resolve_platform_defaults(
    cfg: &mut AppConfig,
    base_dir: &str,
    platform_data_dir: &str,
    platform_cache_dir: &str,
)
    ensures
        final(cfg).storage.data_dir@ == resolved_dir(
            old(cfg).storage.data_dir@,
            base_dir@,
            platform_data_dir@,
        ),
        final(cfg).storage.cache_dir@ == resolved_dir(
            old(cfg).storage.cache_dir@,
            base_dir@,
            platform_cache_dir@,
        ),
        final(cfg).storage.cache_max_bytes == (if old(cfg).storage.cache_max_bytes == 0 {
            DEFAULT_CACHE_MAX_BYTES
        } else {
            old(cfg).storage.cache_max_bytes
        }),
        final(cfg).telegram.device_model@ == (if old(cfg).telegram.device_model@.len() == 0 {
            DEFAULT_DEVICE_MODEL@
        } else {
            old(cfg).telegram.device_model@
        }),
        final(cfg).telegram.api_id == old(cfg).telegram.api_id,
        final(cfg).telegram.api_hash == old(cfg).telegram.api_hash,
        final(cfg).telegram.catch_up == old(cfg).telegram.catch_up,
        final(cfg).log == old(cfg).log,
        final(cfg).sync == old(cfg).sync,
{
    let data_dir = resolve_dir(cfg.storage.data_dir.as_str(), base_dir, platform_data_dir);
    cfg.storage.data_dir = data_dir;
    let cache_dir = resolve_dir(cfg.storage.cache_dir.as_str(), base_dir, platform_cache_dir);
    cfg.storage.cache_dir = cache_dir;
    if cfg.storage.cache_max_bytes == 0 {
        cfg.storage.cache_max_bytes = DEFAULT_CACHE_MAX_BYTES;
    }
    if cfg.telegram.device_model.as_str().unicode_len() == 0 {
        cfg.telegram.device_model = String::from_str(DEFAULT_DEVICE_MODEL);
    }
}

// ----- merging configuration layers -----------------------------------------------
/// A configuration document or value, as parsed from TOML. A table lists
/// its entries; a float keeps its decimal text, a datetime its TOML text.
#[derive(Debug, PartialEq)]
pub enum ConfigValue {
    Str(String),
    Integer(i64),
    Float(String),
    Boolean(bool),
    Datetime(String),
    Array(Vec<ConfigValue>),
    Table(Vec<(String, ConfigValue)>),
}

/// The meaning of a configuration value: a table is a map from keys to
/// values, a later entry for a key replacing an earlier one.
pub enum ConfigValueView {
    Str(Seq<char>),
    Integer(i64),
    Float(Seq<char>),
    Boolean(bool),
    Datetime(Seq<char>),
    Array(Seq<ConfigValueView>),
    Table(Map<Seq<char>, ConfigValueView>),
}

/// The meaning of a configuration value.
pub open spec fn value_view(v: ConfigValue) -> ConfigValueView
    decreases v,
{
    match v {
        ConfigValue::Str(s) => ConfigValueView::Str(s@),
        ConfigValue::Integer(i) => ConfigValueView::Integer(i),
        ConfigValue::Float(s) => ConfigValueView::Float(s@),
        ConfigValue::Boolean(b) => ConfigValueView::Boolean(b),
        ConfigValue::Datetime(s) => ConfigValueView::Datetime(s@),
        ConfigValue::Array(items) => ConfigValueView::Array(items_view(items@)),
        ConfigValue::Table(entries) => ConfigValueView::Table(entries_view(entries@)),
    }
}

/// The meanings of array items.
pub open spec fn items_view(items: Seq<ConfigValue>) -> Seq<ConfigValueView>
    decreases items,
{
    if items.len() == 0 {
        Seq::empty()
    } else {
        items_view(items.subrange(0, items.len() - 1)).push(value_view(items[items.len() - 1]))
    }
}

/// The map a table's entries describe.
pub open spec fn entries_view(entries: Seq<(String, ConfigValue)>) -> Map<Seq<char>, ConfigValueView>
    decreases entries,
{
    if entries.len() == 0 {
        Map::empty()
    } else {
        entries_view(entries.subrange(0, entries.len() - 1)).insert(
            entries[entries.len() - 1].0@,
            value_view(entries[entries.len() - 1].1),
        )
    }
}

/// `overlay` merged on top of `base`: tables merge key by key (recursively
/// for keys both hold), anything else is replaced by the overlay.
pub open spec fn merged(base: ConfigValueView, overlay: ConfigValueView) -> ConfigValueView
    decreases overlay,
{
    match (base, overlay) {
        (ConfigValueView::Table(b), ConfigValueView::Table(o)) => ConfigValueView::Table(
            Map::new(
                |k: Seq<char>| b.contains_key(k) || o.contains_key(k),
                |k: Seq<char>|
                    if o.contains_key(k) {
                        if b.contains_key(k) {
                            merged(b[k], o[k])
                        } else {
                            o[k]
                        }
                    } else {
                        b[k]
                    },
            ),
        ),
        (_, o) => o,
    }
}

/// Whether some entry has key `key`.
pub open spec fn has_key(entries: Seq<(String, ConfigValue)>, key: Seq<char>) -> bool {
    exists|i: int| 0 <= i < entries.len() && entries[i].0@ == key
}

proof fn lemma_entries_view_dom(entries: Seq<(String, ConfigValue)>, key: Seq<char>)
    ensures
        entries_view(entries).contains_key(key) <==> has_key(entries, key),
    decreases entries.len(),
{
    if entries.len() > 0 {
        let pre = entries.subrange(0, entries.len() - 1);
        lemma_entries_view_dom(pre, key);
        if has_key(pre, key) {
            let i = choose|i: int| 0 <= i < pre.len() && pre[i].0@ == key;
            assert(entries[i] == pre[i]);
        }
        if has_key(entries, key) && entries[entries.len() - 1].0@ != key {
            let i = choose|i: int| 0 <= i < entries.len() && entries[i].0@ == key;
            assert(pre[i] == entries[i]);
        }
    }
}

proof fn lemma_entries_view_concat(a: Seq<(String, ConfigValue)>, b: Seq<(String, ConfigValue)>)
    ensures
        entries_view(a + b) == entries_view(a).union_prefer_right(entries_view(b)),
    decreases b.len(),
{
    if b.len() == 0 {
        assert(a + b == a);
        assert(entries_view(a).union_prefer_right(entries_view(b)) =~= entries_view(a));
    } else {
        let b0 = b.subrange(0, b.len() - 1);
        lemma_entries_view_concat(a, b0);
        let ab = a + b;
        assert(ab.subrange(0, ab.len() - 1) == a + b0);
        assert(ab[ab.len() - 1] == b[b.len() - 1]);
        assert(entries_view(ab) =~= entries_view(a).union_prefer_right(entries_view(b)));
    }
}

proof fn lemma_entries_view_single(e: (String, ConfigValue))
    ensures
        entries_view(seq![e]) == Map::<Seq<char>, ConfigValueView>::empty().insert(
            e.0@,
            value_view(e.1),
        ),
{
    reveal_with_fuel(entries_view, 2);
    assert(seq![e].subrange(0, 0) =~= Seq::<(String, ConfigValue)>::empty());
}

/// Replacing the last entry of a key: the value it held is what the table
/// maps the key to, and dropping it before re-adding the key changes only
/// that key.
proof fn lemma_replace_last_key(
    entries: Seq<(String, ConfigValue)>,
    idx: int,
    key: Seq<char>,
    m: ConfigValueView,
)
    requires
        0 <= idx < entries.len(),
        entries[idx].0@ == key,
        forall|j: int| idx < j < entries.len() ==> entries[j].0@ != key,
    ensures
        entries_view(entries).contains_key(key),
        entries_view(entries)[key] == value_view(entries[idx].1),
        entries_view(entries.remove(idx)).insert(key, m) == entries_view(entries).insert(key, m),
{
    let a = entries.subrange(0, idx);
    let c = entries.subrange(idx + 1, entries.len() as int);
    let e = entries[idx];
    assert(entries == a + seq![e] + c);
    assert(entries.remove(idx) == a + c);
    lemma_entries_view_concat(a + seq![e], c);
    lemma_entries_view_concat(a, seq![e]);
    lemma_entries_view_concat(a, c);
    lemma_entries_view_single(e);
    lemma_entries_view_dom(c, key);
    assert(!has_key(c, key)) by {
        if has_key(c, key) {
            let j = choose|j: int| 0 <= j < c.len() && c[j].0@ == key;
            assert(entries[idx + 1 + j] == c[j]);
        }
    }
    assert(entries_view(entries.remove(idx)).insert(key, m) =~= entries_view(entries).insert(
        key,
        m,
    ));
}

/// The table being built while the overlay entries are processed: keys
/// still ahead in the overlay keep their base value; the others are merged.
pub open spec fn partial_merge(
    b: Map<Seq<char>, ConfigValueView>,
    o: Map<Seq<char>, ConfigValueView>,
    pending: Map<Seq<char>, ConfigValueView>,
) -> Map<Seq<char>, ConfigValueView> {
    Map::new(
        |k: Seq<char>| b.contains_key(k) || (o.contains_key(k) && !pending.contains_key(k)),
        |k: Seq<char>|
            if o.contains_key(k) && !pending.contains_key(k) {
                if b.contains_key(k) {
                    merged(b[k], o[k])
                } else {
                    o[k]
                }
            } else {
                b[k]
            },
    )
}

fn last_key_index(entries: &Vec<(String, ConfigValue)>, key: &String) -> (r: Option<usize>)
    ensures
        match r {
            Some(i) => i < entries@.len() && entries@[i as int].0@ == key@ && forall|j: int|
                i < j < entries@.len() ==> entries@[j].0@ != key@,
            None => !has_key(entries@, key@),
        },
{
    let mut i: usize = entries.len();
    while i > 0
        invariant
            i <= entries@.len(),
            forall|j: int| i <= j < entries@.len() ==> entries@[j].0@ != key@,
        decreases i,
    {
        if entries[i - 1].0 == *key {
            return Some(i - 1);
        }
        i = i - 1;
    }
    proof {
        if has_key(entries@, key@) {
            let j = choose|j: int| 0 <= j < entries@.len() && entries@[j].0@ == key@;
            assert(entries@[j].0@ != key@);
        }
    }
    None
}

/// `overlay` merged on top of `base` (tables merge key by key, recursively;
/// scalars and arrays of the overlay replace the base).
pub fn merge_config(base: ConfigValue, overlay: ConfigValue) -> (r: ConfigValue)
    ensures
        value_view(r) == merged(value_view(base), value_view(overlay)),
    decreases overlay,
{
    let ghost ov = overlay;
    let ghost bv = base;
    match (base, overlay) {
        (ConfigValue::Table(b), ConfigValue::Table(o)) => {
            let ghost orig = o@;
            let ghost bm = entries_view(b@);
            let ghost om = entries_view(o@);
            let mut acc = b;
            let mut rest = o;
            let mut i: usize = 0;
            assert(orig.len() == rest.len());
            proof {
                assert(orig.subrange(0, 0) + orig == orig);
                assert(partial_merge(bm, om, entries_view(orig)) =~= bm);
            }
            #[verifier::loop_isolation(false)]
            while rest.len() > 0
                invariant
                    i <= orig.len(),
                    orig.len() <= usize::MAX,
                    rest@ == orig.subrange(i as int, orig.len() as int),
                    rest@.len() + i == orig.len(),
                    om == entries_view(orig),
                    ov == ConfigValue::Table(o_vec_of(ov)),
                    o_vec_of(ov)@ == orig,
                    entries_view(acc@) == partial_merge(bm, om, entries_view(rest@)),
                decreases rest.len(),
            {
                let (k, v) = rest.remove(0);
                let ghost tail = rest@;
                proof {
                    assert(orig[i as int] == (k, v));
                    assert(tail == orig.subrange(i + 1, orig.len() as int));
                    assert(orig.subrange(i as int, orig.len() as int) == seq![(k, v)] + tail);
                    lemma_entries_view_concat(seq![(k, v)], tail);
                    lemma_entries_view_single((k, v));
                    lemma_entries_view_concat(orig.subrange(0, i + 1), tail);
                    assert(orig == orig.subrange(0, i + 1) + tail);
                }
                let later = last_key_index(&rest, &k);
                match later {
                    Some(_) => {
                        proof {
                            lemma_entries_view_dom(tail, k@);
                            let pend_before = entries_view(seq![(k, v)] + tail);
                            assert(pend_before.dom() =~= entries_view(tail).dom());
                            assert(partial_merge(bm, om, pend_before) =~= partial_merge(
                                bm,
                                om,
                                entries_view(tail),
                            ));
                        }
                    },
                    None => {
                        proof {
                            lemma_entries_view_dom(tail, k@);
                            assert(om.contains_key(k@) && om[k@] == value_view(v));
                        }
                        let ghost acc_old = acc@;
                        let ghost pend_before = entries_view(seq![(k, v)] + tail);
                        proof {
                            lemma_entries_view_dom(acc_old, k@);
                            assert(pend_before.contains_key(k@));
                            assert(pend_before.dom() =~= entries_view(tail).dom().insert(k@));
                        }
                        let found = last_key_index(&acc, &k);
                        match found {
                            Some(idx) => {
                                let (_, old_value) = acc.remove(idx);
                                proof {
                                    assert(o_vec_of(ov)@[i as int] == (k, v));
                                    assert(decreases_to!(ov => o_vec_of(ov)));
                                    assert(decreases_to!(o_vec_of(ov) => o_vec_of(ov)@));
                                    assert(decreases_to!(o_vec_of(ov)@ => o_vec_of(ov)@[i as int]));
                                    assert(decreases_to!(o_vec_of(ov)@[i as int] => v));
                                    assert(decreases_to!(ov => v));
                                    lemma_replace_last_key(acc_old, idx as int, k@, value_view(old_value));
                                    assert(bm.contains_key(k@));
                                    assert(value_view(old_value) == bm[k@]);
                                }
                                let m = merge_config(old_value, v);
                                acc.push((k, m));
                                proof {
                                    let km = k@;
                                    lemma_replace_last_key(acc_old, idx as int, km, value_view(m));
                                    assert(acc@.subrange(0, acc@.len() - 1) == acc_old.remove(idx as int));
                                    assert(entries_view(acc@) == entries_view(acc_old.remove(idx as int)).insert(
                                        km,
                                        value_view(m),
                                    ));
                                    assert(entries_view(acc@) =~= partial_merge(bm, om, entries_view(tail)));
                                }
                            },
                            None => {
                                acc.push((k, v));
                                proof {
                                    assert(!bm.contains_key(k@));
                                    assert(acc@.subrange(0, acc@.len() - 1) == acc_old);
                                    assert(entries_view(acc@) == entries_view(acc_old).insert(k@, value_view(v)));
                                    assert(entries_view(acc@) =~= partial_merge(bm, om, entries_view(tail)));
                                }
                            },
                        }
                    },
                }
                i = i + 1;
            }
            proof {
                assert(rest@ =~= Seq::<(String, ConfigValue)>::empty());
                assert(partial_merge(bm, om, entries_view(rest@)) =~= match merged(
                    value_view(bv),
                    value_view(ov),
                ) {
                    ConfigValueView::Table(m) => m,
                    _ => Map::empty(),
                });
            }
            ConfigValue::Table(acc)
        },
        (_, o) => o,
    }
}

/// The entries of a table value.
pub open spec fn o_vec_of(v: ConfigValue) -> Vec<(String, ConfigValue)> {
    match v {
        ConfigValue::Table(e) => e,
        _ => arbitrary(),
    }
}

/// Merging layers: the result holds the keys of both tables; a key only
/// the overlay holds takes the overlay's value, a key only the base holds
/// keeps the base value, and a key both hold is merged, so an overlay
/// scalar replaces the base and nested tables merge in turn.
pub proof fn lemma_merge_layers(
    b: Map<Seq<char>, ConfigValueView>,
    o: Map<Seq<char>, ConfigValueView>,
    k: Seq<char>,
)
    ensures
        merged(ConfigValueView::Table(b), ConfigValueView::Table(o)) matches ConfigValueView::Table(m) && {
            &&& m.contains_key(k) <==> (b.contains_key(k) || o.contains_key(k))
            &&& o.contains_key(k) && !b.contains_key(k) ==> m[k] == o[k]
            &&& b.contains_key(k) && !o.contains_key(k) ==> m[k] == b[k]
            &&& b.contains_key(k) && o.contains_key(k) ==> m[k] == merged(b[k], o[k])
            &&& b.contains_key(k) && o.contains_key(k) && !(o[k] is Table) ==> m[k] == o[k]
        },
{
}

/// A scalar or array overlay replaces whatever the base holds.
pub proof fn lemma_merge_replaces_non_tables(b: ConfigValueView, o: ConfigValueView)
    requires
        !(o is Table),
    ensures
        merged(b, o) == o,
{
}

impl ConfigValue {
    /// The value a table maps `key` to (its last entry for the key).
    pub fn get(&self, key: &str) -> (r: Option<&ConfigValue>)
        ensures
            match self {
                ConfigValue::Table(entries) => match r {
                    Some(v) => entries_view(entries@).contains_key(key@) && value_view(*v)
                        == entries_view(entries@)[key@],
                    None => !entries_view(entries@).contains_key(key@),
                },
                _ => r is None,
            },
    {
        match self {
            ConfigValue::Table(entries) => {
                let k = String::from_str(key);
                match last_key_index(entries, &k) {
                    Some(i) => {
                        proof {
                            lemma_replace_last_key(entries@, i as int, key@, value_view(entries@[i as int].1));
                        }
                        Some(&entries[i].1)
                    },
                    None => {
                        proof {
                            lemma_entries_view_dom(entries@, key@);
                        }
                        None
                    },
                }
            },
            _ => None,
        }
    }

    /// The integer of an integer value.
    pub fn as_integer(&self) -> (r: Option<i64>)
        ensures
            r == (match self {
                ConfigValue::Integer(i) => Some(*i),
                _ => None,
            }),
    {
        match self {
            ConfigValue::Integer(i) => Some(*i),
            _ => None,
        }
    }

    /// The text of a string value.
    pub fn as_str(&self) -> (r: Option<&str>)
        ensures
            match self {
                ConfigValue::Str(s) => r matches Some(t) && t@ == s@,
                _ => r is None,
            },
    {
        match self {
            ConfigValue::Str(s) => Some(s.as_str()),
            _ => None,
        }
    }
}

#[verifier::external_type_specification]
#[verifier::external_body]
pub struct ExTomlValue(toml::Value);

/// What `toml` parses a document into, as a configuration value, or the
/// parser's error message.
pub uninterp spec fn toml_document(text: Seq<char>) -> Result<ConfigValueView, Seq<char>>;

/// A `toml::Value` as a configuration value, field by field (a float by
/// its `f64` decimal rendering, a datetime by its TOML text).
#[verifier::external_body]
fn config_value_of(value: toml::Value) -> ConfigValue {
    match value {
        toml::Value::String(s) => ConfigValue::Str(s),
        toml::Value::Integer(i) => ConfigValue::Integer(i),
        toml::Value::Float(f) => ConfigValue::Float(f.to_string()),
        toml::Value::Boolean(b) => ConfigValue::Boolean(b),
        toml::Value::Datetime(d) => ConfigValue::Datetime(d.to_string()),
        toml::Value::Array(items) => ConfigValue::Array(items.into_iter().map(config_value_of).collect()),
        toml::Value::Table(t) => ConfigValue::Table(t.into_iter().map(|(k, v)| (k, config_value_of(v))).collect()),
    }
}

/// `toml::from_str` of a document into a value.
#[verifier::external_body]
fn parse_toml(text: &str) -> (r: Result<ConfigValue, String>)
    ensures
        match (r, toml_document(text@)) {
            (Ok(v), Ok(w)) => value_view(v) == w,
            (Err(e), Err(m)) => e@ == m,
            _ => false,
        },
{
    toml::from_str::<toml::Value>(text).map(config_value_of).map_err(|e| e.to_string())
}

/// Parses one configuration layer read from `path`; a syntax error is a
/// `Parse` error naming the file.
pub fn parse_layer(path: &str, text: &str) -> (r: Result<ConfigValue, ConfigError>)
    ensures
        match (r, toml_document(text@)) {
            (Ok(v), Ok(w)) => value_view(v) == w,
            (Err(ConfigError::Parse { path: p, message }), Err(m)) => p@ == path@ && message@ == m,
            _ => false,
        },
{
    match parse_toml(text) {
        Ok(v) => Ok(v),
        Err(message) => Err(ConfigError::Parse { path: String::from_str(path), message }),
    }
}

/// Merges the layer in `text` (read from `path`) over `current`.
pub fn merge_layer(current: ConfigValue, path: &str, text: &str) -> (r: Result<ConfigValue, ConfigError>)
    ensures
        match (r, toml_document(text@)) {
            (Ok(v), Ok(w)) => value_view(v) == merged(value_view(current), w),
            (Err(ConfigError::Parse { path: p, message }), Err(m)) => p@ == path@ && message@ == m,
            _ => false,
        },
{
    let overlay = parse_layer(path, text)?;
    Ok(merge_config(current, overlay))
}

} // verus!

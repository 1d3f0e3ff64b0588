use vstd::prelude::*;

use crate::text::{decimal, lemma_lookup_skip, lookup_bucket, push_decimal};

verus! {

/// Page-cache size, in KiB, used when nothing else is configured.
pub const DEFAULT_CACHE_SIZE: u32 = 65_536;

/// Number of reader connections per database, and the inbound request cap.
pub const DEFAULT_CONCURRENCY_LIMIT: u16 = 16;

/// Port the service listens on by default.
pub const DEFAULT_PORT: u16 = 8014;

/// The engine's `journal_mode` pragma.
#[allow(non_camel_case_types, clippy::upper_case_acronyms)]
#[derive(Copy, Clone, Debug, PartialEq, Eq, Structural, PartialOrd, Ord, Hash)]
pub enum JournalMode {
    DELETE,
    TRUNCATE,
    PERSIST,
    MEMORY,
    WAL,
    OFF,
}

/// The engine's `synchronous` pragma.
#[allow(non_camel_case_types, clippy::upper_case_acronyms)]
#[derive(Copy, Clone, Debug, PartialEq, Eq, Structural, PartialOrd, Ord, Hash)]
pub enum Synchronous {
    OFF,
    NORMAL,
    FULL,
    EXTRA,
}

/// The engine's `temp_store` pragma.
#[allow(non_camel_case_types, clippy::upper_case_acronyms)]
#[derive(Copy, Clone, Debug, PartialEq, Eq, Structural, PartialOrd, Ord, Hash)]
pub enum TempStore {
    DEFAULT,
    FILE,
    MEMORY,
}

impl JournalMode {
    pub open spec fn spec_keyword(self) -> Seq<char> {
        match self {
            JournalMode::DELETE => "DELETE"@,
            JournalMode::TRUNCATE => "TRUNCATE"@,
            JournalMode::PERSIST => "PERSIST"@,
            JournalMode::MEMORY => "MEMORY"@,
            JournalMode::WAL => "WAL"@,
            JournalMode::OFF => "OFF"@,
        }
    }

    /// The keyword the pragma takes for this mode.
    pub fn keyword(self) -> (r: &'static str)
        ensures
            r@ == self.spec_keyword(),
    {
        match self {
            JournalMode::DELETE => "DELETE",
            JournalMode::TRUNCATE => "TRUNCATE",
            JournalMode::PERSIST => "PERSIST",
            JournalMode::MEMORY => "MEMORY",
            JournalMode::WAL => "WAL",
            JournalMode::OFF => "OFF",
        }
    }
}

impl Default for JournalMode {
    fn default() -> (r: Self)
        ensures
            r == JournalMode::WAL,
    {
        JournalMode::WAL
    }
}

impl Synchronous {
    pub open spec fn spec_keyword(self) -> Seq<char> {
        match self {
            Synchronous::OFF => "OFF"@,
            Synchronous::NORMAL => "NORMAL"@,
            Synchronous::FULL => "FULL"@,
            Synchronous::EXTRA => "EXTRA"@,
        }
    }

    /// The keyword the pragma takes for this level.
    pub fn keyword(self) -> (r: &'static str)
        ensures
            r@ == self.spec_keyword(),
    {
        match self {
            Synchronous::OFF => "OFF",
            Synchronous::NORMAL => "NORMAL",
            Synchronous::FULL => "FULL",
            Synchronous::EXTRA => "EXTRA",
        }
    }
}

impl Default for Synchronous {
    fn default() -> (r: Self)
        ensures
            r == Synchronous::NORMAL,
    {
        Synchronous::NORMAL
    }
}

impl TempStore {
    pub open spec fn spec_keyword(self) -> Seq<char> {
        match self {
            TempStore::DEFAULT => "DEFAULT"@,
            TempStore::FILE => "FILE"@,
            TempStore::MEMORY => "MEMORY"@,
        }
    }

    /// The keyword the pragma takes for this location.
    pub fn keyword(self) -> (r: &'static str)
        ensures
            r@ == self.spec_keyword(),
    {
        match self {
            TempStore::DEFAULT => "DEFAULT",
            TempStore::FILE => "FILE",
            TempStore::MEMORY => "MEMORY",
        }
    }
}

impl Default for TempStore {
    fn default() -> (r: Self)
        ensures
            r == TempStore::MEMORY,
    {
        TempStore::MEMORY
    }
}

/// Engine tuning shared by every database unless a bucket overrides it.
#[derive(Copy, Clone, Debug, PartialEq, Eq, Structural)]
pub struct Pragmas {
    pub journal_mode: JournalMode,
    pub synchronous: Synchronous,
    pub temp_store: TempStore,
    /// Page-cache size in KiB.
    pub cache_size: u32,
}

impl Default for Pragmas {
    fn default() -> (r: Self)
        ensures
            r == (Pragmas {
                journal_mode: JournalMode::WAL,
                synchronous: Synchronous::NORMAL,
                temp_store: TempStore::MEMORY,
                cache_size: DEFAULT_CACHE_SIZE,
            }),
    {
        Pragmas {
            journal_mode: default_journal_mode(),
            synchronous: default_synchronous(),
            temp_store: default_temp_store(),
            cache_size: default_cache_size(),
        }
    }
}

/// Per-bucket overrides of the engine tuning; `None` keeps the global value.
#[derive(Copy, Clone, Debug, PartialEq, Eq, Structural)]
pub struct BucketPragmas {
    pub journal_mode: Option<JournalMode>,
    pub synchronous: Option<Synchronous>,
    pub temp_store: Option<TempStore>,
    pub cache_size: Option<u32>,
}

/// Settings of one bucket; `None` keeps the global value.
#[derive(Copy, Clone, Debug, PartialEq, Eq, Structural)]
pub struct Bucket {
    pub read_only: Option<bool>,
    pub sqlite: Option<BucketPragmas>,
}

/// The service configuration.
#[derive(Clone, Debug)]
pub struct Config {
    /// Directory holding one `.sqlite3` file per bucket.
    pub root: String,
    /// Address to listen on, in its textual form.
    pub host: String,
    pub port: u16,
    pub access_key: Option<String>,
    pub secret_key: Option<String>,
    /// Readers per database, and the cap on concurrent requests.
    pub concurrency_limit: u16,
    pub permissive_cors: bool,
    /// Domain enabling virtual-hosted-style requests.
    pub domain_name: Option<String>,
    pub read_only: bool,
    pub sqlite: Pragmas,
    /// Per-bucket settings, by bucket name; the first entry of a name counts.
    pub buckets: Vec<(String, Bucket)>,
}

pub open spec fn name_view(bucket: Option<&str>) -> Option<Seq<char>> {
    match bucket {
        Some(b) => Some(b@),
        None => None,
    }
}

impl Config {
    /// The settings that apply to `bucket`, if it has any.
    pub open spec fn bucket_settings(&self, bucket: Option<Seq<char>>) -> Option<Bucket> {
        match bucket {
            Some(name) => lookup_bucket(self.buckets@, name),
            None => None,
        }
    }

    pub open spec fn bucket_pragmas(&self, bucket: Option<Seq<char>>) -> Option<BucketPragmas> {
        match self.bucket_settings(bucket) {
            Some(b) => b.sqlite,
            None => None,
        }
    }

    pub open spec fn spec_read_only(&self, bucket: Option<Seq<char>>) -> bool {
        match self.bucket_settings(bucket) {
            Some(b) => match b.read_only {
                Some(r) => r,
                None => self.read_only,
            },
            None => self.read_only,
        }
    }

    pub open spec fn spec_journal_mode(&self, bucket: Option<Seq<char>>) -> JournalMode {
        match self.bucket_pragmas(bucket) {
            Some(p) => match p.journal_mode {
                Some(v) => v,
                None => self.sqlite.journal_mode,
            },
            None => self.sqlite.journal_mode,
        }
    }

    pub open spec fn spec_synchronous(&self, bucket: Option<Seq<char>>) -> Synchronous {
        match self.bucket_pragmas(bucket) {
            Some(p) => match p.synchronous {
                Some(v) => v,
                None => self.sqlite.synchronous,
            },
            None => self.sqlite.synchronous,
        }
    }

    pub open spec fn spec_temp_store(&self, bucket: Option<Seq<char>>) -> TempStore {
        match self.bucket_pragmas(bucket) {
            Some(p) => match p.temp_store {
                Some(v) => v,
                None => self.sqlite.temp_store,
            },
            None => self.sqlite.temp_store,
        }
    }

    pub open spec fn spec_cache_size(&self, bucket: Option<Seq<char>>) -> u32 {
        match self.bucket_pragmas(bucket) {
            Some(p) => match p.cache_size {
                Some(v) => v,
                None => self.sqlite.cache_size,
            },
            None => self.sqlite.cache_size,
        }
    }

    /// The settings of the first entry named `bucket`.
    pub fn bucket_settings_of(&self, bucket: Option<&str>) -> (r: Option<Bucket>)
        ensures
            r == self.bucket_settings(name_view(bucket)),
    {
        match bucket {
            None => None,
            Some(name) => {
                let wanted = String::from_str(name);
                let mut i: usize = 0;
                while i < self.buckets.len()
                    invariant
                        i <= self.buckets@.len(),
                        wanted@ == name@,
                        bucket == Some(name),
                        forall|k: int| 0 <= k < i ==> self.buckets@[k].0@ != name@,
                    decreases self.buckets@.len() - i,
                {
                    if self.buckets[i].0 == wanted {
                        proof {
                            lemma_lookup_skip(self.buckets@, name@, i as int);
                            let rest = self.buckets@.skip(i as int);
                            assert(rest.len() > 0);
                            assert(rest[0] == self.buckets@[i as int]);
                            assert(rest[0].0@ == name@);
                            assert(lookup_bucket(rest, name@) == Some(rest[0].1));
                        }
                        return Some(self.buckets[i].1);
                    }
                    i = i + 1;
                }
                proof {
                    lemma_lookup_skip(self.buckets@, name@, i as int);
                    assert(self.buckets@.skip(i as int).len() == 0);
                }
                None
            },
        }
    }

    fn bucket_pragmas_of(&self, bucket: Option<&str>) -> (r: Option<BucketPragmas>)
        ensures
            r == self.bucket_pragmas(name_view(bucket)),
    {
        match self.bucket_settings_of(bucket) {
            Some(b) => b.sqlite,
            None => None,
        }
    }

    /// Whether `bucket` (or, for `None`, the whole service) refuses writes.
    #[must_use]
    pub fn read_only(&self, bucket: Option<&str>) -> (r: bool)
        ensures
            r == self.spec_read_only(name_view(bucket)),
    {
        match self.bucket_settings_of(bucket) {
            Some(b) => match b.read_only {
                Some(r) => r,
                None => self.read_only,
            },
            None => self.read_only,
        }
    }

    /// The effective journal mode of `bucket`.
    #[must_use]
    pub fn journal_mode(&self, bucket: Option<&str>) -> (r: JournalMode)
        ensures
            r == self.spec_journal_mode(name_view(bucket)),
    {
        match self.bucket_pragmas_of(bucket) {
            Some(p) => match p.journal_mode {
                Some(v) => v,
                None => self.sqlite.journal_mode,
            },
            None => self.sqlite.journal_mode,
        }
    }

    /// The effective synchronous level of `bucket`.
    #[must_use]
    pub fn synchronous(&self, bucket: Option<&str>) -> (r: Synchronous)
        ensures
            r == self.spec_synchronous(name_view(bucket)),
    {
        match self.bucket_pragmas_of(bucket) {
            Some(p) => match p.synchronous {
                Some(v) => v,
                None => self.sqlite.synchronous,
            },
            None => self.sqlite.synchronous,
        }
    }

    /// The effective temp-store location of `bucket`.
    #[must_use]
    pub fn temp_store(&self, bucket: Option<&str>) -> (r: TempStore)
        ensures
            r == self.spec_temp_store(name_view(bucket)),
    {
        match self.bucket_pragmas_of(bucket) {
            Some(p) => match p.temp_store {
                Some(v) => v,
                None => self.sqlite.temp_store,
            },
            None => self.sqlite.temp_store,
        }
    }

    /// The effective page-cache size of `bucket`, in KiB.
    #[must_use]
    pub fn cache_size(&self, bucket: Option<&str>) -> (r: u32)
        ensures
            r == self.spec_cache_size(name_view(bucket)),
    {
        match self.bucket_pragmas_of(bucket) {
            Some(p) => match p.cache_size {
                Some(v) => v,
                None => self.sqlite.cache_size,
            },
            None => self.sqlite.cache_size,
        }
    }

    /// The pragma script every new connection to `bucket` runs before use.
    #[must_use]
    pub fn to_sql(&self, bucket: Option<&str>) -> (r: String)
        ensures
            r@ == pragma_script(
                self.spec_journal_mode(name_view(bucket)),
                self.spec_synchronous(name_view(bucket)),
                self.spec_temp_store(name_view(bucket)),
                self.spec_cache_size(name_view(bucket)),
                self.spec_read_only(name_view(bucket)),
            ),
    {
        let mut s = String::from_str("PRAGMA journal_mode=");
        s.append(self.journal_mode(bucket).keyword());
        s.append(";\nPRAGMA synchronous=");
        s.append(self.synchronous(bucket).keyword());
        s.append(";\nPRAGMA temp_store=");
        s.append(self.temp_store(bucket).keyword());
        s.append(";\nPRAGMA cache_size=-");
        push_decimal(&mut s, self.cache_size(bucket) as u64);
        s.append(";\nPRAGMA query_only=");
        s.append(if self.read_only(bucket) { "true" } else { "false" });
        s.append(";\nPRAGMA foreign_keys=true;\nPRAGMA auto_vacuum=INCREMENTAL;\n");
        s
    }
}

/// The pragma script for the given knobs: the four tunable pragmas, then
/// `query_only`, then the two fixed ones.
pub open spec fn pragma_script(
    journal_mode: JournalMode,
    synchronous: Synchronous,
    temp_store: TempStore,
    cache_size: u32,
    read_only: bool,
) -> Seq<char> {
    "PRAGMA journal_mode="@ + journal_mode.spec_keyword() + ";\nPRAGMA synchronous="@
        + synchronous.spec_keyword() + ";\nPRAGMA temp_store="@ + temp_store.spec_keyword()
        + ";\nPRAGMA cache_size=-"@ + decimal(cache_size as nat) + ";\nPRAGMA query_only="@ + (
    if read_only {
        "true"@
    } else {
        "false"@
    }) + ";\nPRAGMA foreign_keys=true;\nPRAGMA auto_vacuum=INCREMENTAL;\n"@
}

impl Default for Config {
    fn default() -> (r: Self)
        ensures
            r.root@ == "."@,
            r.host@ == "0.0.0.0"@,
            r.port == DEFAULT_PORT,
            r.access_key is None,
            r.secret_key is None,
            r.concurrency_limit == DEFAULT_CONCURRENCY_LIMIT,
            r.permissive_cors,
            r.domain_name is None,
            !r.read_only,
            r.sqlite == Pragmas::default_value(),
            r.buckets@.len() == 0,
    {
        Config {
            root: default_root(),
            host: default_host(),
            port: default_port(),
            access_key: None,
            secret_key: None,
            concurrency_limit: default_concurrency_limit(),
            permissive_cors: default_permissive_cors(),
            domain_name: None,
            read_only: default_read_only(),
            sqlite: default_pragmas(),
            buckets: Vec::new(),
        }
    }
}

impl Pragmas {
    pub open spec fn default_value() -> Pragmas {
        Pragmas {
            journal_mode: JournalMode::WAL,
            synchronous: Synchronous::NORMAL,
            temp_store: TempStore::MEMORY,
            cache_size: DEFAULT_CACHE_SIZE,
        }
    }
}

/// The bucket directory used when none is configured: the working directory.
pub fn default_root() -> (r: String)
    ensures
        r@ == "."@,
{
    String::from_str(".")
}

/// The address listened on when none is configured: every interface.
pub fn default_host() -> (r: String)
    ensures
        r@ == "0.0.0.0"@,
{
    String::from_str("0.0.0.0")
}

pub fn default_port() -> (r: u16)
    ensures
        r == DEFAULT_PORT,
{
    DEFAULT_PORT
}

pub fn default_concurrency_limit() -> (r: u16)
    ensures
        r == DEFAULT_CONCURRENCY_LIMIT,
{
    DEFAULT_CONCURRENCY_LIMIT
}

pub fn default_permissive_cors() -> (r: bool)
    ensures
        r,
{
    true
}

pub fn default_read_only() -> (r: bool)
    ensures
        !r,
{
    false
}

pub fn default_pragmas() -> (r: Pragmas)
    ensures
        r == Pragmas::default_value(),
{
    Pragmas::default()
}

pub fn default_journal_mode() -> (r: JournalMode)
    ensures
        r == JournalMode::WAL,
{
    JournalMode::default()
}

pub fn default_synchronous() -> (r: Synchronous)
    ensures
        r == Synchronous::NORMAL,
{
    Synchronous::default()
}

pub fn default_temp_store() -> (r: TempStore)
    ensures
        r == TempStore::MEMORY,
{
    TempStore::default()
}

pub fn default_cache_size() -> (r: u32)
    ensures
        r == DEFAULT_CACHE_SIZE,
{
    DEFAULT_CACHE_SIZE
}

} // verus!

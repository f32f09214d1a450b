//! The options of a replicator and how they are read from text.

use vstd::prelude::*;
use vstd::string::*;
use crate::compression::{parsed_kind, CompressionKind};
use crate::text::{parse_decimal, spec_parse_decimal};

verus! {

/// Why a set of options cannot be used.
#[derive(Debug, Clone, Copy, PartialEq, Eq, Structural)]
pub enum ConfigError {
    /// No region of the object store was given.
    RegionNotSet,
    /// No access key id was given.
    AccessKeyIdNotSet,
    /// No secret access key was given.
    SecretAccessKeyNotSet,
    /// No database id was given.
    DatabaseIdNotSet,
    /// The batch interval is not a number of seconds.
    InvalidBatchInterval,
    /// The number of frames per batch is not a number.
    InvalidMaxFramesPerBatch,
    /// The number of parallel uploads is not a number.
    InvalidUploadParallelism,
    /// The page threshold of the restore cache is not a number.
    InvalidPageSwapThreshold,
    /// The compression kind is not known.
    UnknownCompressionKind,
    /// The switch for checksum verification is neither a yes nor a no.
    InvalidVerifyCrc,
    /// The snapshot interval is not a number of seconds.
    InvalidSnapshotInterval,
}

/// Default number of frames per batch.
pub const DEFAULT_MAX_FRAMES_PER_BATCH: usize = 500;

/// Default time, in seconds, after which frames that wait are sent.
pub const DEFAULT_MAX_BATCH_INTERVAL_SECS: u64 = 15;

/// Default number of uploads that run at the same time.
pub const DEFAULT_S3_UPLOAD_MAX_PARALLELISM: usize = 32;

/// Default number of pages that a restored transaction keeps in memory.
pub const DEFAULT_RESTORE_TRANSACTION_PAGE_SWAP_AFTER: u32 = 1000;

/// The options of a replicator.
#[derive(Debug, Clone)]
pub struct Options {
    pub create_bucket_if_not_exists: bool,
    /// Whether the checksums of frames are verified during a restore, before
    /// their pages reach the database file.
    pub verify_crc: bool,
    /// Kind of compression applied to batches and snapshots.
    pub use_compression: CompressionKind,
    pub aws_endpoint: Option<String>,
    pub access_key_id: Option<String>,
    pub secret_access_key: Option<String>,
    pub region: Option<String>,
    pub db_id: Option<String>,
    /// Bucket under which all objects are stored.
    pub bucket_name: String,
    /// Largest number of frames in one batch object.
    pub max_frames_per_batch: usize,
    /// Time in seconds after which frames that wait are sent, whether or not
    /// they fill a batch.
    pub max_batch_interval: u64,
    /// Largest number of uploads that run at the same time.
    pub s3_upload_max_parallelism: usize,
    /// Number of pages of a restored transaction that are kept in memory;
    /// pages beyond it are kept in a local file.
    pub restore_transaction_page_swap_after: u32,
    /// Path of the file that holds the pages that are not kept in memory.
    pub restore_transaction_cache_fpath: String,
    /// Least time in seconds between two snapshots.
    pub snapshot_interval: Option<u64>,
}

/// What the store needs to know of the caller.
#[derive(Debug, Clone)]
pub struct Credentials {
    pub region: String,
    pub access_key_id: String,
    pub secret_access_key: String,
}

/// Whether a text says yes, no, or neither, whatever the case of its
/// letters: `yes`, `true`, `1`, `y` and `t` say yes; `no`, `false`, `0`, `n`
/// and `f` say no.
pub open spec fn spec_switch(text: Seq<char>) -> Option<bool> {
    let low = spec_lowered(text);
    if low == "yes"@ || low == "true"@ || low == "1"@ || low == "y"@ || low == "t"@ {
        Some(true)
    } else if low == "no"@ || low == "false"@ || low == "0"@ || low == "n"@ || low == "f"@ {
        Some(false)
    } else {
        None
    }
}

/// The lower-case form of a letter of the Latin alphabet; any other
/// character is left as it is.
pub open spec fn spec_lower_char(c: char) -> char {
    if 'A' <= c && c <= 'Z' {
        ((c as u8) + 32) as char
    } else {
        c
    }
}

/// A text with its Latin capitals in lower case.
pub open spec fn spec_lowered(text: Seq<char>) -> Seq<char> {
    Seq::new(text.len(), |i: int| spec_lower_char(text[i]))
}

/// The number that a text spells, where it spells one that is no greater
/// than `max`: decimal digits, which a single plus sign may stand in front
/// of. Nothing else is taken: no minus sign, no blank, no other digits than
/// `0` to `9`.
pub open spec fn spec_number(text: Seq<char>, max: u64) -> Option<u64> {
    spec_signed_digits(vstd::utf8::encode_utf8(text), max)
}

/// The number that bytes spell: decimal digits, after a plus sign or without
/// one.
pub open spec fn spec_signed_digits(bytes: Seq<u8>, max: u64) -> Option<u64> {
    if bytes.len() > 0 && bytes[0] == 43 {
        spec_parse_decimal(bytes.subrange(1, bytes.len() as int), max)
    } else {
        spec_parse_decimal(bytes, max)
    }
}

fn lower_char(c: char) -> (low: char)
    ensures
        low == spec_lower_char(c),
{
    if 'A' <= c && c <= 'Z' {
        ((c as u8) + 32) as char
    } else {
        c
    }
}

/// Whether `text`, with its capitals in lower case, is `word`.
fn lowered_equals(text: &str, word: &str) -> (same: bool)
    ensures
        same == (spec_lowered(text@) == word@),
{
    let n: usize = text.unicode_len();
    if n != word.unicode_len() {
        return false;
    }
    let mut i: usize = 0;
    while i < n
        invariant
            i <= n,
            n == text@.len(),
            n == word@.len(),
            forall|j: int| 0 <= j < i ==> spec_lowered(text@)[j] == word@[j],
        decreases n - i,
    {
        if lower_char(text.get_char(i)) != word.get_char(i) {
            assert(spec_lowered(text@)[i as int] != word@[i as int]);
            return false;
        }
        i += 1;
    }
    assert(spec_lowered(text@) =~= word@);
    true
}

/// Reads a switch: whether a text says yes or no.
pub fn parse_switch(text: &str) -> (switch: Option<bool>)
    ensures
        switch == spec_switch(text@),
{
    if lowered_equals(text, "yes") || lowered_equals(text, "true") || lowered_equals(text, "1")
        || lowered_equals(text, "y") || lowered_equals(text, "t") {
        Some(true)
    } else if lowered_equals(text, "no") || lowered_equals(text, "false") || lowered_equals(
        text,
        "0",
    ) || lowered_equals(text, "n") || lowered_equals(text, "f") {
        Some(false)
    } else {
        None
    }
}

/// Reads a number no greater than `max` from its decimal digits, with or
/// without a plus sign in front.
pub fn parse_number(text: &str, max: u64) -> (number: Option<u64>)
    ensures
        number == spec_number(text@, max),
{
    let bytes: &[u8] = text.as_bytes();
    if bytes.len() > 0 && bytes[0] == 43 {
        parse_decimal(bytes, 1, bytes.len(), max)
    } else {
        let parsed = parse_decimal(bytes, 0, bytes.len(), max);
        assert(bytes@.subrange(0, bytes@.len() as int) =~= bytes@);
        parsed
    }
}

/// The settings of a replicator as texts, each as it was found or not found
/// where the settings are kept.
#[derive(Debug)]
pub struct Settings {
    pub database_id: Option<String>,
    pub endpoint: Option<String>,
    pub bucket: Option<String>,
    pub batch_interval_secs: Option<String>,
    pub access_key_id: Option<String>,
    pub secret_access_key: Option<String>,
    pub region: Option<String>,
    pub batch_max_frames: Option<String>,
    pub s3_parallel_max: Option<String>,
    pub restore_txn_swap_threshold: Option<String>,
    pub restore_txn_file: Option<String>,
    pub compression: Option<String>,
    pub verify_crc: Option<String>,
    pub snapshot_interval: Option<String>,
}

/// The number that a setting spells, or `default` where the setting is not
/// given; nothing where it is given and spells no number up to `max`.
pub open spec fn spec_number_or(text: Option<String>, default: u64, max: u64) -> Option<u64> {
    match text {
        Some(t) => spec_number(t@, max),
        None => Some(default),
    }
}

/// The first setting that cannot be read, where there is one.
pub open spec fn spec_settings_error(v: Settings) -> Option<ConfigError> {
    if spec_number_or(v.batch_interval_secs, DEFAULT_MAX_BATCH_INTERVAL_SECS, u64::MAX) is None {
        Some(ConfigError::InvalidBatchInterval)
    } else if spec_number_or(
        v.batch_max_frames,
        DEFAULT_MAX_FRAMES_PER_BATCH as u64,
        usize::MAX as u64,
    ) is None {
        Some(ConfigError::InvalidMaxFramesPerBatch)
    } else if spec_number_or(
        v.s3_parallel_max,
        DEFAULT_S3_UPLOAD_MAX_PARALLELISM as u64,
        usize::MAX as u64,
    ) is None {
        Some(ConfigError::InvalidUploadParallelism)
    } else if spec_number_or(
        v.restore_txn_swap_threshold,
        DEFAULT_RESTORE_TRANSACTION_PAGE_SWAP_AFTER as u64,
        u32::MAX as u64,
    ) is None {
        Some(ConfigError::InvalidPageSwapThreshold)
    } else if v.compression is Some && parsed_kind(v.compression.unwrap()@) is None {
        Some(ConfigError::UnknownCompressionKind)
    } else if v.verify_crc is Some && spec_switch(v.verify_crc.unwrap()@) is None {
        Some(ConfigError::InvalidVerifyCrc)
    } else if v.snapshot_interval is Some && spec_number(
        v.snapshot_interval.unwrap()@,
        u64::MAX,
    ) is None {
        Some(ConfigError::InvalidSnapshotInterval)
    } else {
        None
    }
}

fn number_or(text: &Option<String>, default: u64, max: u64) -> (number: Option<u64>)
    ensures
        number == spec_number_or(*text, default, max),
{
    match text {
        Some(t) => parse_number(t.as_str(), max),
        None => Some(default),
    }
}

impl Options {
    /// Reads the options from settings. A setting that is not given takes
    /// its default; numbers are given in decimal digits, intervals in
    /// seconds. The settings are read in a fixed order, and the first one
    /// that cannot be read is the error.
    pub fn from_settings(v: Settings) -> (read: Result<Options, ConfigError>)
        ensures
            match read {
                Err(e) => spec_settings_error(v) == Some(e),
                Ok(o) => {
                    &&& spec_settings_error(v) is None
                    &&& o.create_bucket_if_not_exists
                    &&& o.db_id == v.database_id
                    &&& o.aws_endpoint == v.endpoint
                    &&& o.access_key_id == v.access_key_id
                    &&& o.secret_access_key == v.secret_access_key
                    &&& o.region == v.region
                    &&& o.bucket_name@ == match v.bucket {
                        Some(b) => b@,
                        None => "bottomless"@,
                    }
                    &&& o.restore_transaction_cache_fpath@ == match v.restore_txn_file {
                        Some(f) => f@,
                        None => ".bottomless.restore"@,
                    }
                    &&& Some(o.max_batch_interval) == spec_number_or(
                        v.batch_interval_secs,
                        DEFAULT_MAX_BATCH_INTERVAL_SECS,
                        u64::MAX,
                    )
                    &&& Some(o.max_frames_per_batch as u64) == spec_number_or(
                        v.batch_max_frames,
                        DEFAULT_MAX_FRAMES_PER_BATCH as u64,
                        usize::MAX as u64,
                    )
                    &&& Some(o.s3_upload_max_parallelism as u64) == spec_number_or(
                        v.s3_parallel_max,
                        DEFAULT_S3_UPLOAD_MAX_PARALLELISM as u64,
                        usize::MAX as u64,
                    )
                    &&& Some(o.restore_transaction_page_swap_after as u64) == spec_number_or(
                        v.restore_txn_swap_threshold,
                        DEFAULT_RESTORE_TRANSACTION_PAGE_SWAP_AFTER as u64,
                        u32::MAX as u64,
                    )
                    &&& Some(o.use_compression) == match v.compression {
                        Some(c) => parsed_kind(c@),
                        None => Some(CompressionKind::Gzip),
                    }
                    &&& Some(o.verify_crc) == match v.verify_crc {
                        Some(c) => spec_switch(c@),
                        None => Some(true),
                    }
                    &&& o.snapshot_interval == match v.snapshot_interval {
                        Some(i) => spec_number(i@, u64::MAX),
                        None => None,
                    }
                },
            },
    {
        let max_batch_interval: u64 = match number_or(
            &v.batch_interval_secs,
            DEFAULT_MAX_BATCH_INTERVAL_SECS,
            u64::MAX,
        ) {
            Some(n) => n,
            None => {
                return Err(ConfigError::InvalidBatchInterval);
            },
        };
        let max_frames_per_batch: usize = match number_or(
            &v.batch_max_frames,
            DEFAULT_MAX_FRAMES_PER_BATCH as u64,
            usize::MAX as u64,
        ) {
            Some(n) => n as usize,
            None => {
                return Err(ConfigError::InvalidMaxFramesPerBatch);
            },
        };
        let s3_upload_max_parallelism: usize = match number_or(
            &v.s3_parallel_max,
            DEFAULT_S3_UPLOAD_MAX_PARALLELISM as u64,
            usize::MAX as u64,
        ) {
            Some(n) => n as usize,
            None => {
                return Err(ConfigError::InvalidUploadParallelism);
            },
        };
        let restore_transaction_page_swap_after: u32 = match number_or(
            &v.restore_txn_swap_threshold,
            DEFAULT_RESTORE_TRANSACTION_PAGE_SWAP_AFTER as u64,
            u32::MAX as u64,
        ) {
            Some(n) => n as u32,
            None => {
                return Err(ConfigError::InvalidPageSwapThreshold);
            },
        };
        let use_compression: CompressionKind = match &v.compression {
            Some(c) => match CompressionKind::parse(c.as_str()) {
                Ok(kind) => kind,
                Err(_) => {
                    return Err(ConfigError::UnknownCompressionKind);
                },
            },
            None => CompressionKind::Gzip,
        };
        let verify_crc: bool = match &v.verify_crc {
            Some(c) => match parse_switch(c.as_str()) {
                Some(b) => b,
                None => {
                    return Err(ConfigError::InvalidVerifyCrc);
                },
            },
            None => true,
        };
        let snapshot_interval: Option<u64> = match &v.snapshot_interval {
            Some(i) => match parse_number(i.as_str(), u64::MAX) {
                Some(n) => Some(n),
                None => {
                    return Err(ConfigError::InvalidSnapshotInterval);
                },
            },
            None => None,
        };
        let Settings {
            database_id,
            endpoint,
            bucket,
            access_key_id,
            secret_access_key,
            region,
            restore_txn_file,
            ..
        } = v;
        let bucket_name: String = match bucket {
            Some(b) => b,
            None => String::from_str("bottomless"),
        };
        let restore_transaction_cache_fpath: String = match restore_txn_file {
            Some(f) => f,
            None => String::from_str(".bottomless.restore"),
        };
        Ok(
            Options {
                create_bucket_if_not_exists: true,
                verify_crc,
                use_compression,
                aws_endpoint: endpoint,
                access_key_id,
                secret_access_key,
                region,
                db_id: database_id,
                bucket_name,
                max_frames_per_batch,
                max_batch_interval,
                s3_upload_max_parallelism,
                restore_transaction_page_swap_after,
                restore_transaction_cache_fpath,
                snapshot_interval,
            },
        )
    }

    /// The options that hold where nothing else is asked for: the bucket
    /// `bottomless`, gzip, verified checksums, batches of 500 frames sent
    /// after 15 seconds at the latest, 32 uploads at a time, and 1000 pages
    /// of a restored transaction in memory.
    pub fn new() -> (options: Options)
        ensures
            options.create_bucket_if_not_exists,
            options.verify_crc,
            options.use_compression == CompressionKind::Gzip,
            options.aws_endpoint.is_none(),
            options.access_key_id.is_none(),
            options.secret_access_key.is_none(),
            options.region.is_none(),
            options.db_id.is_none(),
            options.bucket_name@ == "bottomless"@,
            options.max_frames_per_batch == DEFAULT_MAX_FRAMES_PER_BATCH,
            options.max_batch_interval == DEFAULT_MAX_BATCH_INTERVAL_SECS,
            options.s3_upload_max_parallelism == DEFAULT_S3_UPLOAD_MAX_PARALLELISM,
            options.restore_transaction_page_swap_after
                == DEFAULT_RESTORE_TRANSACTION_PAGE_SWAP_AFTER,
            options.restore_transaction_cache_fpath@ == ".bottomless.restore"@,
            options.snapshot_interval.is_none(),
    {
        Options {
            create_bucket_if_not_exists: true,
            verify_crc: true,
            use_compression: CompressionKind::Gzip,
            aws_endpoint: None,
            access_key_id: None,
            secret_access_key: None,
            region: None,
            db_id: None,
            bucket_name: String::from_str("bottomless"),
            max_frames_per_batch: DEFAULT_MAX_FRAMES_PER_BATCH,
            max_batch_interval: DEFAULT_MAX_BATCH_INTERVAL_SECS,
            s3_upload_max_parallelism: DEFAULT_S3_UPLOAD_MAX_PARALLELISM,
            restore_transaction_page_swap_after: DEFAULT_RESTORE_TRANSACTION_PAGE_SWAP_AFTER,
            restore_transaction_cache_fpath: String::from_str(".bottomless.restore"),
            snapshot_interval: None,
        }
    }

    /// What the client of the object store is configured with. The region is
    /// asked for first, then the access key id, then the secret access key.
    pub fn client_config(&self) -> (config: Result<Credentials, ConfigError>)
        ensures
            match config {
                Ok(c) => {
                    &&& self.region == Some(c.region)
                    &&& self.access_key_id == Some(c.access_key_id)
                    &&& self.secret_access_key == Some(c.secret_access_key)
                },
                Err(e) => e == if self.region.is_none() {
                    ConfigError::RegionNotSet
                } else if self.access_key_id.is_none() {
                    ConfigError::AccessKeyIdNotSet
                } else {
                    ConfigError::SecretAccessKeyNotSet
                } && (self.region.is_none() || self.access_key_id.is_none()
                    || self.secret_access_key.is_none()),
            },
    {
        let region: String = match &self.region {
            Some(r) => r.clone(),
            None => {
                return Err(ConfigError::RegionNotSet);
            },
        };
        let access_key_id: String = match &self.access_key_id {
            Some(k) => k.clone(),
            None => {
                return Err(ConfigError::AccessKeyIdNotSet);
            },
        };
        let secret_access_key: String = match &self.secret_access_key {
            Some(k) => k.clone(),
            None => {
                return Err(ConfigError::SecretAccessKeyNotSet);
            },
        };
        Ok(Credentials { region, access_key_id, secret_access_key })
    }
}

} // verus!

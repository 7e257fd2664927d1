//! Recording-storage settings and the figures derived from the stored
//! recordings. Reading and writing the files is the shell's part.
use vstd::prelude::*;
use vstd::string::*;

verus! {

/// Default maximum number of kept recordings.
pub const DEFAULT_MAX_RECORDINGS: usize = 100;

/// Default storage budget in user mode (MB).
pub const DEFAULT_MAX_USER_STORAGE_MB: usize = 500;

/// Relies on `dirs::data_dir`: the per-user data directory of the platform,
/// when it can be determined. It depends on the environment, so nothing is
/// stated of it.
#[verifier::external_body]
fn platform_data_dir() -> (r: Option<String>) {
    dirs::data_dir().map(|p| p.to_string_lossy().into_owned())
}

/// The recordings directory below a base directory.
pub open spec fn recordings_below(base: Seq<char>) -> Seq<char> {
    base + "/hablara/recordings"@
}

/// Where recordings go when no data directory is known (relative to the
/// working directory).
pub open spec fn fallback_storage_path() -> Seq<char> {
    "hablara/recordings"@
}

/// The recordings directory below `base`.
pub fn storage_path_below(base: &str) -> (r: String)
    ensures
        r@ == recordings_below(base@),
{
    let mut out = String::from_str(base);
    out.append("/hablara/recordings");
    out
}

/// The default recordings directory: below the platform's data directory,
/// or the fallback when there is none.
pub fn get_default_storage_path() -> (r: String)
    ensures
        r@ == fallback_storage_path() || exists|base: Seq<char>| r@ == recordings_below(base),
{
    match platform_data_dir() {
        Some(d) => storage_path_below(d.as_str()),
        None => String::from_str("hablara/recordings"),
    }
}

/// Storage settings.
pub struct StorageConfig {
    pub storage_enabled: bool,
    pub user_mode_enabled: bool,
    pub max_recordings: usize,
    pub max_user_storage_mb: usize,
    pub storage_path: String,
}

impl StorageConfig {
    /// The default settings with the given recordings directory.
    pub fn with_storage_path(storage_path: String) -> (r: Self)
        ensures
            r.storage_enabled,
            !r.user_mode_enabled,
            r.max_recordings == DEFAULT_MAX_RECORDINGS,
            r.max_user_storage_mb == DEFAULT_MAX_USER_STORAGE_MB,
            r.storage_path == storage_path,
    {
        StorageConfig {
            storage_enabled: true,
            user_mode_enabled: false,
            max_recordings: DEFAULT_MAX_RECORDINGS,
            max_user_storage_mb: DEFAULT_MAX_USER_STORAGE_MB,
            storage_path,
        }
    }

    /// A field-by-field copy.
    pub fn duplicate(&self) -> (r: Self)
        ensures
            r == *self,
    {
        StorageConfig {
            storage_enabled: self.storage_enabled,
            user_mode_enabled: self.user_mode_enabled,
            max_recordings: self.max_recordings,
            max_user_storage_mb: self.max_user_storage_mb,
            storage_path: self.storage_path.clone(),
        }
    }
}

impl Default for StorageConfig {
    /// The default settings in the default recordings directory.
    fn default() -> (r: Self)
        ensures
            r.storage_enabled,
            !r.user_mode_enabled,
            r.max_recordings == DEFAULT_MAX_RECORDINGS,
            r.max_user_storage_mb == DEFAULT_MAX_USER_STORAGE_MB,
            r.storage_path@ == fallback_storage_path() || exists|base: Seq<char>|
                r.storage_path@ == recordings_below(base),
    {
        StorageConfig::with_storage_path(get_default_storage_path())
    }
}

/// Size and length of one stored recording.
#[derive(Clone, Copy, Debug)]
pub struct RecordingSummary {
    pub file_size: usize,
    pub duration_ms: u64,
}

pub open spec fn total_size(r: Seq<RecordingSummary>) -> nat
    decreases r.len(),
{
    if r.len() == 0 {
        0
    } else {
        total_size(r.drop_last()) + r.last().file_size as nat
    }
}

pub open spec fn total_duration(r: Seq<RecordingSummary>) -> nat
    decreases r.len(),
{
    if r.len() == 0 {
        0
    } else {
        total_duration(r.drop_last()) + r.last().duration_ms as nat
    }
}

/// Figures about the stored recordings.
pub struct StorageStats {
    pub recording_count: usize,
    pub total_size_bytes: usize,
    pub total_duration_ms: u64,
    pub storage_path: String,
    pub max_recordings: usize,
}

/// Holds the storage settings.
pub struct StorageManager {
    config: StorageConfig,
}

impl StorageManager {
    pub closed spec fn config(&self) -> StorageConfig {
        self.config
    }

    /// A manager with the default settings.
    pub fn new() -> (r: Self)
        ensures
            r.config().storage_enabled,
            !r.config().user_mode_enabled,
            r.config().max_recordings == DEFAULT_MAX_RECORDINGS,
            r.config().max_user_storage_mb == DEFAULT_MAX_USER_STORAGE_MB,
    {
        StorageManager { config: StorageConfig::default() }
    }

    /// A manager with the given settings.
    pub fn with_config(config: StorageConfig) -> (r: Self)
        ensures
            r.config() == config,
    {
        StorageManager { config }
    }

    /// A copy of the current settings (never fails).
    pub fn get_config(&self) -> (r: Result<StorageConfig, String>)
        ensures
            r matches Ok(c) && c == self.config(),
    {
        Ok(self.config.duplicate())
    }

    /// Replaces the settings (never fails).
    pub fn update_config(&mut self, config: StorageConfig) -> (r: Result<(), String>)
        ensures
            r is Ok,
            final(self).config() == config,
    {
        self.config = config;
        Ok(())
    }

    /// How many of `count` recordings (oldest first) must go to respect the
    /// maximum.
    pub fn recordings_to_delete(&self, count: usize) -> (r: usize)
        ensures
            r == if count > self.config().max_recordings {
                count - self.config().max_recordings
            } else {
                0
            },
    {
        if count > self.config.max_recordings {
            count - self.config.max_recordings
        } else {
            0
        }
    }

    /// Figures about the given recordings under the current settings.
    pub fn get_storage_stats(&self, recordings: &[RecordingSummary]) -> (r: Result<StorageStats, String>)
        requires
            total_size(recordings@) <= usize::MAX,
            total_duration(recordings@) <= u64::MAX,
        ensures
            r matches Ok(s) && {
                &&& s.recording_count == recordings@.len()
                &&& s.total_size_bytes == total_size(recordings@)
                &&& s.total_duration_ms == total_duration(recordings@)
                &&& s.storage_path == self.config().storage_path
                &&& s.max_recordings == self.config().max_recordings
            },
    {
        let n = recordings.len();
        let mut size: usize = 0;
        let mut duration: u64 = 0;
        let mut i: usize = 0;
        while i < n
            invariant
                n == recordings@.len(),
                i <= n,
                total_size(recordings@) <= usize::MAX,
                total_duration(recordings@) <= u64::MAX,
                size == total_size(recordings@.take(i as int)),
                duration == total_duration(recordings@.take(i as int)),
            decreases n - i,
        {
            assert(recordings@.take(i + 1).drop_last() =~= recordings@.take(i as int));
            proof {
                lemma_totals_grow(recordings@, i as int + 1);
            }
            size = size + recordings[i].file_size;
            duration = duration + recordings[i].duration_ms;
            i = i + 1;
        }
        assert(recordings@.take(n as int) =~= recordings@);
        Ok(
            StorageStats {
                recording_count: n,
                total_size_bytes: size,
                total_duration_ms: duration,
                storage_path: self.config.storage_path.clone(),
                max_recordings: self.config.max_recordings,
            },
        )
    }
}

proof fn lemma_totals_grow(r: Seq<RecordingSummary>, k: int)
    requires
        0 <= k <= r.len(),
    ensures
        total_size(r.take(k)) <= total_size(r),
        total_duration(r.take(k)) <= total_duration(r),
    decreases r.len() - k,
{
    if k < r.len() {
        lemma_totals_grow(r, k + 1);
        assert(r.take(k + 1).drop_last() =~= r.take(k));
    } else {
        assert(r.take(k) =~= r);
    }
}

} // verus!

//! The key manager: generation of keys that were never consumed, archival of
//! consumed keys under a capacity policy, and the statistics of both.

use crate::clock::now;
use crate::clock::Timestamp;
use crate::errors::ArcanumErr;
use crate::random::MAX_RANDOM_TEXT_LENGTH;
use crate::text::is_blank;
use crate::text::trimmed;
use crate::types::ArchivedKeys;
use crate::types::OtpKey;
use vstd::prelude::*;
use vstd::utf8::encode_utf8;

verus! {

/// The capacity of the archive where none is configured.
pub const DEFAULT_MAX_ARCHIVED_KEYS: usize = 10_000;

/// The bytes that one archived key is estimated to take.
pub const BYTES_PER_ARCHIVED_KEY: usize = 64;

/// How many candidates a generation tries before it gives up.
pub const MAX_GENERATION_ATTEMPTS: usize = 16;

/// The configuration of a key manager, fixed when the manager is built.
#[derive(Debug, Clone)]
pub struct KeyManagerConfig {
    /// The number of archived keys from which archival needs a cleanup.
    pub max_archived_keys: usize,
    /// Whether archival is reported to the audit log.
    pub enable_audit_log: bool,
    /// Whether a full archive is cleaned up rather than reported.
    pub auto_cleanup: bool,
}

impl KeyManagerConfig {
    /// The configuration of a manager that was built without any option.
    pub open spec fn spec_default() -> KeyManagerConfig {
        KeyManagerConfig {
            max_archived_keys: DEFAULT_MAX_ARCHIVED_KEYS,
            enable_audit_log: false,
            auto_cleanup: true,
        }
    }
}

impl Default for KeyManagerConfig {
    fn default() -> (config: KeyManagerConfig)
        ensures
            config == KeyManagerConfig::spec_default(),
    {
        KeyManagerConfig {
            max_archived_keys: DEFAULT_MAX_ARCHIVED_KEYS,
            enable_audit_log: false,
            auto_cleanup: true,
        }
    }
}

/// What a key manager has done so far.
#[derive(Debug)]
pub struct KeyManagerStats {
    /// The number of keys handed out.
    pub keys_generated: u64,
    /// The number of keys archived.
    pub keys_archived: u64,
    /// When the last key was handed out.
    pub last_generation: Option<Timestamp>,
    /// The estimated size of the archive in bytes.
    pub memory_usage_estimate: usize,
}

impl KeyManagerStats {
    /// The statistics of a manager that has done nothing yet.
    pub open spec fn spec_default() -> KeyManagerStats {
        KeyManagerStats {
            keys_generated: 0,
            keys_archived: 0,
            last_generation: None,
            memory_usage_estimate: 0,
        }
    }
}

impl Default for KeyManagerStats {
    fn default() -> (stats: KeyManagerStats)
        ensures
            stats == KeyManagerStats::spec_default(),
    {
        KeyManagerStats {
            keys_generated: 0,
            keys_archived: 0,
            last_generation: None,
            memory_usage_estimate: 0,
        }
    }
}

/// The estimated size of an archive of `count` keys: 64 bytes for each key,
/// and the largest `usize` where that product does not fit.
pub open spec fn memory_estimate(count: nat) -> usize {
    if count * BYTES_PER_ARCHIVED_KEY <= usize::MAX {
        (count * BYTES_PER_ARCHIVED_KEY) as usize
    } else {
        usize::MAX
    }
}

/// The statistics after one more key was handed out: the count of generated
/// keys has grown by one, unless it was at the largest `u64`, the last
/// generation is dated, and the rest is as before.
pub open spec fn generation_recorded(before: KeyManagerStats, after: KeyManagerStats) -> bool {
    &&& after.keys_generated == if before.keys_generated < u64::MAX {
        (before.keys_generated + 1) as u64
    } else {
        u64::MAX
    }
    &&& after.last_generation is Some
    &&& after.keys_archived == before.keys_archived
    &&& after.memory_usage_estimate == before.memory_usage_estimate
}

/// The statistics after an archival that left `count` keys in the archive.
pub open spec fn after_archival(before: KeyManagerStats, count: nat) -> KeyManagerStats {
    KeyManagerStats {
        keys_generated: before.keys_generated,
        keys_archived: count as u64,
        last_generation: before.last_generation,
        memory_usage_estimate: memory_estimate(count),
    }
}

/// Whether a manager refuses every key because its archive is full: the
/// archive holds at least `max_archived_keys` identities and automatic
/// cleanup is off.
pub open spec fn refuses_as_full(ids: Set<u64>, config: KeyManagerConfig) -> bool {
    ids.len() >= config.max_archived_keys && !config.auto_cleanup
}

/// The archive of a manager after it was asked to archive the identity
/// `id`: grown by `id` where the manager is not full and `id` is new, and as
/// before where the key was refused.
pub open spec fn archive_after(ids: Set<u64>, config: KeyManagerConfig, id: u64) -> Set<u64> {
    if refuses_as_full(ids, config) {
        ids
    } else {
        match ArchivedKeys::spec_archive(ids, id) {
            Some(grown) => grown,
            None => ids,
        }
    }
}

/// The archive of a manager that started empty and was asked to archive the
/// identities `keys` one after the other.
pub open spec fn archive_after_all(config: KeyManagerConfig, keys: Seq<u64>) -> Set<u64>
    decreases keys.len(),
{
    if keys.len() == 0 {
        Set::empty()
    } else {
        archive_after(archive_after_all(config, keys.drop_last()), config, keys.last())
    }
}

/// While a manager without automatic cleanup is asked to archive distinct
/// keys, no more of them than its capacity, it archives each of them.
pub proof fn lemma_archive_fills(config: KeyManagerConfig, keys: Seq<u64>)
    requires
        !config.auto_cleanup,
        keys.no_duplicates(),
        keys.len() <= config.max_archived_keys,
    ensures
        archive_after_all(config, keys) == keys.to_set(),
        archive_after_all(config, keys).finite(),
        archive_after_all(config, keys).len() == keys.len(),
    decreases keys.len(),
{
    if keys.len() == 0 {
        assert(keys.to_set() =~= Set::<u64>::empty());
    } else {
        let front = keys.drop_last();
        lemma_archive_fills(config, front);
        let before = archive_after_all(config, front);
        assert(!before.contains(keys.last())) by {
            if before.contains(keys.last()) {
                let i = choose|i: int| 0 <= i < front.len() && front[i] == keys.last();
                assert(keys[i] == keys[keys.len() - 1]);
            }
        }
        assert(before.insert(keys.last()) =~= keys.to_set()) by {
            assert forall|id: u64| keys.to_set().contains(id) implies before.insert(
                keys.last(),
            ).contains(id) by {
                let i = choose|i: int| 0 <= i < keys.len() && keys[i] == id;
                if i < front.len() {
                    assert(front[i] == id);
                }
            }
            assert forall|id: u64| before.insert(keys.last()).contains(id) implies keys.to_set().contains(
                id,
            ) by {
                if id == keys.last() {
                    assert(keys[keys.len() - 1] == id);
                } else {
                    let i = choose|i: int| 0 <= i < front.len() && front[i] == id;
                    assert(keys[i] == id);
                }
            }
        }
    }
}

/// Capacity enforcement: a manager without automatic cleanup and with room
/// for `max_archived_keys` keys that has been asked to archive that many
/// distinct keys is full, so `archive_key` refuses the next key, whichever
/// it is, with `FullArchives`.
pub proof fn lemma_capacity_enforced(config: KeyManagerConfig, keys: Seq<u64>)
    requires
        !config.auto_cleanup,
        keys.no_duplicates(),
        keys.len() == config.max_archived_keys,
    ensures
        refuses_as_full(archive_after_all(config, keys), config),
{
    lemma_archive_fills(config, keys);
}

/// Hands out keys that are not in its archive, archives consumed keys, and
/// keeps count.
pub struct KeyManager {
    archived_keys: ArchivedKeys,
    config: KeyManagerConfig,
    stats: KeyManagerStats,
}

impl KeyManager {
    /// The identities of the archived keys.
    pub closed spec fn archive(&self) -> Set<u64> {
        self.archived_keys@
    }

    /// The configuration of the manager.
    pub closed spec fn spec_config(&self) -> KeyManagerConfig {
        self.config
    }

    /// The statistics of the manager.
    pub closed spec fn spec_stats(&self) -> KeyManagerStats {
        self.stats
    }

    /// The statistics agree with the archive: every archived key is counted,
    /// and the memory estimate is that of the archive's size.
    pub open spec fn wf(&self) -> bool {
        &&& self.archive().finite()
        &&& self.spec_stats().keys_archived == self.archive().len()
        &&& self.spec_stats().memory_usage_estimate == memory_estimate(self.archive().len())
    }

    /// A manager with the default configuration.
    pub fn new() -> (manager: KeyManager)
        ensures
            manager.wf(),
            manager.archive() == Set::<u64>::empty(),
            manager.spec_config() == KeyManagerConfig::spec_default(),
            manager.spec_stats() == KeyManagerStats::spec_default(),
    {
        KeyManager::builder().build()
    }

    /// A builder with the default configuration.
    pub fn builder() -> (builder: KeyManagerBuilder)
        ensures
            builder.spec_config() == KeyManagerConfig::spec_default(),
    {
        KeyManagerBuilder::new()
    }

    /// Generates a key for a message and hands it out unless it is in the
    /// archive; a candidate that is in the archive is dropped and another is
    /// generated, up to `MAX_GENERATION_ATTEMPTS` candidates in all.
    ///
    /// The key has as many bytes as the validated message, where a blank
    /// message stands for a made-up one. Only a handed-out key changes the
    /// manager: the generation is recorded in the statistics.
    pub fn generate_key_for(&mut self, text: &str) -> (generated: Result<OtpKey, ArcanumErr>)
        requires
            old(self).wf(),
        ensures
            final(self).wf(),
            final(self).spec_config() == old(self).spec_config(),
            final(self).archive() == old(self).archive(),
            match generated {
                Ok(key) => {
                    &&& !old(self).archive().contains(key.spec_identity())
                    &&& generation_recorded(old(self).spec_stats(), final(self).spec_stats())
                    &&& if is_blank(text@) {
                        1 <= key@.len() <= MAX_RANDOM_TEXT_LENGTH
                    } else {
                        key@.len() == encode_utf8(trimmed(text@)).len()
                    }
                },
                Err(e) => {
                    &&& final(self).spec_stats() == old(self).spec_stats()
                    &&& {
                        ||| e is RandomGeneration
                        ||| e is EmptyPlainText && is_blank(text@)
                        ||| e == (ArcanumErr::RetriesExhausted {
                            attempts: MAX_GENERATION_ATTEMPTS,
                        })
                    }
                },
            },
    {
        let mut attempts: usize = 0;
        while attempts < MAX_GENERATION_ATTEMPTS
            invariant
                self.wf(),
                self.spec_config() == old(self).spec_config(),
                self.archive() == old(self).archive(),
                self.spec_stats() == old(self).spec_stats(),
                attempts <= MAX_GENERATION_ATTEMPTS,
            decreases MAX_GENERATION_ATTEMPTS - attempts,
        {
            let key = OtpKey::generate_for_text(text)?;
            match self.accept_candidate(key) {
                Ok(key) => {
                    return Ok(key);
                },
                Err(_) => {},
            }
            attempts = attempts + 1;
        }
        Err(ArcanumErr::RetriesExhausted { attempts: MAX_GENERATION_ATTEMPTS })
    }

    /// Generates a key of `length` bytes and hands it out unless it is in
    /// the archive; a candidate that is in the archive is dropped and another
    /// is generated, up to `MAX_GENERATION_ATTEMPTS` candidates in all.
    ///
    /// Only a handed-out key changes the manager: the generation is recorded
    /// in the statistics.
    pub fn generate_key_for_length(&mut self, length: usize) -> (generated: Result<
        OtpKey,
        ArcanumErr,
    >)
        requires
            old(self).wf(),
        ensures
            final(self).wf(),
            final(self).spec_config() == old(self).spec_config(),
            final(self).archive() == old(self).archive(),
            match generated {
                Ok(key) => {
                    &&& key@.len() == length
                    &&& !old(self).archive().contains(key.spec_identity())
                    &&& generation_recorded(old(self).spec_stats(), final(self).spec_stats())
                },
                Err(e) => {
                    &&& final(self).spec_stats() == old(self).spec_stats()
                    &&& {
                        ||| e is RandomGeneration
                        ||| e == (ArcanumErr::RetriesExhausted {
                            attempts: MAX_GENERATION_ATTEMPTS,
                        })
                    }
                },
            },
    {
        let mut attempts: usize = 0;
        while attempts < MAX_GENERATION_ATTEMPTS
            invariant
                self.wf(),
                self.spec_config() == old(self).spec_config(),
                self.archive() == old(self).archive(),
                self.spec_stats() == old(self).spec_stats(),
                attempts <= MAX_GENERATION_ATTEMPTS,
            decreases MAX_GENERATION_ATTEMPTS - attempts,
        {
            let key = OtpKey::generate_for_length(length)?;
            match self.accept_candidate(key) {
                Ok(key) => {
                    return Ok(key);
                },
                Err(_) => {},
            }
            attempts = attempts + 1;
        }
        Err(ArcanumErr::RetriesExhausted { attempts: MAX_GENERATION_ATTEMPTS })
    }

    /// Decides on a freshly generated candidate. A candidate whose identity
    /// is in the archive is refused with `KeyAlreadyUsed` and the manager
    /// stays as it is. Any other candidate is handed back, and the
    /// generation is recorded in the statistics.
    pub fn accept_candidate(&mut self, candidate: OtpKey) -> (accepted: Result<
        OtpKey,
        ArcanumErr,
    >)
        requires
            old(self).wf(),
        ensures
            final(self).wf(),
            final(self).spec_config() == old(self).spec_config(),
            final(self).archive() == old(self).archive(),
            match accepted {
                Ok(key) => {
                    &&& !old(self).archive().contains(candidate.spec_identity())
                    &&& key@ == candidate@
                    &&& generation_recorded(old(self).spec_stats(), final(self).spec_stats())
                },
                Err(e) => {
                    &&& old(self).archive().contains(candidate.spec_identity())
                    &&& e is KeyAlreadyUsed
                    &&& final(self).spec_stats() == old(self).spec_stats()
                },
            },
    {
        if self.archived_keys.is_used(&candidate) {
            return Err(ArcanumErr::KeyAlreadyUsed);
        }
        self.update_stats_generation();
        Ok(candidate)
    }

    /// Archives a consumed key.
    ///
    /// Where the archive holds at least `max_archived_keys` keys and
    /// automatic cleanup is off, the key is refused with `FullArchives`.
    /// Where cleanup is on it runs first; it evicts nothing so far, and
    /// archival goes on. A key whose identity is in the archive is refused
    /// with `KeyAlreadyArchived`. Any other key is archived, and the
    /// statistics follow the archive. A refusal leaves the manager as it is.
    pub fn archive_key(&mut self, key: OtpKey) -> (archived: Result<(), ArcanumErr>)
        requires
            old(self).wf(),
        ensures
            final(self).wf(),
            final(self).spec_config() == old(self).spec_config(),
            final(self).archive() == archive_after(
                old(self).archive(),
                old(self).spec_config(),
                key.spec_identity(),
            ),
            if refuses_as_full(old(self).archive(), old(self).spec_config()) {
                &&& archived matches Err(e) && e is FullArchives
                &&& final(self).spec_stats() == old(self).spec_stats()
            } else if old(self).archive().contains(key.spec_identity()) {
                &&& archived matches Err(e) && e is KeyAlreadyArchived
                &&& final(self).spec_stats() == old(self).spec_stats()
            } else {
                &&& archived is Ok
                &&& final(self).spec_stats() == after_archival(
                    old(self).spec_stats(),
                    old(self).archive().len() + 1,
                )
            },
    {
        if self.archived_keys.count() >= self.config.max_archived_keys {
            if self.config.auto_cleanup {
                self.cleanup_old_keys()?;
            } else {
                return Err(ArcanumErr::FullArchives);
            }
        }
        self.archived_keys.archive(key)?;
        self.update_stats_archives();
        Ok(())
    }

    /// Whether the identity of the key is in the archive.
    pub fn is_key_used(&self, key: &OtpKey) -> (used: bool)
        ensures
            used == self.archive().contains(key.spec_identity()),
    {
        self.archived_keys.is_used(key)
    }

    /// The statistics of the manager.
    pub fn stats(&self) -> (stats: &KeyManagerStats)
        ensures
            *stats == self.spec_stats(),
    {
        &self.stats
    }

    /// The configuration of the manager.
    pub fn config(&self) -> (config: &KeyManagerConfig)
        ensures
            *config == self.spec_config(),
    {
        &self.config
    }

    /// The number of archived keys.
    pub fn archived_count(&self) -> (count: usize)
        ensures
            count == self.archive().len(),
    {
        self.archived_keys.count()
    }

    /// The cleanup of a full archive. No eviction policy is defined, so this
    /// evicts nothing and succeeds.
    fn cleanup_old_keys(&mut self) -> (cleaned: Result<(), ArcanumErr>)
        ensures
            cleaned is Ok,
            *final(self) == *old(self),
    {
        Ok(())
    }

    fn update_stats_generation(&mut self)
        requires
            old(self).wf(),
        ensures
            final(self).wf(),
            final(self).spec_config() == old(self).spec_config(),
            final(self).archive() == old(self).archive(),
            generation_recorded(old(self).spec_stats(), final(self).spec_stats()),
    {
        self.stats.keys_generated = self.stats.keys_generated.saturating_add(1);
        self.stats.last_generation = Some(now());
    }

    fn update_stats_archives(&mut self)
        requires
            old(self).archive().finite(),
        ensures
            final(self).wf(),
            final(self).spec_config() == old(self).spec_config(),
            final(self).archive() == old(self).archive(),
            final(self).spec_stats() == after_archival(
                old(self).spec_stats(),
                old(self).archive().len(),
            ),
    {
        let count = self.archived_keys.count();
        self.stats.keys_archived = count as u64;
        self.stats.memory_usage_estimate = match count.checked_mul(BYTES_PER_ARCHIVED_KEY) {
            Some(bytes) => bytes,
            None => usize::MAX,
        };
    }
}

/// Collects the options of a key manager.
#[derive(Debug)]
pub struct KeyManagerBuilder {
    max_archived_keys: Option<usize>,
    enable_audit_log: bool,
    auto_cleanup: bool,
}

impl KeyManagerBuilder {
    /// The configuration that `build` gives the manager.
    pub closed spec fn spec_config(&self) -> KeyManagerConfig {
        KeyManagerConfig {
            max_archived_keys: match self.max_archived_keys {
                Some(limit) => limit,
                None => DEFAULT_MAX_ARCHIVED_KEYS,
            },
            enable_audit_log: self.enable_audit_log,
            auto_cleanup: self.auto_cleanup,
        }
    }

    /// A builder with the default configuration: room for 10,000 archived
    /// keys, no audit log, automatic cleanup.
    pub fn new() -> (builder: KeyManagerBuilder)
        ensures
            builder.spec_config() == KeyManagerConfig::spec_default(),
    {
        KeyManagerBuilder { max_archived_keys: None, enable_audit_log: false, auto_cleanup: true }
    }

    /// Sets the capacity of the archive.
    pub fn max_archived_keys(self, limit: usize) -> (builder: KeyManagerBuilder)
        ensures
            builder.spec_config() == (KeyManagerConfig {
                max_archived_keys: limit,
                ..self.spec_config()
            }),
    {
        let mut builder = self;
        builder.max_archived_keys = Some(limit);
        builder
    }

    /// Turns the audit log on.
    pub fn enable_audit_log(self) -> (builder: KeyManagerBuilder)
        ensures
            builder.spec_config() == (KeyManagerConfig {
                enable_audit_log: true,
                ..self.spec_config()
            }),
    {
        let mut builder = self;
        builder.enable_audit_log = true;
        builder
    }

    /// Turns automatic cleanup on.
    pub fn auto_cleanup(self) -> (builder: KeyManagerBuilder)
        ensures
            builder.spec_config() == (KeyManagerConfig { auto_cleanup: true, ..self.spec_config() }),
    {
        let mut builder = self;
        builder.auto_cleanup = true;
        builder
    }

    /// Turns automatic cleanup off: a full archive then refuses keys.
    pub fn without_auto_cleanup(self) -> (builder: KeyManagerBuilder)
        ensures
            builder.spec_config() == (KeyManagerConfig {
                auto_cleanup: false,
                ..self.spec_config()
            }),
    {
        let mut builder = self;
        builder.auto_cleanup = false;
        builder
    }

    /// Builds a manager with the collected configuration, an empty archive
    /// and statistics that count nothing.
    pub fn build(self) -> (manager: KeyManager)
        ensures
            manager.wf(),
            manager.archive() == Set::<u64>::empty(),
            manager.spec_config() == self.spec_config(),
            manager.spec_stats() == KeyManagerStats::spec_default(),
    {
        let config = KeyManagerConfig {
            max_archived_keys: match self.max_archived_keys {
                Some(limit) => limit,
                None => DEFAULT_MAX_ARCHIVED_KEYS,
            },
            enable_audit_log: self.enable_audit_log,
            auto_cleanup: self.auto_cleanup,
        };
        KeyManager {
            archived_keys: ArchivedKeys::new(),
            config,
            stats: KeyManagerStats::default(),
        }
    }
}

impl Default for KeyManagerBuilder {
    fn default() -> (builder: KeyManagerBuilder)
        ensures
            builder.spec_config() == KeyManagerConfig::spec_default(),
    {
        KeyManagerBuilder::new()
    }
}

} // verus!

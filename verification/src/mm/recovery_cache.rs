//! Restart-recovery cache: the terminals the BS knew before a restart (ISSI, group
//! affiliations, energy-saving mode), persisted behind a dirty flag and a debounce window.
//! Reading and writing the file is done by the application.
use vstd::prelude::*;
use crate::clock::{duration_millis, instant_now, millis_of_duration, millis_since};

verus! {

/// On-disk schema version; a file of another version is ignored.
pub const CACHE_VERSION: u32 = 1;

/// One persisted terminal.
#[derive(Debug, Clone, PartialEq, Eq)]
pub struct TerminalRecord {
    pub issi: u32,
    pub groups: Vec<u32>,
    /// Energy-saving mode as the raw ETSI value (0 = StayAlive).
    pub energy_saving_mode: u8,
}

/// The persisted file.
#[derive(Debug, Clone)]
pub struct CacheFile {
    pub version: u32,
    pub terminals: Vec<TerminalRecord>,
}

/// Owns the cache file path and the dirty/debounce flush gate.
pub struct RecoveryCache {
    /// The cache file's path.
    path: String,
    dirty: bool,
    last_flush: std::time::Instant,
    debounce_ms: u64,
}

impl RecoveryCache {
    pub closed spec fn spec_dirty(&self) -> bool {
        self.dirty
    }

    pub closed spec fn spec_path(&self) -> Seq<char> {
        self.path@
    }

    pub closed spec fn spec_debounce_ms(&self) -> u64 {
        self.debounce_ms
    }

    /// When the last flush finished (or the cache was built), as a clock reading.
    pub closed spec fn spec_last_flush(&self) -> std::time::Instant {
        self.last_flush
    }

    /// Construct without touching disk; `debounce` coalesces bursts of changes into one write.
    pub fn new(path: String, debounce: std::time::Duration) -> (c: Self)
        ensures
            !c.spec_dirty(),
            c.spec_path() == path@,
            c.spec_debounce_ms() == millis_of_duration(debounce),
    {
        let debounce_ms = duration_millis(&debounce);
        Self { path, dirty: false, last_flush: instant_now(), debounce_ms }
    }

    pub fn path(&self) -> (p: &String)
        ensures
            p@ == self.spec_path(),
    {
        &self.path
    }

    /// Mark the in-memory registry as changed since the last flush.
    pub fn mark_dirty(&mut self)
        ensures
            final(self).spec_dirty(),
            final(self).spec_path() == old(self).spec_path(),
            final(self).spec_debounce_ms() == old(self).spec_debounce_ms(),
            final(self).spec_last_flush() == old(self).spec_last_flush(),
    {
        self.dirty = true;
    }

    pub fn is_dirty(&self) -> (r: bool)
        ensures
            r == self.spec_dirty(),
    {
        self.dirty
    }

    /// True when a flush is due `elapsed_ms` after the last one: dirty and the debounce
    /// window has elapsed.
    pub fn flush_due(&self, elapsed_ms: u64) -> (r: bool)
        ensures
            r == (self.spec_dirty() && elapsed_ms >= self.spec_debounce_ms()),
    {
        self.dirty && elapsed_ms >= self.debounce_ms
    }

    /// The file to write if a flush is due now, `None` otherwise. `snapshot` is called only
    /// when a write is due, so callers don't pay to build the records otherwise. Whether the
    /// debounce window has elapsed depends on the clock; a dirty cache without a debounce
    /// window is always due.
    pub fn maybe_flush<F: FnOnce() -> Vec<TerminalRecord>>(&mut self, snapshot: F) -> (r: Option<
        CacheFile,
    >)
        requires
            old(self).spec_dirty() ==> call_requires(snapshot, ()),
        ensures
            *final(self) == *old(self),
            r is Some ==> old(self).spec_dirty(),
            r matches Some(cf) ==> cf.version == CACHE_VERSION && call_ensures(
                snapshot,
                (),
                cf.terminals,
            ),
            !old(self).spec_dirty() ==> r is None,
            old(self).spec_dirty() && old(self).spec_debounce_ms() == 0 ==> r is Some,
    {
        let elapsed = millis_since(&self.last_flush);
        if !self.flush_due(elapsed) {
            return None;
        }
        let records = snapshot();
        Some(CacheFile { version: CACHE_VERSION, terminals: records })
    }

    /// Record the outcome of a write. On success the dirty flag is cleared; either way the
    /// debounce timer restarts (the last-flush stamp takes a fresh clock reading, which the
    /// contract does not pin), so a persistent failure retries once per window.
    pub fn flush_finished(&mut self, written: bool)
        ensures
            final(self).spec_dirty() == (old(self).spec_dirty() && !written),
            final(self).spec_path() == old(self).spec_path(),
            final(self).spec_debounce_ms() == old(self).spec_debounce_ms(),
    {
        if written {
            self.dirty = false;
        }
        self.last_flush = instant_now();
    }

    /// The terminals of a loaded file: empty on any problem (missing or unparsable file,
    /// `None`) and for a file of another schema version.
    pub fn accept_loaded(loaded: Option<CacheFile>) -> (r: Vec<TerminalRecord>)
        ensures
            match loaded {
                Some(cf) => if cf.version == CACHE_VERSION {
                    r@ == cf.terminals@
                } else {
                    r@.len() == 0
                },
                None => r@.len() == 0,
            },
    {
        match loaded {
            Some(cf) => {
                if cf.version == CACHE_VERSION {
                    cf.terminals
                } else {
                    Vec::new()
                }
            },
            None => Vec::new(),
        }
    }
}

} // verus!

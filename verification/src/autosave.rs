//! The auto-save gate.
//!
//! Persistence runs on a timer: a save happens only when something changed
//! since the last save (the dirty flag) and the configured interval has
//! elapsed. Mutating a block marks the policy dirty; only a completed
//! persistence round, through `mark_saved`, resets the flag and the timer.

use vstd::prelude::*;
use crate::clock::ts_in_bound;

verus! {

/// The longest accepted save interval, in seconds (about 31 years): keeps
/// every interval computation inside the timestamp bound.
pub const MAX_INTERVAL_SECS: u64 = 1_000_000_000;

/// The timer-and-dirty-flag gate in front of the persistence layer.
#[derive(Debug, Clone, Copy)]
pub struct AutoSavePolicy {
    interval_ms: i64,
    last_save: i64,
    save_needed: bool,
}

impl AutoSavePolicy {
    /// The configured interval in milliseconds.
    pub closed spec fn spec_interval_ms(self) -> i64 {
        self.interval_ms
    }

    /// When the last persistence round finished.
    pub closed spec fn spec_last_save(self) -> i64 {
        self.last_save
    }

    /// Whether anything changed since the last persistence round.
    pub closed spec fn spec_save_needed(self) -> bool {
        self.save_needed
    }

    /// Timestamps in bound and the interval non-negative and capped.
    pub open spec fn wf(self) -> bool {
        &&& ts_in_bound(self.spec_last_save())
        &&& 0 <= self.spec_interval_ms() <= MAX_INTERVAL_SECS * 1000
    }

    /// A clean policy: nothing to save, the timer starting now. Intervals
    /// beyond `MAX_INTERVAL_SECS` are capped there.
    pub fn new(interval_secs: u64, now: i64) -> (p: AutoSavePolicy)
        requires
            ts_in_bound(now),
        ensures
            p.wf(),
            !p.spec_save_needed(),
            p.spec_last_save() == now,
            interval_secs <= MAX_INTERVAL_SECS ==> p.spec_interval_ms() == interval_secs * 1000,
    {
        let capped = if interval_secs > MAX_INTERVAL_SECS {
            MAX_INTERVAL_SECS
        } else {
            interval_secs
        };
        AutoSavePolicy { interval_ms: (capped * 1000) as i64, last_save: now, save_needed: false }
    }

    /// Note that persisted state changed: a block's output grew, a command
    /// completed, a block was added.
    pub fn mark_dirty(&mut self)
        ensures
            final(self).spec_save_needed(),
            final(self).spec_interval_ms() == old(self).spec_interval_ms(),
            final(self).spec_last_save() == old(self).spec_last_save(),
    {
        self.save_needed = true;
    }

    /// Whether a save is due now: something changed and the interval has
    /// elapsed since the last save. Never true right after `mark_saved`
    /// until the interval passes again, and never true while nothing changed.
    pub fn should_save(&self, now: i64) -> (r: bool)
        requires
            self.wf(),
            ts_in_bound(now),
        ensures
            r == (self.spec_save_needed() && now - self.spec_last_save()
                >= self.spec_interval_ms()),
    {
        self.save_needed && now - self.last_save >= self.interval_ms
    }

    /// Note that a persistence round completed: the flag resets and the
    /// timer restarts.
    pub fn mark_saved(&mut self, now: i64)
        requires
            ts_in_bound(now),
        ensures
            old(self).wf() ==> final(self).wf(),
            !final(self).spec_save_needed(),
            final(self).spec_last_save() == now,
            final(self).spec_interval_ms() == old(self).spec_interval_ms(),
    {
        self.last_save = now;
        self.save_needed = false;
    }
}

/// The auto-save cycle: a mutation makes a save due once the interval has
/// elapsed, and completing the round makes no save due until the interval
/// elapses again — whatever else happened in between, only `mark_saved`
/// resets the flag.
pub proof fn lemma_autosave_cycle(p: AutoSavePolicy, dirty: AutoSavePolicy, saved: AutoSavePolicy, t1: i64, t2: i64)
    requires
        p.wf(),
        // `dirty` is `p` after `mark_dirty`
        dirty.spec_save_needed(),
        dirty.spec_interval_ms() == p.spec_interval_ms(),
        dirty.spec_last_save() == p.spec_last_save(),
        // `saved` is `dirty` after `mark_saved(t1)`
        !saved.spec_save_needed(),
        saved.spec_last_save() == t1,
        saved.spec_interval_ms() == dirty.spec_interval_ms(),
    ensures
        t1 - p.spec_last_save() >= p.spec_interval_ms() ==> (dirty.spec_save_needed() && t1
            - dirty.spec_last_save() >= dirty.spec_interval_ms()),
        !(saved.spec_save_needed() && t2 - saved.spec_last_save() >= saved.spec_interval_ms()),
        t2 - t1 < saved.spec_interval_ms() ==> t2 - saved.spec_last_save()
            < saved.spec_interval_ms(),
{
}

} // verus!

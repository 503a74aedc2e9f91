//! Counters and resource figures of the running watcher.
//!
//! Readings of the process's resource use are taken by the caller and
//! handed in as plain values. The clock is `std::time`; nothing is claimed
//! of what it reports.

use crate::text::{decimal, push_decimal};
use std::time::{Duration, Instant};
use vstd::prelude::*;
use vstd::string::StringExecFns;

verus! {

#[verifier::external_type_specification]
#[verifier::external_body]
pub struct ExInstant(Instant);

/// The whole seconds that a duration holds.
pub uninterp spec fn duration_secs(duration: Duration) -> u64;

/// `Duration::as_secs`. Trusted: the answer is a function of the duration.
pub assume_specification[ Duration::as_secs ](duration: &Duration) -> (seconds: u64)
    ensures
        seconds == duration_secs(*duration),
;

/// `Instant::now`. The clock decides; nothing is claimed.
#[verifier::external_body]
fn clock_now() -> Instant {
    Instant::now()
}

/// `Instant::elapsed`. The clock decides; nothing is claimed.
#[verifier::external_body]
fn clock_elapsed(start: &Instant) -> Duration {
    start.elapsed()
}

/// One reading of the process's resource use.
#[derive(Debug, Clone, Copy, PartialEq, Eq)]
pub struct ResourceSample {
    /// Resident memory, in bytes.
    pub memory_bytes: u64,
    /// Processor share in percent, as the bit pattern of a single-precision
    /// number.
    pub cpu_bits: u32,
}

/// The figures of a collector at one moment.
#[derive(Debug, Clone, Copy, PartialEq, Eq)]
pub struct StatsSnapshot {
    pub uptime_secs: u64,
    pub file_changes: usize,
    pub watcher_calls: usize,
    pub memory_kb: u64,
    pub cpu_bits: u32,
}

/// Counts file changes and watcher invocations, and keeps the latest
/// resource reading.
pub struct StatsCollector {
    pub start_time: Instant,
    pub file_changes: usize,
    pub watcher_calls: usize,
    /// Resident memory at the latest reading, in kilobytes.
    pub last_memory_usage: u64,
    /// Processor share at the latest reading, in percent, as the bit pattern
    /// of a single-precision number.
    pub last_cpu_usage: u32,
}

/// The memory figure once a reading has been taken over: the reading in
/// kilobytes, rounded down, or the earlier figure where there is no reading.
pub open spec fn memory_after(earlier: u64, sample: Option<ResourceSample>) -> u64 {
    match sample {
        Some(s) => s.memory_bytes / 1024,
        None => earlier,
    }
}

/// The processor figure once a reading has been taken over: the reading as
/// it is, or the earlier figure where there is no reading.
pub open spec fn cpu_after(earlier: u32, sample: Option<ResourceSample>) -> u32 {
    match sample {
        Some(s) => s.cpu_bits,
        None => earlier,
    }
}

/// How a duration of `seconds` is written: `42s`, `3m 7s`, `2h 0m 5s`.
pub open spec fn duration_text(seconds: nat) -> Seq<char> {
    if seconds < 60 {
        decimal(seconds) + seq!['s']
    } else if seconds < 3600 {
        decimal(seconds / 60) + seq!['m', ' '] + decimal(seconds % 60) + seq!['s']
    } else {
        decimal(seconds / 3600) + seq!['h', ' '] + decimal((seconds % 3600) / 60) + seq!['m', ' ']
            + decimal(seconds % 60) + seq!['s']
    }
}

impl StatsCollector {
    /// A collector with all counts at zero, started now.
    pub fn new() -> (stats: StatsCollector)
        ensures
            stats.file_changes == 0,
            stats.watcher_calls == 0,
            stats.last_memory_usage == 0,
            stats.last_cpu_usage == 0,
    {
        StatsCollector {
            start_time: clock_now(),
            file_changes: 0,
            watcher_calls: 0,
            last_memory_usage: 0,
            last_cpu_usage: 0,
        }
    }

    /// Counts one more file change.
    pub fn record_file_change(&mut self)
        requires
            old(self).file_changes < usize::MAX,
        ensures
            final(self).file_changes == old(self).file_changes + 1,
            final(self).watcher_calls == old(self).watcher_calls,
            final(self).last_memory_usage == old(self).last_memory_usage,
            final(self).last_cpu_usage == old(self).last_cpu_usage,
            final(self).start_time == old(self).start_time,
    {
        self.file_changes += 1;
    }

    /// Counts one more watcher invocation.
    pub fn record_watcher_call(&mut self)
        requires
            old(self).watcher_calls < usize::MAX,
        ensures
            final(self).watcher_calls == old(self).watcher_calls + 1,
            final(self).file_changes == old(self).file_changes,
            final(self).last_memory_usage == old(self).last_memory_usage,
            final(self).last_cpu_usage == old(self).last_cpu_usage,
            final(self).start_time == old(self).start_time,
    {
        self.watcher_calls += 1;
    }

    /// Takes over a reading: memory in kilobytes, rounded down, and the
    /// processor share as it is. Without a reading the earlier figures stay.
    pub fn apply_sample(&mut self, sample: Option<ResourceSample>)
        ensures
            final(self).last_memory_usage == memory_after(old(self).last_memory_usage, sample),
            final(self).last_cpu_usage == cpu_after(old(self).last_cpu_usage, sample),
            final(self).file_changes == old(self).file_changes,
            final(self).watcher_calls == old(self).watcher_calls,
            final(self).start_time == old(self).start_time,
    {
        if let Some(s) = sample {
            self.last_memory_usage = s.memory_bytes / 1024;
            self.last_cpu_usage = s.cpu_bits;
        }
    }

    /// The figures as they stand, with the time since the start.
    pub fn snapshot(&self) -> (snapshot: StatsSnapshot)
        ensures
            snapshot.file_changes == self.file_changes,
            snapshot.watcher_calls == self.watcher_calls,
            snapshot.memory_kb == self.last_memory_usage,
            snapshot.cpu_bits == self.last_cpu_usage,
    {
        StatsSnapshot {
            uptime_secs: clock_elapsed(&self.start_time).as_secs(),
            file_changes: self.file_changes,
            watcher_calls: self.watcher_calls,
            memory_kb: self.last_memory_usage,
            cpu_bits: self.last_cpu_usage,
        }
    }
}

/// Writes a number of seconds as hours, minutes and seconds, leaving out the
/// leading units that are zero.
pub fn format_seconds(seconds: u64) -> (s: String)
    ensures
        s@ == duration_text(seconds as nat),
{
    proof {
        reveal_strlit("s");
        reveal_strlit("m ");
        reveal_strlit("h ");
        assert("s"@ =~= seq!['s']);
        assert("m "@ =~= seq!['m', ' ']);
        assert("h "@ =~= seq!['h', ' ']);
    }
    let mut s = String::new();
    if seconds < 60 {
        push_decimal(&mut s, seconds);
        s.append("s");
        assert(s@ =~= decimal(seconds as nat) + seq!['s']);
    } else if seconds < 3600 {
        push_decimal(&mut s, seconds / 60);
        s.append("m ");
        push_decimal(&mut s, seconds % 60);
        s.append("s");
        assert(s@ =~= decimal((seconds / 60) as nat) + seq!['m', ' '] + decimal(
            (seconds % 60) as nat,
        ) + seq!['s']);
    } else {
        push_decimal(&mut s, seconds / 3600);
        s.append("h ");
        push_decimal(&mut s, (seconds % 3600) / 60);
        s.append("m ");
        push_decimal(&mut s, seconds % 60);
        s.append("s");
        assert(s@ =~= decimal((seconds / 3600) as nat) + seq!['h', ' '] + decimal(
            ((seconds % 3600) / 60) as nat,
        ) + seq!['m', ' '] + decimal((seconds % 60) as nat) + seq!['s']);
    }
    s
}

/// Writes a duration as hours, minutes and seconds; fractions of a second
/// are dropped.
pub fn format_duration(duration: Duration) -> (s: String)
    ensures
        s@ == duration_text(duration_secs(duration) as nat),
{
    format_seconds(duration.as_secs())
}

} // verus!

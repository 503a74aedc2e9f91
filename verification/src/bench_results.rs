//! The measures by which file watchers are compared.

use vstd::prelude::*;

verus! {

/// A measure of a file watcher's cost. For each of them lower is better.
#[derive(Debug, Clone, Copy, PartialEq, Eq, Hash)]
pub enum BenchMetric {
    StartupTime,
    MemoryUsage,
    ChangeDetection,
    CpuUsage,
}

impl BenchMetric {
    /// The name of the measure.
    pub open spec fn name_text(self) -> Seq<char> {
        match self {
            BenchMetric::StartupTime => "Startup Time"@,
            BenchMetric::MemoryUsage => "Memory Usage"@,
            BenchMetric::ChangeDetection => "Change Detection"@,
            BenchMetric::CpuUsage => "CPU Usage"@,
        }
    }

    /// The heading of the measure's chart, with its unit.
    pub open spec fn chart_title_text(self) -> Seq<char> {
        match self {
            BenchMetric::StartupTime => "Startup Time (ms) - lower is better"@,
            BenchMetric::MemoryUsage => "Memory Usage (KB) - lower is better"@,
            BenchMetric::ChangeDetection => "Change Detection (ms) - lower is better"@,
            BenchMetric::CpuUsage => "CPU Usage (%) - lower is better"@,
        }
    }

    /// What an improvement in the measure is called.
    pub open spec fn improvement_text(self) -> Seq<char> {
        match self {
            BenchMetric::StartupTime => "Startup Speed"@,
            BenchMetric::MemoryUsage => "Memory Efficiency"@,
            BenchMetric::ChangeDetection => "Detection Speed"@,
            BenchMetric::CpuUsage => "CPU Efficiency"@,
        }
    }

    /// The name of the measure.
    pub fn to_string(&self) -> (s: String)
        ensures
            s@ == self.name_text(),
    {
        match self {
            BenchMetric::StartupTime => "Startup Time".to_string(),
            BenchMetric::MemoryUsage => "Memory Usage".to_string(),
            BenchMetric::ChangeDetection => "Change Detection".to_string(),
            BenchMetric::CpuUsage => "CPU Usage".to_string(),
        }
    }

    /// The heading of the measure's chart, with its unit.
    pub fn chart_title(&self) -> (s: &'static str)
        ensures
            s@ == self.chart_title_text(),
    {
        match self {
            BenchMetric::StartupTime => "Startup Time (ms) - lower is better",
            BenchMetric::MemoryUsage => "Memory Usage (KB) - lower is better",
            BenchMetric::ChangeDetection => "Change Detection (ms) - lower is better",
            BenchMetric::CpuUsage => "CPU Usage (%) - lower is better",
        }
    }

    /// What an improvement in the measure is called.
    pub fn improvement_label(&self) -> (s: &'static str)
        ensures
            s@ == self.improvement_text(),
    {
        match self {
            BenchMetric::StartupTime => "Startup Speed",
            BenchMetric::MemoryUsage => "Memory Efficiency",
            BenchMetric::ChangeDetection => "Detection Speed",
            BenchMetric::CpuUsage => "CPU Efficiency",
        }
    }

    /// The four measures, in the order in which they are reported.
    pub fn all() -> (metrics: [BenchMetric; 4])
        ensures
            metrics@ == seq![
                BenchMetric::StartupTime,
                BenchMetric::MemoryUsage,
                BenchMetric::ChangeDetection,
                BenchMetric::CpuUsage,
            ],
    {
        [
            BenchMetric::StartupTime,
            BenchMetric::MemoryUsage,
            BenchMetric::ChangeDetection,
            BenchMetric::CpuUsage,
        ]
    }
}

} // verus!

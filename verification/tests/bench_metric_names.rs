use flash_watcher::bench_results::BenchMetric;

#[test]
fn chart_titles_name_the_unit() {
    assert_eq!(BenchMetric::StartupTime.chart_title(), "Startup Time (ms) - lower is better");
    assert_eq!(BenchMetric::MemoryUsage.chart_title(), "Memory Usage (KB) - lower is better");
    assert_eq!(
        BenchMetric::ChangeDetection.chart_title(),
        "Change Detection (ms) - lower is better"
    );
    assert_eq!(BenchMetric::CpuUsage.chart_title(), "CPU Usage (%) - lower is better");
}

#[test]
fn improvement_labels() {
    assert_eq!(BenchMetric::StartupTime.improvement_label(), "Startup Speed");
    assert_eq!(BenchMetric::MemoryUsage.improvement_label(), "Memory Efficiency");
    assert_eq!(BenchMetric::ChangeDetection.improvement_label(), "Detection Speed");
    assert_eq!(BenchMetric::CpuUsage.improvement_label(), "CPU Efficiency");
}

#[test]
fn metrics_in_report_order() {
    assert_eq!(
        BenchMetric::all(),
        [
            BenchMetric::StartupTime,
            BenchMetric::MemoryUsage,
            BenchMetric::ChangeDetection,
            BenchMetric::CpuUsage,
        ]
    );
}

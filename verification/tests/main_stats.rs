use flash_watcher::stats::StatsCollector;
use flash_watcher::{validate_args, Args};
use std::sync::{Arc, Mutex};

#[test]
fn test_args_stats_configuration() {
    // Test stats-related Args configuration used in main.rs
    let args_with_stats = Args {
        stats: true,
        stats_interval: 5,
        ..Args::default()
    };

    assert!(args_with_stats.stats);
    assert_eq!(args_with_stats.stats_interval, 5);

    let args_without_stats = Args {
        stats: false,
        stats_interval: 10, // default
        ..Args::default()
    };

    assert!(!args_without_stats.stats);
    assert_eq!(args_without_stats.stats_interval, 10);
}

#[test]
fn test_stats_enabled_flag_logic() {
    // Test the stats_enabled flag logic from main.rs setup_watcher
    let args_with_stats = Args {
        stats: true,
        ..Args::default()
    };

    let args_without_stats = Args {
        stats: false,
        ..Args::default()
    };

    // Simulate the stats_enabled capture from main.rs
    let stats_enabled_true = args_with_stats.stats;
    let stats_enabled_false = args_without_stats.stats;

    assert!(stats_enabled_true);
    assert!(!stats_enabled_false);

    // Test conditional stats recording (as done in main.rs event handler)
    let stats_collector = Arc::new(Mutex::new(StatsCollector::new()));

    if stats_enabled_true {
        let mut stats = stats_collector.lock().unwrap();
        stats.record_watcher_call();
    }

    if stats_enabled_false {
        let mut stats = stats_collector.lock().unwrap();
        stats.record_watcher_call();
    }

    // Only one call should have been recorded (when stats was enabled)
    let stats = stats_collector.lock().unwrap();
    assert_eq!(stats.watcher_calls, 1);
}

#[test]
fn test_main_args_validation_with_stats() {
    // Test Args validation with stats options

    let valid_args_with_stats = Args {
        command: vec!["echo".to_string(), "test".to_string()],
        stats: true,
        stats_interval: 5,
        ..Args::default()
    };

    assert!(validate_args(&valid_args_with_stats).is_ok());

    let valid_args_without_stats = Args {
        command: vec!["echo".to_string(), "test".to_string()],
        stats: false,
        stats_interval: 10,
        ..Args::default()
    };

    assert!(validate_args(&valid_args_without_stats).is_ok());
}

#[test]
fn test_watch_paths_processing() {
    // Test watch paths processing logic from main.rs
    let args = Args {
        watch: vec![".".to_string(), "src".to_string(), "tests".to_string()],
        ..Args::default()
    };

    // Test that all watch paths are present
    assert_eq!(args.watch.len(), 3);
    assert!(args.watch.contains(&".".to_string()));
    assert!(args.watch.contains(&"src".to_string()));
    assert!(args.watch.contains(&"tests".to_string()));

    // Test default watch path
    let default_args = Args::default();
    assert_eq!(default_args.watch, vec!["."]);
}

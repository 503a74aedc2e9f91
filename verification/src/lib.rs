//! A file watcher's core: which changes count, when they set off the
//! command, and how the command's process is managed.

pub mod bench_results;
pub mod config;
pub mod debounce;
pub mod filter;
pub mod runner;
pub mod stats;
pub mod text;
pub mod watch;

pub use config::{merge_config, validate_args, Args, Config, ConfigError};
pub use debounce::DebounceRegistry;
pub use filter::{
    compile_patterns, format_display_path, should_process_path, should_skip_dir, InvalidPattern,
};
pub use runner::{CommandRunner, RunError, RunPlan, RunReport, SpawnOutcome};
pub use watch::{forwards, resolve_watch_spec, Dispatcher, EventKind, WatchSet, WatchTarget};

//! The run configuration: what the command line gives, what a configuration
//! file gives, and how the two are merged.

use crate::text::text_equals;
use vstd::prelude::*;

verus! {

/// The debounce window, in milliseconds, when none is given.
pub const DEFAULT_DEBOUNCE: u64 = 100;

/// The interval between statistics reports, in seconds, when none is given.
pub const DEFAULT_STATS_INTERVAL: u64 = 10;

/// Settings read from a configuration file. Only the command is mandatory.
#[derive(Debug, Clone, PartialEq)]
pub struct Config {
    pub command: Vec<String>,
    pub watch: Option<Vec<String>>,
    pub ext: Option<String>,
    pub pattern: Option<Vec<String>>,
    pub ignore: Option<Vec<String>>,
    pub debounce: Option<u64>,
    pub initial: Option<bool>,
    pub clear: Option<bool>,
    pub restart: Option<bool>,
    pub stats: Option<bool>,
    pub stats_interval: Option<u64>,
}

/// Settings given on the command line.
#[derive(Debug, Clone, PartialEq)]
pub struct Args {
    pub command: Vec<String>,
    pub watch: Vec<String>,
    pub ext: Option<String>,
    pub pattern: Vec<String>,
    pub ignore: Vec<String>,
    pub debounce: u64,
    pub initial: bool,
    pub clear: bool,
    pub restart: bool,
    pub stats: bool,
    pub stats_interval: u64,
    pub bench: bool,
    pub config: Option<String>,
}

/// Why a configuration cannot be run.
#[derive(Debug, Clone, Copy, PartialEq, Eq)]
pub enum ConfigError {
    /// Neither the command line nor the configuration file names a command.
    NoCommand,
}

impl ConfigError {
    /// The message for this error.
    pub fn to_string(&self) -> (s: String)
        ensures
            s@ == "No command specified. Use CLI arguments or a config file."@,
    {
        "No command specified. Use CLI arguments or a config file.".to_string()
    }
}

/// Whether `watch` is the single entry `.`, which is what the command line
/// gives when no watch target was named.
pub open spec fn is_default_watch(watch: Vec<String>) -> bool {
    watch@.len() == 1 && watch@[0]@ == "."@
}

/// The settings in force once a configuration file has been read.
///
/// A command-line value that was set wins. A value counts as not set while
/// it still equals its default: an empty list, the watch list `.`, no
/// extension filter, a `false` flag, the default debounce window, the
/// default statistics interval. For such a value the file's value is taken,
/// where the file has one.
pub open spec fn merged(args: Args, config: Config) -> Args {
    Args {
        command: if args.command@.len() == 0 && config.command@.len() != 0 {
            config.command
        } else {
            args.command
        },
        watch: if is_default_watch(args.watch) && config.watch is Some {
            config.watch->0
        } else {
            args.watch
        },
        ext: if args.ext is None {
            config.ext
        } else {
            args.ext
        },
        pattern: if args.pattern@.len() == 0 && config.pattern is Some {
            config.pattern->0
        } else {
            args.pattern
        },
        ignore: if args.ignore@.len() == 0 && config.ignore is Some {
            config.ignore->0
        } else {
            args.ignore
        },
        debounce: if args.debounce == DEFAULT_DEBOUNCE && config.debounce is Some {
            config.debounce->0
        } else {
            args.debounce
        },
        initial: if !args.initial && config.initial is Some {
            config.initial->0
        } else {
            args.initial
        },
        clear: if !args.clear && config.clear is Some {
            config.clear->0
        } else {
            args.clear
        },
        restart: if !args.restart && config.restart is Some {
            config.restart->0
        } else {
            args.restart
        },
        stats: if !args.stats && config.stats is Some {
            config.stats->0
        } else {
            args.stats
        },
        stats_interval: if args.stats_interval == DEFAULT_STATS_INTERVAL
            && config.stats_interval is Some {
            config.stats_interval->0
        } else {
            args.stats_interval
        },
        bench: args.bench,
        config: args.config,
    }
}

/// Whether every setting that a file could fill was set on the command
/// line, so that none of them still equals its default.
pub open spec fn all_set(args: Args) -> bool {
    &&& args.command@.len() != 0
    &&& !is_default_watch(args.watch)
    &&& args.ext is Some
    &&& args.pattern@.len() != 0
    &&& args.ignore@.len() != 0
    &&& args.debounce != DEFAULT_DEBOUNCE
    &&& args.initial
    &&& args.clear
    &&& args.restart
    &&& args.stats
    &&& args.stats_interval != DEFAULT_STATS_INTERVAL
}

/// Whether a configuration file gives no value at all.
pub open spec fn gives_nothing(config: Config) -> bool {
    &&& config.command@.len() == 0
    &&& config.watch is None
    &&& config.ext is None
    &&& config.pattern is None
    &&& config.ignore is None
    &&& config.debounce is None
    &&& config.initial is None
    &&& config.clear is None
    &&& config.restart is None
    &&& config.stats is None
    &&& config.stats_interval is None
}

/// Values set on the command line win: where every setting was set, no
/// configuration file changes any of them.
pub proof fn lemma_set_values_win(args: Args, config: Config)
    requires
        all_set(args),
    ensures
        merged(args, config) == args,
{
}

/// A configuration file that gives no value changes nothing.
pub proof fn lemma_empty_file_changes_nothing(args: Args, config: Config)
    requires
        gives_nothing(config),
    ensures
        merged(args, config) == args,
{
}

/// The command is the command line's where it names one, and the file's
/// otherwise.
pub proof fn lemma_command_source(args: Args, config: Config)
    ensures
        args.command@.len() != 0 ==> merged(args, config).command == args.command,
        args.command@.len() == 0 ==> merged(args, config).command@ == config.command@,
{
}

impl Default for Args {
    /// No command, the current directory as the only watch target, no
    /// filters, every flag off.
    fn default() -> (args: Args)
        ensures
            args.command@.len() == 0,
            is_default_watch(args.watch),
            args.ext is None,
            args.pattern@.len() == 0,
            args.ignore@.len() == 0,
            args.debounce == DEFAULT_DEBOUNCE,
            !args.initial,
            !args.clear,
            !args.restart,
            !args.stats,
            args.stats_interval == DEFAULT_STATS_INTERVAL,
            !args.bench,
            args.config is None,
    {
        let mut watch: Vec<String> = Vec::new();
        watch.push(".".to_string());
        Args {
            command: Vec::new(),
            watch,
            ext: None,
            pattern: Vec::new(),
            ignore: Vec::new(),
            debounce: DEFAULT_DEBOUNCE,
            initial: false,
            clear: false,
            restart: false,
            stats: false,
            stats_interval: DEFAULT_STATS_INTERVAL,
            bench: false,
            config: None,
        }
    }
}

/// Takes the file's flag where the command line left the flag off.
fn fill_flag(flag: &mut bool, from_file: Option<bool>)
    ensures
        *final(flag) == (if !*old(flag) && from_file is Some {
            from_file->0
        } else {
            *old(flag)
        }),
{
    if !*flag {
        if let Some(value) = from_file {
            *flag = value;
        }
    }
}

/// Takes the file's number where the command line left the default.
fn fill_number(number: &mut u64, default: u64, from_file: Option<u64>)
    ensures
        *final(number) == (if *old(number) == default && from_file is Some {
            from_file->0
        } else {
            *old(number)
        }),
{
    if *number == default {
        if let Some(value) = from_file {
            *number = value;
        }
    }
}

/// Takes the file's list where the command line gave an empty one.
fn fill_list(list: &mut Vec<String>, from_file: Option<Vec<String>>)
    ensures
        *final(list) == (if old(list)@.len() == 0 && from_file is Some {
            from_file->0
        } else {
            *old(list)
        }),
{
    if list.len() == 0 {
        if let Some(value) = from_file {
            *list = value;
        }
    }
}

/// Takes the file's watch targets where the command line left the default.
fn fill_watch(watch: &mut Vec<String>, from_file: Option<Vec<String>>)
    ensures
        *final(watch) == (if is_default_watch(*old(watch)) && from_file is Some {
            from_file->0
        } else {
            *old(watch)
        }),
{
    if watch.len() == 1 && text_equals(watch[0].as_str(), ".") {
        if let Some(value) = from_file {
            *watch = value;
        }
    }
}

/// Fills the settings that the command line left at their defaults from the
/// configuration file.
pub fn merge_config(args: &mut Args, config: Config)
    ensures
        *final(args) == merged(*old(args), config),
{
    if args.command.len() == 0 && config.command.len() != 0 {
        args.command = config.command;
    }
    fill_watch(&mut args.watch, config.watch);
    if args.ext.is_none() {
        args.ext = config.ext;
    }
    fill_list(&mut args.pattern, config.pattern);
    fill_list(&mut args.ignore, config.ignore);
    fill_number(&mut args.debounce, DEFAULT_DEBOUNCE, config.debounce);
    fill_flag(&mut args.initial, config.initial);
    fill_flag(&mut args.clear, config.clear);
    fill_flag(&mut args.restart, config.restart);
    fill_flag(&mut args.stats, config.stats);
    fill_number(&mut args.stats_interval, DEFAULT_STATS_INTERVAL, config.stats_interval);
}

/// Accepts the settings when they name a command to run.
pub fn validate_args(args: &Args) -> (r: Result<(), ConfigError>)
    ensures
        r is Ok <==> args.command@.len() > 0,
        r is Err ==> r == Err::<(), ConfigError>(ConfigError::NoCommand),
{
    if args.command.len() == 0 {
        return Err(ConfigError::NoCommand);
    }
    Ok(())
}

} // verus!

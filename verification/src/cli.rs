//! What the command line asks for, and what follows from it: how much is
//! logged, whether there are rules to run, and the status with which the
//! process ends.

use std::path::PathBuf;
use vstd::prelude::*;

verus! {

/// A path in the file system, `std::path::PathBuf`. It is carried along
/// as it came and never looked into.
#[verifier::external_type_specification]
#[verifier::external_body]
pub struct ExPathBuf(PathBuf);

/// The command line.
#[derive(Debug)]
pub struct Cli {
    /// The path of the stored rules, if one was given.
    pub config_path: Option<PathBuf>,
    /// Whether debug logs were asked for.
    pub debug: bool,
}

/// How much is logged.
#[derive(Debug, Clone, Copy, PartialEq, Eq, Structural)]
pub enum LogLevel {
    Trace,
    Debug,
    Info,
}

/// How the log is set up.
#[derive(Debug, Clone, Copy, PartialEq, Eq, Structural)]
pub struct LogSettings {
    /// Whether each line names the thread, the file and the line that
    /// wrote it.
    pub source_info: bool,
    /// The most verbose level that is still logged.
    pub max_level: LogLevel,
}

/// What the process is to do first.
#[derive(Debug)]
pub enum Startup {
    /// No path was given: write an example record and end with a failure.
    WriteExample,
    /// Run the rules stored at this path.
    Run(PathBuf),
}

/// How the process ended.
#[derive(Debug, Clone, Copy, PartialEq, Eq, Structural)]
pub enum Termination {
    /// It ran and ended in good order.
    Completed,
    /// No path to the stored rules was given.
    NoConfigPath,
    /// The stored rules could not be read.
    StoreUnavailable,
    /// The limit on open descriptors had been raised and could not be set
    /// back.
    RestoreFailed,
}

/// The settings of the log for a build with or without debug assertions
/// and a command line with or without the debug flag. Source info is
/// shown in a build with debug assertions only, whatever the flag says;
/// the level is one step more verbose for each of the two that holds.
pub open spec fn log_settings_of(debug_build: bool, debug_flag: bool) -> LogSettings {
    LogSettings {
        source_info: debug_build,
        max_level: if debug_build && debug_flag {
            LogLevel::Trace
        } else if debug_build || debug_flag {
            LogLevel::Debug
        } else {
            LogLevel::Info
        },
    }
}

/// The exit status for each way of ending: zero for the good one only,
/// and a status of its own for a limit that could not be set back.
pub open spec fn exit_code_of(termination: Termination) -> u8 {
    match termination {
        Termination::Completed => 0,
        Termination::NoConfigPath => 1,
        Termination::StoreUnavailable => 1,
        Termination::RestoreFailed => 2,
    }
}

impl Cli {
    pub fn new(config_path: Option<PathBuf>, debug: bool) -> (cli: Cli)
        ensures
            cli.config_path == config_path,
            cli.debug == debug,
    {
        Cli { config_path, debug }
    }

    /// The settings of the log, in a build with debug assertions
    /// (`debug_build`) or without.
    pub fn log_settings(&self, debug_build: bool) -> (settings: LogSettings)
        ensures
            settings == log_settings_of(debug_build, self.debug),
    {
        let max_level = if debug_build && self.debug {
            LogLevel::Trace
        } else if debug_build || self.debug {
            LogLevel::Debug
        } else {
            LogLevel::Info
        };
        LogSettings { source_info: debug_build, max_level }
    }

    /// What the process is to do first.
    pub fn startup(self) -> (startup: Startup)
        ensures
            match self.config_path {
                Some(path) => startup matches Startup::Run(p) && p == path,
                None => startup is WriteExample,
            },
    {
        match self.config_path {
            Some(path) => Startup::Run(path),
            None => Startup::WriteExample,
        }
    }
}

impl Termination {
    /// The exit status of the process.
    pub fn exit_code(&self) -> (code: u8)
        ensures
            code == exit_code_of(*self),
    {
        match self {
            Termination::Completed => 0,
            Termination::NoConfigPath => 1,
            Termination::StoreUnavailable => 1,
            Termination::RestoreFailed => 2,
        }
    }
}

/// The debug flag decides on the level alone: whether source info is
/// shown follows the build, and the flag makes the level one step more
/// verbose than it is without it.
pub proof fn lemma_flag_sets_level_only(debug_build: bool, debug_flag: bool)
    ensures
        log_settings_of(debug_build, debug_flag).source_info == debug_build,
        log_settings_of(debug_build, true).max_level == (if debug_build {
            LogLevel::Trace
        } else {
            LogLevel::Debug
        }),
        log_settings_of(debug_build, false).max_level == (if debug_build {
            LogLevel::Debug
        } else {
            LogLevel::Info
        }),
{
}

/// Only a process that ended in good order exits with status zero, and a
/// limit that could not be set back is told apart from every other
/// failure.
pub proof fn lemma_exit_codes(termination: Termination)
    ensures
        exit_code_of(termination) == 0 <==> termination is Completed,
        termination !is RestoreFailed ==> exit_code_of(termination) != exit_code_of(
            Termination::RestoreFailed,
        ),
{
}

} // verus!

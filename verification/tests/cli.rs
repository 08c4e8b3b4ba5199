use std::path::PathBuf;

use tcp_proxy::cli::{Cli, LogLevel, LogSettings, Startup, Termination};

#[test]
fn log_settings_follow_build_and_flag() {
    let quiet = Cli::new(None, false);
    let verbose = Cli::new(None, true);
    assert_eq!(
        quiet.log_settings(false),
        LogSettings { source_info: false, max_level: LogLevel::Info }
    );
    assert_eq!(
        quiet.log_settings(true),
        LogSettings { source_info: true, max_level: LogLevel::Debug }
    );
    assert_eq!(
        verbose.log_settings(false),
        LogSettings { source_info: false, max_level: LogLevel::Debug }
    );
    assert_eq!(
        verbose.log_settings(true),
        LogSettings { source_info: true, max_level: LogLevel::Trace }
    );
}

#[test]
fn source_info_follows_the_build_alone() {
    for debug in [false, true] {
        let cli = Cli::new(None, debug);
        assert!(cli.log_settings(true).source_info);
        assert!(!cli.log_settings(false).source_info);
    }
}

#[test]
fn startup_needs_a_path() {
    assert!(matches!(Cli::new(None, true).startup(), Startup::WriteExample));
    match Cli::new(Some(PathBuf::from("rules.json")), false).startup() {
        Startup::Run(path) => assert_eq!(path, PathBuf::from("rules.json")),
        Startup::WriteExample => panic!("a path was given"),
    }
    match Cli::new(Some(PathBuf::new()), false).startup() {
        Startup::Run(path) => assert_eq!(path, PathBuf::new()),
        Startup::WriteExample => panic!("a path was given"),
    }
}

#[test]
fn exit_codes_tell_the_endings_apart() {
    assert_eq!(Termination::Completed.exit_code(), 0);
    assert_eq!(Termination::NoConfigPath.exit_code(), 1);
    assert_eq!(Termination::StoreUnavailable.exit_code(), 1);
    assert_eq!(Termination::RestoreFailed.exit_code(), 2);
}

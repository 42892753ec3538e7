use warm_drive_cache::cleanup::{exit_summary_lines, issues_url};
use warm_drive_cache::config::{Config, IgnoreOptions, MountWait, PathPair, WalkOptions};
use warm_drive_cache::startup::{
    banner_lines, find_option, help_lines, information_lines, loaded_config_lines, CliAction,
    CliOption, CliOverrides, MOUNT_MODIFICATION_WARNING,
};

fn parse_cli_args(args: &[&str]) -> Result<CliAction, String> {
    let owned: Vec<String> = args.iter().map(|a| a.to_string()).collect();
    warm_drive_cache::startup::parse_cli_args(&owned)
}

#[test]
fn cli_validation_and_precedence() {
    assert!(matches!(
        parse_cli_args(&["--json"]).unwrap(),
        CliAction::JsonValidation { .. }
    ));
    assert!(parse_cli_args(&["--wat"]).is_err());
    assert!(parse_cli_args(&["-t"]).is_err());
    assert!(parse_cli_args(&["-t", "0"]).is_err());
    assert!(parse_cli_args(&["-c", "maybe"]).is_err());
    assert_eq!(parse_cli_args(&["--wat", "--help"]).unwrap(), CliAction::Help);
    assert_eq!(parse_cli_args(&["--wat", "-?"]).unwrap(), CliAction::Help);
    assert!(parse_cli_args(&["--json", "--wat"]).is_err());
    assert!(parse_cli_args(&["--json", "-v"]).is_err());
    assert_eq!(
        parse_cli_args(&["--json", "-t", "4", "-c", "NO"]).unwrap(),
        CliAction::JsonValidation {
            overrides: CliOverrides {
                threads: Some(4),
                size: None,
                checksum: Some(false),
                width: None,
            }
        }
    );
    assert!(parse_cli_args(&["-v", "-v"]).is_err());
    assert!(parse_cli_args(&["--dry-run", "--dry-run"]).is_err());
    assert_eq!(
        parse_cli_args(&["--information", "-j"]).unwrap(),
        CliAction::JsonValidation { overrides: Default::default() }
    );
    assert_eq!(parse_cli_args(&["--json", "--help"]).unwrap(), CliAction::Help);
}

#[test]
fn every_runtime_option_accepts_short_and_long_forms() {
    for args in [
        vec!["-j"],
        vec!["--json"],
        vec!["-t", "4"],
        vec!["--threads", "4"],
        vec!["-s", "1MiB"],
        vec!["--size", "1MiB"],
        vec!["-c", "NO"],
        vec!["--checksum", "NO"],
        vec!["--json", "-t", "4"],
        vec!["--json", "--size", "1MiB"],
        vec!["-w", "100"],
        vec!["--width", "100"],
        vec!["--json", "-w", "90"],
    ] {
        parse_cli_args(&args).expect("documented short and long option must parse");
    }
    assert!(parse_cli_args(&["-s", "1.5KiB"]).is_err());
    assert!(parse_cli_args(&["-w"]).is_err());
    assert!(parse_cli_args(&["-w", "abc"]).is_err());
    assert!(parse_cli_args(&["-w", "80", "--width", "100"]).is_err());

    let CliAction::Run { overrides, .. } =
        parse_cli_args(&["-t", "4", "-s", "1MiB", "-c", "NO"]).unwrap()
    else {
        panic!("runtime overrides should produce a run action");
    };
    assert_eq!(overrides.threads, Some(4));
    assert_eq!(overrides.size, Some(1024 * 1024));
    assert_eq!(overrides.checksum, Some(false));
    assert_eq!(overrides.width, None);

    let CliAction::Run { overrides, .. } = parse_cli_args(&["-w", "50"]).unwrap() else {
        panic!("width override should produce a run action");
    };
    assert_eq!(overrides.width, Some(80));

    let CliAction::Run { overrides, .. } = parse_cli_args(&["--width", "250"]).unwrap() else {
        panic!("width override should produce a run action");
    };
    assert_eq!(overrides.width, Some(200));

    let CliAction::Run { overrides, .. } = parse_cli_args(&["--width", "120"]).unwrap() else {
        panic!("width override should produce a run action");
    };
    assert_eq!(overrides.width, Some(120));
}

#[test]
fn no_arguments_and_all_switches() {
    assert_eq!(
        parse_cli_args(&[]).unwrap(),
        CliAction::Run {
            dry_run: false,
            verbose: false,
            log: false,
            overrides: CliOverrides::default(),
        }
    );
    assert_eq!(
        parse_cli_args(&["-l", "--verbose", "--dry-run"]).unwrap(),
        CliAction::Run {
            dry_run: true,
            verbose: true,
            log: true,
            overrides: CliOverrides::default(),
        }
    );
    assert_eq!(parse_cli_args(&["-v", "-i"]).unwrap(), CliAction::Information);
    assert_eq!(parse_cli_args(&["-h"]).unwrap(), CliAction::Help);
}

#[test]
fn duplicates_are_rejected_in_either_form() {
    for args in [
        vec!["-j", "--json"],
        vec!["-j", "-i", "--information"],
        vec!["-l", "--log"],
        vec!["-t", "1", "--threads", "2"],
        vec!["-s", "1", "-s", "1"],
        vec!["-c", "Y", "--checksum", "N"],
        vec!["--verbose", "-v"],
    ] {
        assert!(parse_cli_args(&args).is_err(), "{args:?}");
    }
}

#[test]
fn options_by_name() {
    assert_eq!(find_option("--threads"), Some(CliOption::Threads));
    assert_eq!(find_option("-?"), Some(CliOption::Help));
    assert_eq!(find_option("--Threads"), None);
}

#[test]
fn help_ends_with_the_warning() {
    let help = help_lines();
    assert_eq!(help.last().map(String::as_str), Some(MOUNT_MODIFICATION_WARNING));
    assert!(help.iter().any(|l| l.contains("--dry-run")));
    assert!(help.iter().any(|l| l.contains("--width")));
    assert!(information_lines().iter().any(|l| l.contains("Codebase Version")));
}

#[test]
fn banner_rows_have_one_width() {
    let banner = banner_lines();
    let boxed: Vec<&String> =
        banner.iter().filter(|l| l.starts_with(['┌', '│', '└'])).collect();
    assert_eq!(boxed.len(), 9);
    for row in boxed {
        assert_eq!(row.chars().count(), 67);
    }
}

#[test]
fn configuration_block() {
    let cfg = Config {
        version: 1,
        paths: vec![PathPair {
            sync: "/s".to_string(),
            cache: "/c".to_string(),
            service: Some("a.service".to_string()),
        }],
        walk: WalkOptions::default(),
        ignore: IgnoreOptions { names: vec![".git".to_string(), "a\"b".to_string()] },
        mount_wait: MountWait::default(),
    };
    let lines = loaded_config_lines(&cfg);
    assert!(lines.iter().any(|l| l.contains("a.service")));
    assert!(lines.iter().any(|l| l.contains("[\".git\", \"a\\\"b\"]")), "{lines:?}");
    assert!(lines.iter().any(|l| l.contains("[3, 5, 8]")));
}

#[test]
fn farewell_and_issue_address() {
    assert_eq!(issues_url("https://github.com/a/b/"), "https://github.com/a/b/issues");
    assert_eq!(issues_url("https://example.org/a"), "https://example.org/a");
    assert_eq!(issues_url("//"), "https://xSAR.com.au");
    let done = exit_summary_lines(false);
    assert_eq!(done[1], "✅ Cache maintenance complete!");
    let stopped = exit_summary_lines(true);
    assert_eq!(stopped[1], "⏹  Cache maintenance stopped by user (graceful).");
    assert_eq!(done.len() + 1, stopped.len());
}

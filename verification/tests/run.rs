use warm_drive_cache::cache_ops::CacheNode;
use warm_drive_cache::capacity::{PairSurvey, Space};
use warm_drive_cache::config::{Config, IgnoreOptions, MountWait, PathPair, WalkOptions};
use warm_drive_cache::native::{Component, NativePath};
use warm_drive_cache::report::Line;
use warm_drive_cache::run::{
    apply_overrides, begin_check, end_check, CheckStart, Run, RunAction, RunEvent, RunTask,
    WarmReport,
};
use warm_drive_cache::startup::{CliOverrides, MOUNT_MODIFICATION_WARNING};

fn config(caches: &[&str]) -> Config {
    Config {
        version: 1,
        paths: caches
            .iter()
            .enumerate()
            .map(|(i, c)| PathPair {
                sync: format!("/s{i}"),
                cache: c.to_string(),
                service: if i == 0 { Some("a.service".to_string()) } else { None },
            })
            .collect(),
        walk: WalkOptions::default(),
        ignore: IgnoreOptions::default(),
        mount_wait: MountWait::default(),
    }
}

fn task(dry_run: bool, log: bool) -> RunTask {
    RunTask { dry_run, verbose: false, log, overrides: CliOverrides::default() }
}

fn text(line: &Line) -> &str {
    match line {
        Line::Out(s) | Line::Alert(s) => s,
    }
}

fn texts(lines: &[Line]) -> Vec<&str> {
    lines.iter().map(text).collect()
}

fn report() -> WarmReport {
    WarmReport {
        dirs: 2,
        files: 3,
        byte_reads: 1,
        metadata_only: 1,
        errors: 1,
        cancelled: false,
        warnings: vec!["verify x: why".to_string()],
        after: 1024,
    }
}

/// Answers every request as a run without trouble would, up to the exit; returns what was
/// asked for and everything that was printed.
fn drive(run: &mut Run, cfg: Config) -> (Vec<RunAction>, Vec<Line>) {
    let mut cfg = Some(cfg);
    let mut asked: Vec<RunAction> = Vec::new();
    let (mut printed, mut action) = run.step(RunEvent::Begin, false);
    loop {
        asked.push(action);
        let event = match action {
            RunAction::LoadConfig => RunEvent::Loaded(Ok(cfg.take().unwrap())),
            RunAction::AcquireLock(i) => RunEvent::Locked(Ok(format!("/lock{i}"))),
            RunAction::CreateLog => RunEvent::LogReady(Ok("/tmp/log.csv".to_string())),
            RunAction::Preflight(_) => RunEvent::Preflighted(true),
            RunAction::Measure(_) => RunEvent::Measured { before: 65536, remote: None },
            RunAction::SimulateDelete(_) => RunEvent::Simulated(65536),
            RunAction::WaitClean(_) => RunEvent::Clean(Ok(())),
            RunAction::Delete(_) => RunEvent::Deleted { deleted: 65536, after: 0 },
            RunAction::ListenForQuit => RunEvent::Listening(true),
            RunAction::Survey(_) => RunEvent::Surveyed(Vec::new()),
            RunAction::Warm(_) => RunEvent::Warmed(report()),
            RunAction::Exit(_) => break,
            _ => RunEvent::Done,
        };
        let (lines, next) = run.step(event, false);
        printed.extend(lines);
        action = next;
    }
    (asked, printed)
}

#[test]
fn a_run_takes_its_pairs_in_order() {
    let mut run = Run::new(task(false, true));
    let (asked, printed) = drive(&mut run, config(&["/c", "/d", "/c"]));
    assert_eq!(
        asked,
        [
            RunAction::LoadConfig,
            RunAction::InstallSigint,
            RunAction::AcquireLock(0),
            RunAction::AcquireLock(1),
            RunAction::CreateLog,
            RunAction::Preflight(0),
            RunAction::Measure(0),
            RunAction::ListenForQuit,
            RunAction::WaitClean(0),
            RunAction::Delete(0),
            RunAction::Survey(0),
            RunAction::Warm(0),
            RunAction::Preflight(1),
            RunAction::Measure(1),
            RunAction::WaitClean(1),
            RunAction::Delete(1),
            RunAction::Warm(1),
            RunAction::Preflight(2),
            RunAction::Measure(2),
            RunAction::WaitClean(2),
            RunAction::Delete(2),
            RunAction::Warm(2),
            RunAction::Close,
            RunAction::ReleaseLocks,
            RunAction::Exit(true),
        ]
    );
    let shown = texts(&printed);
    for wanted in [
        "   CSV log: /tmp/log.csv",
        "📂 Sync dir (traverse/warm only): /s0",
        "   Cache dir (size/delete only): /c",
        "   Checksum verification: enabled",
        "   systemd unit: a.service",
        "   Before size (cache): 64KiB (65536 Bytes)",
        "   Checking rclone vfsMeta entries for unsaved files...",
        "   ✓ No Dirty=true rclone metadata entries remain.",
        "   After deletion size (cache): 0 Bytes (deleted 64KiB (65536 Bytes))",
        "   Walking sync dir (max_threads=8, min_size=0 Bytes, max_size=all files (0: File contents read for every size))...",
        "   ⚠️  verify x: why",
        "   Size after warming (cache): 1KiB (1024 Bytes)",
        "   Directories processed: 2",
        "   Files processed: 3",
        "   File contents read: 1",
        "   Metadata-only: 1",
        "   Errors: 1",
        "✅ Cache maintenance complete!",
    ] {
        assert!(shown.contains(&wanted), "{wanted}");
    }
    assert_eq!(shown.last(), Some(&"CSV log written to: /tmp/log.csv"));
}

#[test]
fn a_dry_run_deletes_and_warms_nothing() {
    let mut run = Run::new(task(true, false));
    let (asked, printed) = drive(&mut run, config(&["/c", "/d"]));
    assert!(!asked.iter().any(|a| {
        matches!(a, RunAction::Delete(_) | RunAction::Survey(_) | RunAction::Warm(_))
    }));
    assert!(asked.contains(&RunAction::AcquireLock(0)));
    assert!(asked.contains(&RunAction::SimulateDelete(1)));
    assert!(texts(&printed).contains(&"   After size (simulated, cache): 0 Bytes"));
    assert_eq!(asked.last(), Some(&RunAction::Exit(true)));
}

/// A run that has come to the request for the given action on its first pair.
fn run_at(wanted: RunAction) -> Run {
    let mut run = Run::new(task(false, true));
    let mut cfg = Some(config(&["/c", "/d"]));
    let (_, mut action) = run.step(RunEvent::Begin, false);
    while action != wanted {
        let event = match action {
            RunAction::LoadConfig => RunEvent::Loaded(Ok(cfg.take().unwrap())),
            RunAction::AcquireLock(_) => RunEvent::Locked(Ok("/l".to_string())),
            RunAction::CreateLog => RunEvent::LogReady(Ok("/log".to_string())),
            RunAction::Preflight(_) => RunEvent::Preflighted(true),
            RunAction::Measure(_) => RunEvent::Measured { before: 0, remote: None },
            RunAction::SimulateDelete(_) => RunEvent::Simulated(0),
            RunAction::WaitClean(_) => RunEvent::Clean(Ok(())),
            RunAction::Delete(_) => RunEvent::Deleted { deleted: 0, after: 0 },
            RunAction::ListenForQuit => RunEvent::Listening(true),
            RunAction::Survey(_) => RunEvent::Surveyed(Vec::new()),
            RunAction::Warm(_) => RunEvent::Warmed(report()),
            RunAction::Exit(_) => panic!("never asked for {wanted:?}"),
            _ => RunEvent::Done,
        };
        action = run.step(event, false).1;
    }
    run
}

#[test]
fn dirty_metadata_ends_the_run_with_the_cache_intact() {
    let mut run = run_at(RunAction::WaitClean(0));
    let (lines, action) = run.step(RunEvent::Clean(Err("stays dirty".to_string())), false);
    assert_eq!(lines, [Line::Alert("❌ Cache purge cancelled: stays dirty".to_string())]);
    assert_eq!(action, RunAction::Close);
    assert_eq!(run.step(RunEvent::Done, false).1, RunAction::ReleaseLocks);
    assert_eq!(run.step(RunEvent::Done, false).1, RunAction::Exit(false));
}

#[test]
fn a_refused_lock_ends_the_run() {
    let mut run = run_at(RunAction::AcquireLock(1));
    let (lines, action) = run.step(RunEvent::Locked(Err("declined".to_string())), false);
    assert_eq!(text(&lines[0]), "❌ Concurrency protection: declined");
    assert!(texts(&lines).contains(&"⏹  Cache maintenance stopped by user (graceful)."));
    assert_eq!(action, RunAction::ReleaseLocks);
    assert_eq!(run.step(RunEvent::Done, false).1, RunAction::Exit(false));
}

#[test]
fn a_log_that_cannot_be_written_ends_the_run() {
    let mut run = run_at(RunAction::CreateLog);
    let (lines, action) = run.step(RunEvent::LogReady(Err("full".to_string())), false);
    assert_eq!(text(&lines[0]), "❌ warm-drive-cache log error: full");
    assert_eq!(action, RunAction::ReleaseLocks);
    assert_eq!(run.step(RunEvent::Done, false).1, RunAction::Exit(false));
}

#[test]
fn a_stop_skips_the_remaining_pairs() {
    let mut run = run_at(RunAction::Warm(0));
    let (lines, action) = run.step(RunEvent::Warmed(report()), true);
    assert_eq!(action, RunAction::Close);
    assert_eq!(
        lines.last().map(text),
        Some("⏹  Shutdown requested — skipping remaining path pairs.")
    );
    let (lines, action) = run.step(RunEvent::Done, true);
    assert!(texts(&lines).contains(&"⏹  Cache maintenance stopped by user (graceful)."));
    assert_eq!(action, RunAction::ReleaseLocks);
    assert_eq!(run.step(RunEvent::Done, true).1, RunAction::Exit(true));
}

#[test]
fn a_failed_preflight_skips_the_pair() {
    let mut run = run_at(RunAction::Preflight(0));
    assert_eq!(run.step(RunEvent::Preflighted(false), false).1, RunAction::Preflight(1));
    assert_eq!(run.step(RunEvent::Preflighted(false), false).1, RunAction::Close);
}

#[test]
fn a_run_needs_a_configuration() {
    let start = || {
        let mut run = Run::new(task(false, false));
        run.step(RunEvent::Begin, false);
        run
    };
    let (lines, action) = start().step(RunEvent::Loaded(Err("broken".to_string())), false);
    assert_eq!(text(&lines[0]), "❌ warm-drive-cache configuration error: broken");
    assert_eq!(action, RunAction::Exit(false));
    let (lines, action) = start().step(RunEvent::Loaded(Ok(config(&[]))), false);
    assert_eq!(text(&lines[0]), "❌ No paths configured.");
    assert_eq!(action, RunAction::Exit(false));
    let mut bad = config(&["/c"]);
    bad.walk.max_threads = 0;
    let (lines, action) = start().step(RunEvent::Loaded(Ok(bad)), false);
    assert_eq!(
        texts(&lines),
        ["❌ effective configuration error: walk.max_threads must be between 1 and 64 (got 0)"]
    );
    assert_eq!(action, RunAction::Exit(false));
}

#[test]
fn overrides_replace_configured_values() {
    let mut cfg = config(&["/c"]);
    let o = CliOverrides {
        threads: Some(4),
        size: Some(1024),
        checksum: Some(false),
        width: Some(120),
    };
    assert_eq!(apply_overrides(&mut cfg, o), Ok(()));
    assert_eq!(
        cfg.walk,
        WalkOptions {
            checksum: false,
            max_depth: None,
            min_file_size_bytes: 0,
            max_file_size_bytes: 1024,
            max_threads: 4,
            width: 120,
        }
    );
    assert_eq!(apply_overrides(&mut cfg, CliOverrides::default()), Ok(()));
    assert_eq!(cfg.walk.max_threads, 4);
}

#[test]
fn json_validation_ends_with_the_warning() {
    let overrides = CliOverrides::default();
    let (_, start) = begin_check(Ok(config(&["/c"])), overrides);
    assert!(matches!(start, CheckStart::Report(_)));
    let mut bad = config(&["/c"]);
    bad.walk.max_file_size_bytes = -9;
    for loaded in [Err("broken".to_string()), Ok(config(&[])), Ok(bad)] {
        let (lines, start) = begin_check(loaded, overrides);
        assert!(matches!(start, CheckStart::Stop));
        assert_eq!(lines.last().map(text), Some(MOUNT_MODIFICATION_WARNING));
    }
    assert_eq!(end_check().last().map(text), Some(MOUNT_MODIFICATION_WARNING));
}

fn surveyed(device: Option<u64>, used: u64, sizes: &[u64], unreadable: u64) -> PairSurvey {
    PairSurvey {
        space: device.map(|device| Space { device, total: 1000, used, available: 1000 - used }),
        sizes: sizes.to_vec(),
        unreadable,
    }
}

#[test]
fn a_survey_warns_and_the_pair_is_warmed_all_the_same() {
    let mut run = run_at(RunAction::Survey(0));
    let list = vec![surveyed(Some(7), 800, &[60, 40], 0), surveyed(Some(7), 800, &[1], 2)];
    let (lines, action) = run.step(RunEvent::Surveyed(list), false);
    assert_eq!(action, RunAction::Warm(0));
    assert_eq!(
        texts(&lines)[..3],
        [
            "   ⚠️  Projected use of the file system of /c: 901 Bytes of 1000 Bytes (above 90%)",
            "   ⚠️  Projected use may be higher: entries that could not be measured below /s1: 2",
            "   Walking sync dir (max_threads=8, min_size=0 Bytes, max_size=all files (0: File contents read for every size))...",
        ]
    );
    let (_, action) = run.step(RunEvent::Warmed(report()), false);
    assert_eq!(action, RunAction::Preflight(1));
}

#[test]
fn file_systems_are_projected_apart() {
    let mut run = run_at(RunAction::Survey(0));
    let list = vec![surveyed(Some(7), 800, &[60, 40], 0), surveyed(Some(8), 899, &[1], 0)];
    let (lines, _) = run.step(RunEvent::Surveyed(list), false);
    assert!(texts(&lines)[0].starts_with("   Walking sync dir"), "{lines:?}");
    let mut run = run_at(RunAction::Survey(0));
    let list = vec![surveyed(None, 0, &[60], 0)];
    let (lines, _) = run.step(RunEvent::Surveyed(list), false);
    assert_eq!(
        texts(&lines)[0],
        "   ⚠️  Projected use is not known: cannot measure the file system of /c"
    );
}

#[test]
fn files_of_which_only_metadata_is_fetched_add_nothing() {
    let mut run = Run::new(task(false, false));
    let mut cfg = config(&["/c"]);
    cfg.walk.max_file_size_bytes = -1;
    run.step(RunEvent::Begin, false);
    run.step(RunEvent::Loaded(Ok(cfg)), false);
    run.step(RunEvent::Done, false);
    run.step(RunEvent::Locked(Ok("/l".to_string())), false);
    run.step(RunEvent::Preflighted(true), false);
    run.step(RunEvent::Measured { before: 0, remote: None }, false);
    run.step(RunEvent::Listening(true), false);
    run.step(RunEvent::Clean(Ok(())), false);
    let (_, action) = run.step(RunEvent::Deleted { deleted: 0, after: 0 }, false);
    assert_eq!(action, RunAction::Survey(0));
    let list = vec![surveyed(Some(7), 900, &[500], 0)];
    let (lines, _) = run.step(RunEvent::Surveyed(list), false);
    assert!(texts(&lines)[0].starts_with("   Walking sync dir"), "{lines:?}");
}

#[test]
fn a_listener_that_was_not_installed_is_tried_again() {
    let mut run = run_at(RunAction::ListenForQuit);
    assert_eq!(run.step(RunEvent::Listening(false), false).1, RunAction::WaitClean(0));
    run.step(RunEvent::Clean(Ok(())), false);
    run.step(RunEvent::Deleted { deleted: 0, after: 0 }, false);
    run.step(RunEvent::Surveyed(Vec::new()), false);
    run.step(RunEvent::Warmed(report()), false);
    run.step(RunEvent::Preflighted(true), false);
    let measured = RunEvent::Measured { before: 0, remote: None };
    assert_eq!(run.step(measured, false).1, RunAction::ListenForQuit);
}

fn named(names: &[&str]) -> NativePath {
    let mut parts = vec![Component::Root];
    parts.extend(names.iter().map(|n| Component::Normal(n.as_bytes().to_vec())));
    NativePath { parts }
}

fn remote_dir(top: &str, remotes: &[(&str, u64)]) -> CacheNode {
    let entries = remotes
        .iter()
        .map(|(name, len)| CacheNode::Folder {
            name: name.as_bytes().to_vec(),
            entries: vec![CacheNode::File { name: b"f".to_vec(), len: *len }],
        })
        .collect();
    CacheNode::Folder { name: top.as_bytes().to_vec(), entries }
}

#[test]
fn the_remote_of_a_pair_decides_what_is_scanned_and_what_is_emptied() {
    let nodes = vec![
        remote_dir("vfs", &[("gdrive", 100), ("other", 7)]),
        remote_dir("vfsMeta", &[("gdrive", 10), ("other", 3)]),
    ];
    let cache = named(&["c"]);
    let mut run = run_at(RunAction::Measure(0));
    run.step(RunEvent::Measured { before: 120, remote: Some("gdrive".to_string()) }, false);
    run.step(RunEvent::Listening(true), false);
    assert_eq!(run.scan_dir(&cache), named(&["c", "vfsMeta", "gdrive"]));
    assert_eq!(run.step(RunEvent::Clean(Ok(())), false).1, RunAction::Delete(0));
    let plan = run.purge_plan(&nodes).unwrap();
    assert_eq!(plan.planned, 110);
    assert!(plan.removals.iter().all(|r| r.path[1] == b"gdrive"));
    let unknown = run_at(RunAction::Delete(0));
    assert_eq!(unknown.scan_dir(&cache), named(&["c", "vfsMeta"]));
    assert_eq!(unknown.purge_plan(&nodes).unwrap().planned, 120);
}

#[test]
fn a_dry_run_reports_what_would_stay() {
    let nodes = vec![remote_dir("vfs", &[("gdrive", 100), ("other", 20)])];
    let mut run = Run::new(task(true, false));
    run.step(RunEvent::Begin, false);
    run.step(RunEvent::Loaded(Ok(config(&["/c"]))), false);
    run.step(RunEvent::Done, false);
    run.step(RunEvent::Locked(Ok("/l".to_string())), false);
    run.step(RunEvent::Preflighted(true), false);
    let measured = RunEvent::Measured { before: 120, remote: Some("gdrive".to_string()) };
    assert_eq!(run.step(measured, false).1, RunAction::SimulateDelete(0));
    let plan = run.purge_plan(&nodes).unwrap();
    assert!(plan.removals.is_empty());
    let (lines, action) = run.step(RunEvent::Simulated(plan.planned), false);
    assert_eq!(texts(&lines), ["   After size (simulated, cache): 20 Bytes"]);
    assert_eq!(action, RunAction::Close);
}

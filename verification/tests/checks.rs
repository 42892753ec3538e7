use warm_drive_cache::cache_check::{
    check_cache_permissions, check_path_pair, check_sync_readable, check_unit_file_permissions,
    effective_cache, ensure_service_ready, extract_cache_dir_from_unit, is_unit_active,
    is_unit_enabled, parse_cache_dir_flag, permission_message, probe_name, prompt_yes_no,
    report_entry, resolve_unit_scope, run_config_check, says_loaded, service_of, systemctl_mut,
    systemctl_sudo, unit_file_path, CacheProbe, CacheState, CommandOutput, EntryFacts, FaultKind,
    IoFault, MutStep, PairAction, PairEvent, PairPhase, ReadyAction, ReadyEvent, ReadyPhase,
    SyncLook, SystemdScope, UnitLook, PROBE_CONTENT,
};
use warm_drive_cache::config::{Config, IgnoreOptions, MountWait, PathPair, WalkOptions};
use warm_drive_cache::mount_wait::{
    sleep_capped, sleep_capped_with_budget, wait_for_mount_content, SettleAction, SettlePhase,
    INITIAL_WAIT_SECS, MAX_WAIT_SECS,
};
use warm_drive_cache::report::Line;

fn fault(kind: FaultKind, text: &str) -> IoFault {
    IoFault { kind, text: text.to_string() }
}

fn text(line: &Line) -> &str {
    match line {
        Line::Out(s) | Line::Alert(s) => s,
    }
}

fn output(success: bool, stdout: &str, stderr: &str) -> CommandOutput {
    CommandOutput {
        success,
        code: Some(if success { 0 } else { 1 }),
        stdout: stdout.to_string(),
        stderr: stderr.to_string(),
    }
}

fn pair(service: Option<&str>) -> PathPair {
    PathPair {
        sync: "/s".to_string(),
        cache: "/c".to_string(),
        service: service.map(str::to_string),
    }
}

#[test]
fn check_sync_readable_on_tempdir() {
    assert!(check_sync_readable("/tmp/x", &SyncLook::Listed).is_ok());
}

#[test]
fn check_cache_permissions_probe_cycle() {
    let name = probe_name(42);
    let probe = CacheProbe::ReadBack { content: PROBE_CONTENT.to_string(), deleted: Ok(()) };
    let msg = check_cache_permissions("/tmp/x", &format!("/tmp/x/{name}"), &probe).expect("probe");
    assert!(msg.contains("probe OK"));
    assert!(name.contains("42"));
}

#[test]
fn check_sync_missing_errors() {
    let look = SyncLook::Unstatted(fault(FaultKind::NotFound, "No such file or directory"));
    let err = check_sync_readable("/no/such/sync/path/wdc-test", &look).unwrap_err();
    assert!(err.contains("not found") || err.contains("sync"));
}

#[test]
fn parse_cache_dir_flag_variants() {
    assert_eq!(
        parse_cache_dir_flag("ExecStart=/usr/bin/rclone mount --cache-dir /var/cache/r rem: /mnt"),
        Some("/var/cache/r".into())
    );
    assert_eq!(
        parse_cache_dir_flag("foo --cache-dir=/home/user/.rclone_cache bar"),
        Some("/home/user/.rclone_cache".into())
    );
    assert!(parse_cache_dir_flag("no flag here").is_none());
}

#[test]
fn probes_fail_with_a_reason() {
    let denied = || fault(FaultKind::PermissionDenied, "Permission denied (os error 13)");
    assert!(check_sync_readable("/s", &SyncLook::NotADirectory).is_err());
    assert!(check_sync_readable("/s", &SyncLook::Unlisted(denied())).is_err());
    for probe in [
        CacheProbe::Unstatted(denied()),
        CacheProbe::NotADirectory,
        CacheProbe::NotCreated(denied()),
        CacheProbe::NotWritten(denied()),
        CacheProbe::NotOpened(denied()),
        CacheProbe::NotRead(denied()),
        CacheProbe::ReadBack { content: "other".to_string(), deleted: Ok(()) },
        CacheProbe::ReadBack { content: PROBE_CONTENT.to_string(), deleted: Err(denied()) },
    ] {
        assert!(check_cache_permissions("/c", "/c/p", &probe).is_err(), "{probe:?}");
    }
    let kinds = [
        FaultKind::PermissionDenied,
        FaultKind::NotFound,
        FaultKind::NotADirectory,
        FaultKind::Other,
    ];
    let mut messages: Vec<String> = Vec::new();
    for kind in kinds {
        messages.push(permission_message("cache", "/c", &fault(kind, "why"), "probe"));
    }
    messages.dedup();
    assert_eq!(messages.len(), 4);
}

#[test]
fn unit_files_are_looked_at() {
    let scope = SystemdScope::User;
    let reply = Ok(output(true, "/etc/x.service\n", ""));
    assert_eq!(unit_file_path("x", scope, reply).unwrap(), "/etc/x.service");
    assert!(unit_file_path("x", scope, Ok(output(true, "\n", ""))).is_err());
    assert!(unit_file_path("x", scope, Err("no systemctl".to_string())).is_err());
    assert!(check_unit_file_permissions("/etc/x.service", scope, &UnitLook::Readable).is_ok());
    assert!(check_unit_file_permissions("/etc/x.service", scope, &UnitLook::Missing).is_err());
}

#[test]
fn scopes_are_found() {
    assert!(says_loaded(&Ok(output(true, "loaded\n", ""))));
    assert!(!says_loaded(&Ok(output(true, "not-found\n", ""))));
    assert!(!says_loaded(&Err("gone".to_string())));
    let scope = |s, u, sa, ua| resolve_unit_scope("x.service", s, u, sa, ua);
    assert_eq!(scope(true, false, false, false), Ok(SystemdScope::System));
    assert_eq!(scope(false, true, false, false), Ok(SystemdScope::User));
    assert_eq!(scope(true, true, false, true), Ok(SystemdScope::User));
    assert_eq!(scope(true, true, false, false), Ok(SystemdScope::System));
    assert_eq!(scope(true, true, true, true), Ok(SystemdScope::System));
    assert!(scope(false, false, false, false).unwrap_err().contains("x.service"));
    assert_eq!(SystemdScope::System.label(), "system");
    assert_eq!(SystemdScope::User.flag(), Some("--user"));
    assert_eq!(SystemdScope::System.flag(), None);
}

#[test]
fn unit_states_are_read() {
    assert_eq!(is_unit_active(SystemdScope::User, Ok(true)), Ok(true));
    assert!(is_unit_active(SystemdScope::User, Err("gone".to_string()))
        .unwrap_err()
        .contains("gone"));
    let enabled = |out: &str| is_unit_enabled(SystemdScope::System, Ok(output(true, out, "")));
    assert_eq!(enabled("enabled\n"), Ok(true));
    let disabled = Ok(output(false, "disabled\n", ""));
    assert_eq!(is_unit_enabled(SystemdScope::System, disabled), Ok(false));
    let fixed = Ok(output(false, "static\n", ""));
    assert_eq!(is_unit_enabled(SystemdScope::System, fixed), Ok(true));
}

#[test]
fn system_units_are_retried_with_sudo() {
    let args = vec!["start".to_string(), "x.service".to_string()];
    let failed = || Ok(output(false, "", "Access denied"));
    assert!(matches!(
        systemctl_mut(SystemdScope::System, &args, &Ok(output(true, "", ""))),
        MutStep::Succeeded
    ));
    assert!(matches!(systemctl_mut(SystemdScope::User, &args, &failed()), MutStep::Failed(_)));
    assert!(matches!(systemctl_mut(SystemdScope::System, &args, &failed()), MutStep::Elevate(_)));
    let first = output(false, "", "Access denied");
    assert_eq!(systemctl_sudo(&args, &first, &Ok(output(true, "", ""))), Ok(()));
    assert!(systemctl_sudo(&args, &first, &failed()).is_err());
}

#[test]
fn only_an_empty_answer_or_yes_agrees() {
    for (answer, yes) in
        [("\n", true), ("y\n", true), ("YES\n", true), ("n\n", false), ("maybe\n", false)]
    {
        assert_eq!(prompt_yes_no(Some(answer)), yes, "{answer:?}");
    }
    assert!(!prompt_yes_no(None));
}

#[test]
fn cache_directories_are_read_from_units() {
    let reply = Ok(output(true, "ExecStart=rclone mount a: /m --cache-dir=/c\n", ""));
    assert_eq!(
        extract_cache_dir_from_unit("x", SystemdScope::User, reply).unwrap(),
        "/c"
    );
    let without = Ok(output(true, "ExecStart=rclone mount a: /m\n", ""));
    assert!(extract_cache_dir_from_unit("x", SystemdScope::User, without).is_err());
    let failed = Ok(output(false, "", "No files found"));
    assert!(extract_cache_dir_from_unit("x", SystemdScope::User, failed).is_err());
}

#[test]
fn an_inactive_unit_is_started_on_yes_only() {
    let step = |dry_run, phase, event| {
        ensure_service_ready("x", SystemdScope::User, dry_run, false, phase, event)
    };
    let active = step(false, ReadyPhase::Active, ReadyEvent::Active(Ok(true)));
    assert_eq!(active.result, Some(Ok(true)));
    let dry = step(true, ReadyPhase::Active, ReadyEvent::Active(Ok(false)));
    assert_eq!(dry.result, Some(Ok(false)));
    let asked = step(false, ReadyPhase::Active, ReadyEvent::Active(Ok(false)));
    assert_eq!(asked.action, ReadyAction::Prompt);
    assert_eq!(asked.prompt.as_deref(), Some("   Start user unit x now? [Y/n] "));
    let declined = step(false, asked.phase, ReadyEvent::Answered(false));
    assert_eq!(declined.result, Some(Ok(false)));
    let reload = step(false, asked.phase, ReadyEvent::Answered(true));
    assert_eq!(reload.action, ReadyAction::RunReload);
    let enable = step(false, reload.phase, ReadyEvent::Ran(Ok(())));
    assert_eq!(enable.action, ReadyAction::RunEnable);
    let start = step(false, enable.phase, ReadyEvent::Ran(Ok(())));
    assert_eq!(start.action, ReadyAction::RunStart);
    let query = step(false, start.phase, ReadyEvent::Ran(Ok(())));
    assert_eq!(query.action, ReadyAction::QueryEnabled);
    let last = step(false, query.phase, ReadyEvent::Enabled(Ok(true)));
    assert_eq!(last.action, ReadyAction::QueryActive);
    let up = step(false, last.phase, ReadyEvent::Active(Ok(true)));
    assert_eq!(up.result, Some(Ok(true)));
    let down = step(false, last.phase, ReadyEvent::Active(Ok(false)));
    assert_eq!(
        down.result,
        Some(Err("after enable/start, x is enabled=true active=false (check journalctl --user -u x; system units may need sudo / polkit)".to_string()))
    );
}

#[test]
fn a_pair_passes_its_checks_in_order() {
    let p = pair(Some(" x.service "));
    assert_eq!(service_of(&p).as_deref(), Some("x.service"));
    let (lines, phase, action) = check_path_pair(&p, true, PairPhase::Begin, PairEvent::Begin);
    assert_eq!(text(&lines[1]), "🔎 Pre-flight checks");
    assert_eq!(action, PairAction::ResolveScope);
    let (lines, phase, action) =
        check_path_pair(&p, true, phase, PairEvent::Scope(Ok(SystemdScope::User)));
    assert_eq!(text(&lines[0]), "   unit:  x.service (systemd user)");
    assert_eq!(action, PairAction::EnsureService(SystemdScope::User));
    let (_, phase, action) = check_path_pair(&p, true, phase, PairEvent::Service(Ok(true)));
    assert_eq!(action, PairAction::Settle);
    let (_, phase, action) = check_path_pair(&p, true, phase, PairEvent::Settled);
    assert_eq!(action, PairAction::CheckSync);
    let fine = || PairEvent::Checked(Ok("fine".to_string()));
    let (lines, phase, action) = check_path_pair(&p, true, phase, fine());
    assert_eq!(text(&lines[0]), "   ✓ sync access: fine");
    assert_eq!(action, PairAction::ProbeCache);
    let (_, phase, action) = check_path_pair(&p, true, phase, fine());
    assert_eq!(action, PairAction::CheckUnitFile);
    let (_, phase, action) = check_path_pair(&p, true, phase, fine());
    assert_eq!(action, PairAction::Finish(true));
    assert_eq!(phase, PairPhase::Done { go: true });
}

#[test]
fn a_pair_without_service_goes_straight_to_its_mount() {
    let (lines, phase, action) =
        check_path_pair(&pair(None), false, PairPhase::Begin, PairEvent::Begin);
    assert!(lines.is_empty());
    assert_eq!((phase, action), (PairPhase::Settling, PairAction::Settle));
}

#[test]
fn failures_skip_the_pair() {
    let p = pair(Some("x.service"));
    let refused = |phase, event| {
        let (lines, phase, action) = check_path_pair(&p, false, phase, event);
        assert_eq!(phase, PairPhase::Done { go: false });
        assert_eq!(action, PairAction::Finish(false));
        lines
    };
    let why = || "why".to_string();
    let lines = refused(PairPhase::Scope, PairEvent::Scope(Err(why())));
    assert_eq!(text(&lines[0]), "   ⚠️  systemd: why");
    let lines = refused(PairPhase::Service, PairEvent::Service(Ok(false)));
    assert_eq!(lines.len(), 3);
    let lines = refused(PairPhase::Service, PairEvent::Service(Err(why())));
    assert_eq!(text(&lines[0]), "   ⚠️  systemd check failed: why");
    refused(PairPhase::UnitFile { ok: true }, PairEvent::Checked(Err(why())));
    refused(PairPhase::UnitFile { ok: false }, PairEvent::Checked(Ok(why())));
    let (lines, phase, _) =
        check_path_pair(&p, false, PairPhase::Sync, PairEvent::Checked(Err(why())));
    assert_eq!(text(&lines[0]), "   ✗ sync access: why");
    assert_eq!(phase, PairPhase::Cache { ok: false });
}

fn facts(ok: bool) -> EntryFacts {
    EntryFacts {
        sync_is_dir: true,
        sync_access: Some(Ok("readable".to_string())),
        unit_cache: Some(Ok("/unit".to_string())),
        cache: CacheState::Directory(65536),
        cache_access: Some(if ok { Ok("probe OK".to_string()) } else { Err("denied".to_string()) }),
        unit: Some(Ok((SystemdScope::System, Ok(true)))),
    }
}

#[test]
fn the_report_covers_every_entry() {
    let cfg = Config {
        version: 1,
        paths: vec![pair(Some("x.service")), pair(None)],
        walk: WalkOptions::default(),
        ignore: IgnoreOptions::default(),
        mount_wait: MountWait::default(),
    };
    assert_eq!(effective_cache(&cfg.paths[0], &Some(Ok("/unit".to_string()))), "/unit");
    assert_eq!(effective_cache(&cfg.paths[0], &None), "/c");
    let (lines, ok) = run_config_check(&cfg, &vec![facts(true), facts(true)]);
    assert!(ok);
    let shown: Vec<&str> = lines.iter().map(text).collect();
    for wanted in [
        "  Entry 0",
        "  Entry 1",
        "    x.service",
        "    (none — no paths[].service in config)",
        "    from unit --cache-dir:  /unit",
        "    current size:           64KiB (65536 Bytes)",
        "  systemd:  active (system)",
    ] {
        assert!(shown.contains(&wanted), "{wanted}");
    }
    let (_, ok) = run_config_check(&cfg, &vec![facts(true), facts(false)]);
    assert!(!ok);
    let unchecked = EntryFacts { sync_access: None, ..facts(true) };
    assert!(!report_entry(0, &cfg.paths[0], &unchecked).1);
    let unprobed = EntryFacts {
        unit_cache: Some(Ok("/c".to_string())),
        cache_access: None,
        ..facts(true)
    };
    assert!(!report_entry(0, &cfg.paths[0], &unprobed).1);
    let elsewhere = EntryFacts { cache_access: None, ..facts(true) };
    assert!(report_entry(0, &cfg.paths[0], &elsewhere).1);
    let not_yet = EntryFacts {
        unit_cache: None,
        cache: CacheState::Missing,
        cache_access: None,
        ..facts(true)
    };
    assert!(report_entry(0, &cfg.paths[0], &not_yet).1);
    let missing = EntryFacts { sync_is_dir: false, sync_access: None, ..facts(true) };
    let (lines, ok) = report_entry(0, &cfg.paths[0], &missing);
    assert!(!ok);
    assert!(lines.iter().any(|l| text(l) == "    status: missing or not a directory"));
}

#[test]
fn sleep_capped_budget_exhausted_immediate_false() {
    assert_eq!(sleep_capped(MAX_WAIT_SECS + 5, 10), None);
}

#[test]
fn sleep_capped_within_budget_zero_request_true() {
    assert!(sleep_capped(0, 0).is_some());
}

#[test]
fn pauses_fit_the_budget() {
    assert_eq!(INITIAL_WAIT_SECS, 3);
    assert_eq!(sleep_capped_with_budget(10, 8, 30), Some(8));
    assert_eq!(sleep_capped_with_budget(25, 8, 30), Some(5));
    assert_eq!(sleep_capped_with_budget(30, 8, 30), None);
}

#[test]
fn a_mount_settles_when_it_has_content() {
    let wait = MountWait::default();
    let (_, phase, action) = wait_for_mount_content(&wait, false, SettlePhase::Start, 0, false);
    assert_eq!(action, SettleAction::Sleep(3));
    let (_, phase, action) = wait_for_mount_content(&wait, false, phase, 3, true);
    assert_eq!(phase, SettlePhase::Done(true));
    assert_eq!(action, SettleAction::Finish(true));
}

#[test]
fn a_mount_that_stays_empty_is_given_up() {
    let wait = MountWait::default();
    let mut phase = SettlePhase::Start;
    let mut elapsed: u64 = 0;
    let mut slept: Vec<u64> = Vec::new();
    let mut steps = 0;
    loop {
        let (_, next, action) = wait_for_mount_content(&wait, false, phase, elapsed, false);
        phase = next;
        steps += 1;
        assert!(steps < 20);
        match action {
            SettleAction::Sleep(n) => {
                slept.push(n);
                elapsed += n;
            }
            SettleAction::Finish(content) => {
                assert!(!content);
                break;
            }
            SettleAction::ReadClock | SettleAction::Look => {}
        }
    }
    assert_eq!(slept, [3, 3, 5, 8]);
}

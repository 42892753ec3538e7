use warm_drive_cache::cache_check::{
    check_cache_permissions, check_sync_readable, check_unit_file_permissions,
    extract_cache_dir_from_unit, is_unit_active, is_unit_enabled, parse_cache_dir_flag,
    permission_message, probe_name, resolve_unit_scope, run_config_check, systemctl_mut,
    systemctl_sudo, unit_file_path, CacheProbe, CacheState, CommandOutput, EntryFacts, FaultKind,
    IoFault, MutStep, SyncLook, SystemdScope, UnitLook,
};
use warm_drive_cache::cache_lock::{release_warning, CacheLock, CreateFault, LockEvent};
use warm_drive_cache::cache_ops::format_bytes_compact;
use warm_drive_cache::cleanup::exit_summary_lines;
use warm_drive_cache::config::{Config, IgnoreOptions, MountWait, PathPair, WalkOptions};
use warm_drive_cache::mount_wait::{wait_for_mount_content, SettleAction, SettlePhase};
use warm_drive_cache::native::{Component, NativePath};
use warm_drive_cache::report::Line;
use warm_drive_cache::startup::{banner_lines, information_lines, loaded_config_lines};
use warm_drive_cache::status::{
    box_table_lines, format_progress_bar, format_thread_slot_line, shorten_path_for_display,
    spinner_glyph, thread_table_header, truncate_display, ThreadSlotView, ThreadWorkMode,
    WalkStatus,
};

fn text(line: &Line) -> &str {
    match line {
        Line::Out(s) | Line::Alert(s) => s,
    }
}

fn out(s: &str) -> Line {
    Line::Out(s.to_string())
}

fn config() -> Config {
    Config {
        version: 1,
        paths: vec![
            PathPair {
                sync: "/s".to_string(),
                cache: "/c".to_string(),
                service: Some("a.service".to_string()),
            },
            PathPair { sync: "/t".to_string(), cache: "/c".to_string(), service: None },
        ],
        walk: WalkOptions {
            checksum: false,
            max_depth: Some(4),
            min_file_size_bytes: 1024,
            max_file_size_bytes: 65536,
            max_threads: 3,
            width: 80,
        },
        ignore: IgnoreOptions { names: vec![".git".to_string()] },
        mount_wait: MountWait::default(),
    }
}

#[test]
fn the_configuration_block_word_for_word() {
    let lines = loaded_config_lines(&config());
    let wanted = [
        "📋 Configuration",
        "   version: 1",
        "   path pairs: 2",
        "   paths[0]: service=a.service  sync=/s  cache=/c",
        "   paths[1]: service=(none)  sync=/t  cache=/c",
        "   walk.max_depth: 4",
        "   walk.min_file_size_bytes: 1KiB (1024 Bytes)",
        "   walk.max_file_size_bytes: 64KiB (65536 Bytes)",
        "   walk.max_threads: 3",
        "   walk.checksum: false (enabled by default)",
    ];
    assert_eq!(lines[..wanted.len()], wanted);
    assert_eq!(
        lines[lines.len() - 2..],
        [
            "   ignore.names: [\".git\"]",
            "   mount_wait: initial=3s retries=[3, 5, 8] max=30s",
        ]
    );
    let mut plain = config();
    plain.walk = WalkOptions::default();
    plain.ignore = IgnoreOptions::default();
    let lines = loaded_config_lines(&plain);
    assert!(lines.contains(&"   walk.max_depth: unlimited".to_string()));
    assert!(lines.contains(&"   walk.min_file_size_bytes: 0 (no minimum)".to_string()));
    assert!(lines.contains(&"   ignore.names: []".to_string()));
}

#[test]
fn the_banner_word_for_word() {
    let row = |s: &str| format!("│{s:<65}│");
    assert_eq!(
        banner_lines(),
        [
            "Rust utility for removing rclone cache staleness and warming mounts.".to_string(),
            "Quit gracefully: Ctrl+C (SIGINT) or press q (TTY) — finishes in-flight workers, starts no new work.".to_string(),
            String::new(),
            format!("┌{}┐", "─".repeat(65)),
            row("  warm-drive-cache"),
            row("  Codebase Version: 0.2.0"),
            row("  Codebase release: 13th August, 2026"),
            row("  Website: https://xSAR.com.au"),
            row("  Licence: AGPL-3.0-only (see LICENSE file)"),
            row("  Homepage: https://xSAR.com.au"),
            row("  Source:  https://github.com/xSAR-research/warm-drive-cache"),
            format!("└{}┘", "─".repeat(65)),
            String::new(),
        ]
    );
}

#[test]
fn product_information_word_for_word() {
    assert_eq!(
        information_lines(),
        [
            "warm-drive-cache",
            "Codebase Version: 0.2.0",
            "Codebase release: 13th August, 2026",
            "A product of xSAR",
            "Licence: AGPL-3.0-only by xSAR",
            "Website: https://xSAR.com.au",
            "Repository: https://github.com/xSAR-research/warm-drive-cache",
        ]
    );
}

#[test]
fn the_farewell_word_for_word() {
    assert_eq!(
        exit_summary_lines(true)[1..3],
        [
            "⏹  Cache maintenance stopped by user (graceful).",
            "   In-flight workers were allowed to finish; no new files were started.",
        ]
    );
    let tail = &exit_summary_lines(false)[2..];
    assert_eq!(
        tail,
        [
            "   (Because the storage is write-through, no separate cache-clear step is required or executed.)",
            "",
            "Thanks for using warm-drive-cache — a product of xSAR.",
            "Website: https://xSAR.com.au",
            "Raise issues or feature requests: https://github.com/xSAR-research/warm-drive-cache/issues",
            "Source: https://github.com/xSAR-research/warm-drive-cache",
        ]
    );
}

#[test]
fn compact_sizes_agree_with_floating_point() {
    let mut n: u64 = 1;
    while n < 1u64 << 50 {
        for bytes in [n - 1, n, n + 1, n * 3 / 2 + 7] {
            let float = bytes as f64;
            let wanted = if float >= 1024.0 * 1024.0 {
                format!("{:.1}MiB", float / (1024.0 * 1024.0))
            } else if float >= 1024.0 {
                format!("{:.1}KiB", float / 1024.0)
            } else {
                format!("{bytes}B")
            };
            assert_eq!(format_bytes_compact(bytes), wanted);
        }
        n *= 2;
    }
}

#[test]
fn table_rows_agree_with_their_format() {
    assert_eq!(
        thread_table_header(),
        format!(
            "{:<5}  {:>8}  {:<6}  {:<10}  Source filename",
            "Count", "Size", "Action", "Progress"
        )
    );
    for index in [1usize, 64, 100_000, 1_000_000] {
        for size in [0u64, 1000, 8300, 1 << 33] {
            let bar = format_progress_bar(size / 3, size, true);
            let slot = ThreadSlotView {
                mode: ThreadWorkMode::ByteRead,
                size,
                bytes_done: size / 3,
                path: "a/very/long/path/to/some/file/with/a/long/name.txt".to_string(),
            };
            let name = truncate_display(&slot.path, 20);
            let sz = format_bytes_compact(size);
            assert_eq!(
                format_thread_slot_line(index, &slot, 20),
                format!("{index:<5}  {sz:>8}  {:<6}  {bar}  {name}", "READ")
            );
        }
        let empty = format_progress_bar(0, 0, false);
        assert_eq!(
            format_thread_slot_line(index, &ThreadSlotView::idle(), 20),
            format!("{index:<5}  {:>8}  {:<6}  {empty}  —", "—", "idle")
        );
    }
}

#[test]
fn boxes_agree_with_their_format() {
    let rows = vec!["abc".to_string(), "0123456789".to_string()];
    for width in 3usize..16 {
        let inner = width - 2;
        let boxed = box_table_lines(&rows, width);
        assert_eq!(boxed[0], format!("┌{}┐", "─".repeat(inner)));
        for (row, line) in boxed[1..3].iter().zip(&rows) {
            let clipped: String = line.chars().take(inner - 1).collect();
            assert_eq!(*row, format!("│ {clipped:<w$}│", w = inner - 1));
        }
        assert_eq!(boxed[3], format!("└{}┘", "─".repeat(inner)));
    }
    assert_eq!(box_table_lines(&rows, 1), rows);
    assert_eq!(box_table_lines(&rows, 2), ["┌┐", "││", "││", "└┘"]);
}

#[test]
fn a_frame_word_for_word() {
    let mut s = WalkStatus::new(12, 345, 6, 2, "~/mounts/project", 80);
    s.active_threads = 1;
    s.cancelled = true;
    let frame = s.render(61_999, true, 60, 24).unwrap();
    let mut lines = vec![
        "Running:".to_string(),
        format!(
            "{}  Directories: {:>6}  Files: {:>6}  Threads: 1/2  Errors: 6  Elapsed: 61s",
            spinner_glyph(0),
            12,
            345
        ),
        "    Local target: ~/mounts/project".to_string(),
        "STOPPING (finish in-flight, no new work)".to_string(),
        String::new(),
        "Running threads:".to_string(),
        String::new(),
    ];
    let table = vec![
        thread_table_header(),
        format_thread_slot_line(1, &ThreadSlotView::idle(), 40),
        format_thread_slot_line(2, &ThreadSlotView::idle(), 40),
    ];
    lines.extend(box_table_lines(&table, 59));
    let mut wanted = String::new();
    for line in &lines {
        let clipped: String = line.chars().take(59).collect();
        wanted.push_str(&format!("\x1b[2K{clipped}\n"));
    }
    wanted.push_str("\x1b[J");
    assert_eq!(frame, wanted);
}

#[test]
fn paths_are_shortened_by_the_longest_root() {
    let roots = vec!["/a".to_string(), "/a/b".to_string(), String::new()];
    let short = |p: &str| shorten_path_for_display(p, &roots, Some("/home/u"), 40);
    assert_eq!(short("/a/b/c"), "c");
    assert_eq!(short("/a/bc"), "bc");
    assert_eq!(short("/a/b"), ".");
    assert_eq!(short("/ab/c"), "/ab/c");
    assert_eq!(short("/a//x"), "x");
    assert_eq!(short("/home/u"), "~");
    assert_eq!(short("/home/user"), "/home/user");
    assert_eq!(short("/home/u/x"), "~/x");
    assert_eq!(shorten_path_for_display("/x", &vec![], Some(""), 40), "/x");
}

#[test]
fn cache_directories_in_unit_text() {
    let flag = |t: &str| parse_cache_dir_flag(t);
    assert_eq!(flag("--cache-dir"), None);
    assert_eq!(flag("--cache-dir relative --cache-dir=/b x"), Some("/b".to_string()));
    assert_eq!(flag("--cache-dir = /c\n"), Some("/c".to_string()));
    assert_eq!(flag("--cache-dir \"/q\" --cache-dir /r"), Some("/r".to_string()));
    assert_eq!(flag("--cache-dir=/x'y"), Some("/x".to_string()));
    assert_eq!(flag("--cache-dir\\\n /z"), None);
}

fn fault(kind: FaultKind) -> IoFault {
    IoFault { kind, text: "why".to_string() }
}

#[test]
fn permission_messages_word_for_word() {
    let message = |kind| permission_message("what", "/p", &fault(kind), "do");
    assert_eq!(
        message(FaultKind::PermissionDenied),
        "what /p: cannot do: why (permission denied — check ownership (chown) and mode (chmod); for FUSE mounts ensure the mount is up and you are the mounting user)"
    );
    assert_eq!(
        message(FaultKind::NotFound),
        "what /p: cannot do: why (path not found — create the directory or start the mount/service first)"
    );
    assert_eq!(message(FaultKind::NotADirectory), "what /p: cannot do: why (not a directory)");
    assert_eq!(message(FaultKind::Other), "what /p: cannot do: why (see OS error detail)");
}

#[test]
fn probe_messages_word_for_word() {
    let hint = "why (see OS error detail)";
    let other = || fault(FaultKind::Other);
    let sync = |look| check_sync_readable("/s", &look);
    assert_eq!(
        sync(SyncLook::Unstatted(other())),
        Err(format!("sync (source) directory /s: cannot stat / access: {hint}"))
    );
    assert_eq!(
        sync(SyncLook::NotADirectory),
        Err("sync path is not a directory: /s".to_string())
    );
    assert_eq!(
        sync(SyncLook::Unlisted(other())),
        Err(format!("sync (source) directory /s: cannot list / read: {hint}"))
    );
    assert_eq!(sync(SyncLook::Listed), Ok("directory readable (list OK)".to_string()));

    let probe = |p| check_cache_permissions("/c", "/c/p", &p);
    assert_eq!(
        probe(CacheProbe::Unstatted(other())),
        Err(format!("rclone cache directory /c: cannot stat / access: {hint}"))
    );
    assert_eq!(
        probe(CacheProbe::NotADirectory),
        Err("cache path is not a directory: /c".to_string())
    );
    assert_eq!(
        probe(CacheProbe::NotCreated(other())),
        Err(format!("rclone cache directory /c: cannot create/write probe file: {hint}"))
    );
    assert_eq!(
        probe(CacheProbe::NotWritten(other())),
        Err(format!("rclone cache probe file /c/p: cannot write: {hint}"))
    );
    assert_eq!(
        probe(CacheProbe::NotOpened(other())),
        Err(format!("rclone cache probe file /c/p: cannot open for read: {hint}"))
    );
    assert_eq!(
        probe(CacheProbe::NotRead(other())),
        Err(format!("rclone cache probe file /c/p: cannot read: {hint}"))
    );
    assert_eq!(
        probe(CacheProbe::ReadBack { content: "x\n".to_string(), deleted: Ok(()) }),
        Err("cache probe read-back mismatch at /c/p (got \"x\\n\")".to_string())
    );
    assert_eq!(
        probe(CacheProbe::ReadBack { content: "wdc-ok".to_string(), deleted: Err(other()) }),
        Err(format!("rclone cache probe file /c/p: cannot delete: {hint}"))
    );
    assert_eq!(
        probe(CacheProbe::ReadBack { content: "wdc-ok".to_string(), deleted: Ok(()) }),
        Ok("write/read/delete probe OK".to_string())
    );
    assert_eq!(probe_name(u128::MAX), format!(".warm-drive-cache-probe-{}", u128::MAX));
}

fn output(success: bool, stdout: &str, stderr: &str) -> CommandOutput {
    CommandOutput {
        success,
        code: Some(if success { 0 } else { 5 }),
        stdout: stdout.to_string(),
        stderr: stderr.to_string(),
    }
}

#[test]
fn unit_messages_word_for_word() {
    let system = SystemdScope::System;
    let look = |l| check_unit_file_permissions("/etc/x", system, &l);
    let other = || fault(FaultKind::Other);
    let hint = "why (see OS error detail)";
    assert_eq!(look(UnitLook::Readable), Ok("readable (/etc/x, system scope)".to_string()));
    assert_eq!(look(UnitLook::Missing), Err("unit file missing: /etc/x".to_string()));
    assert_eq!(
        look(UnitLook::ParentUnstatted { parent: "/etc".to_string(), fault: other() }),
        Err(format!("service unit directory /etc: cannot read metadata / list: {hint}"))
    );
    assert_eq!(
        look(UnitLook::ParentUnlisted { parent: "/etc".to_string(), fault: other() }),
        Err(format!("service unit directory /etc: cannot list entries: {hint}"))
    );
    assert_eq!(
        look(UnitLook::Unopened(other())),
        Err(format!("service unit file /etc/x: cannot open for read: {hint}"))
    );
    assert_eq!(
        look(UnitLook::Unread(other())),
        Err(format!("service unit file /etc/x: cannot read: {hint}"))
    );
    assert_eq!(
        unit_file_path("x", system, Err("gone".to_string())),
        Err("systemctl system show FragmentPath: gone".to_string())
    );
    assert_eq!(
        unit_file_path("x", system, Ok(output(false, "", ""))),
        Err("could not resolve unit path for x (not installed as system unit?)".to_string())
    );
    assert_eq!(
        unit_file_path("x", system, Ok(output(true, " \n", ""))),
        Err("FragmentPath empty for x".to_string())
    );
    assert_eq!(
        resolve_unit_scope("x", false, false, false, false),
        Err("unit x not found as a system or user unit (check the name; drop a mistaken rclone- prefix if the unit is gdrive-*.service)".to_string())
    );
    assert_eq!(
        is_unit_active(system, Err("gone".to_string())),
        Err("cannot run systemctl system is-active (is systemd available?): gone".to_string())
    );
    assert_eq!(
        is_unit_enabled(system, Err("gone".to_string())),
        Err("cannot run systemctl system is-enabled: gone".to_string())
    );
    let cat = |reply| extract_cache_dir_from_unit("x", SystemdScope::User, reply);
    assert_eq!(cat(Err("gone".to_string())), Err("systemctl user cat x: gone".to_string()));
    assert_eq!(
        cat(Ok(output(false, "", "  \n"))),
        Err("cannot read user unit x: not found or not loaded".to_string())
    );
    assert_eq!(
        cat(Ok(output(false, "", " No files\n"))),
        Err("cannot read user unit x: No files".to_string())
    );
    assert_eq!(
        cat(Ok(output(true, "ExecStart=x", ""))),
        Err("no --cache-dir found in unit x".to_string())
    );
}

#[test]
fn command_messages_word_for_word() {
    let args = vec!["enable".to_string(), "x".to_string()];
    let failed = |reply| match systemctl_mut(SystemdScope::User, &args, &reply) {
        MutStep::Failed(m) => m,
        other => panic!("{other:?}"),
    };
    assert_eq!(
        failed(Err("gone".to_string())),
        "systemctl user enable x failed to spawn: gone"
    );
    assert_eq!(
        failed(Ok(output(false, "", " denied\n"))),
        "systemctl --user enable x failed (exit Some(5)): denied"
    );
    match systemctl_mut(SystemdScope::System, &args, &Ok(output(false, "", "denied"))) {
        MutStep::Elevate(line) => {
            assert_eq!(line, "   … elevating with sudo for: systemctl enable x …")
        }
        other => panic!("{other:?}"),
    }
    let first = output(false, "", " denied\n");
    assert_eq!(
        systemctl_sudo(&args, &first, &Err("gone".to_string())),
        Err("sudo systemctl enable x failed to spawn (is sudo available?): gone".to_string())
    );
    let killed = CommandOutput { code: None, ..output(false, "", " no tty ") };
    assert_eq!(
        systemctl_sudo(&args, &first, &Ok(killed)),
        Err("systemctl enable x failed (exit Some(5)): denied; sudo retry (exit None): no tty".to_string())
    );
}

#[test]
fn lock_messages_word_for_word() {
    let cache = NativePath { parts: vec![Component::Root, Component::Normal(b"c".to_vec())] };
    let fresh = || CacheLock::acquire(&cache, "/c/l");
    let refused = |events: Vec<LockEvent>| {
        let mut lock = fresh();
        for event in events {
            lock = lock.advance(event);
        }
        lock.refusal().unwrap().clone()
    };
    let exists = || LockEvent::Created(Err(CreateFault {
        already_exists: true,
        text: "exists".to_string(),
    }));
    let denied = || LockEvent::Created(Err(CreateFault {
        already_exists: false,
        text: "denied".to_string(),
    }));
    let yes = || LockEvent::Answered(Ok(" y \n".to_string()));
    assert_eq!(refused(vec![denied()]), "cannot create lock /c/l: denied");
    assert_eq!(
        refused(vec![exists(), LockEvent::Asked(Err("closed".to_string()))]),
        "cannot display lock prompt: closed"
    );
    assert_eq!(
        refused(vec![
            exists(),
            LockEvent::Asked(Ok(())),
            LockEvent::Answered(Err("torn".to_string())),
        ]),
        "cannot read lock prompt response: torn"
    );
    assert_eq!(
        refused(vec![
            exists(),
            LockEvent::Asked(Ok(())),
            LockEvent::Answered(Ok("no\n".to_string())),
        ]),
        "continuation declined because warm-drive-cache.lock already exists"
    );
    assert_eq!(
        refused(vec![
            exists(),
            LockEvent::Asked(Ok(())),
            yes(),
            LockEvent::Removed(Err("busy".to_string())),
        ]),
        "cannot replace stale lock /c/l: busy"
    );
    assert_eq!(
        refused(vec![
            exists(),
            LockEvent::Asked(Ok(())),
            yes(),
            LockEvent::Removed(Ok(())),
            exists(),
        ]),
        "cannot create lock /c/l: exists"
    );
    assert_eq!(
        release_warning("/c/l", false, "denied").as_deref(),
        Some("⚠️  Failed to remove concurrency lock /c/l: denied")
    );
}

#[test]
fn the_settle_wait_word_for_word() {
    let wait = MountWait { initial_secs: 3, retry_delays_secs: vec![4, 9], max_wait_secs: 12 };
    let mut printed: Vec<Line> = Vec::new();
    let mut phase = SettlePhase::Start;
    let mut elapsed: u64 = 0;
    let mut slept: Vec<u64> = Vec::new();
    loop {
        let (lines, next, action) = wait_for_mount_content(&wait, true, phase, elapsed, false);
        printed.extend(lines);
        phase = next;
        match action {
            SettleAction::Sleep(n) => {
                slept.push(n);
                elapsed += n;
            }
            SettleAction::Finish(_) => break,
            _ => {}
        }
    }
    assert_eq!(slept, [3, 4, 5]);
    assert_eq!(
        printed,
        [
            out("   ⏳ Path exists — waiting 3s for mount to settle (max 12s total)..."),
            out("   ⏳ Directory looks empty (mount may still be populating)..."),
            out("   ⏳ Retry 1/2: waiting 4s..."),
            out("   ⏳ Retry 2/2: waiting 9s..."),
            Line::Alert(
                "   ⚠️  Still empty after retries — proceeding anyway (may be legitimately empty)."
                    .to_string()
            ),
        ]
    );
    let spent = MountWait { max_wait_secs: 0, ..wait };
    let (lines, _, action) = wait_for_mount_content(&spent, false, SettlePhase::Start, 0, false);
    assert_eq!(
        lines,
        [Line::Alert("   ⚠️  Max wait timeout (0s) reached — proceeding anyway.".to_string())]
    );
    assert_eq!(action, SettleAction::Look);
}

#[test]
fn the_validation_report_word_for_word() {
    let facts = |first: bool| EntryFacts {
        sync_is_dir: first,
        sync_access: None,
        unit_cache: if first { Some(Err("gone".to_string())) } else { None },
        cache: if first { CacheState::Directory(3) } else { CacheState::NotADirectory },
        cache_access: None,
        unit: if first { Some(Ok((SystemdScope::User, Ok(false)))) } else { None },
    };
    let (lines, ok) = run_config_check(&config(), &vec![facts(true), facts(false)]);
    assert!(!ok);
    let rule = "════════════════════════════════════════════════════════════";
    let thin = "────────────────────────────────────────────────────────────";
    let shown: Vec<&str> = lines.iter().map(text).collect();
    assert_eq!(
        shown,
        [
            "",
            rule,
            "  Config check  (−c / --check)",
            rule,
            "",
            "Schema version:  1",
            "Path pairs:      2",
            "Walk:            max_depth=Some(4)  min_size=1KiB (1024 Bytes)  max_size=64KiB (65536 Bytes)  max_threads=3",
            "Ignore names:    [\".git\"]",
            "Mount wait:      initial=3s  retries=[3, 5, 8]  max=30s",
            "",
            thin,
            "  Entry 0",
            thin,
            "",
            "  Service name",
            "    a.service",
            "",
            "  File directory  (config paths[].sync — mount / warm target)",
            "    /s",
            "    status: present (directory)",
            "",
            "  Cache directory",
            "    config paths[].cache:  /c",
            "    from unit --cache-dir:  (not found)  [gone]",
            "    effective for size:     /c  (config value)",
            "    current size:           3 Bytes",
            "  systemd:  inactive (user)",
            "",
            thin,
            "  Entry 1",
            thin,
            "",
            "  Service name",
            "    (none — no paths[].service in config)",
            "",
            "  File directory  (config paths[].sync — mount / warm target)",
            "    /t",
            "    status: missing or not a directory",
            "",
            "  Cache directory",
            "    config paths[].cache:  /c",
            "    effective for size:     /c  (config value)",
            "    current size:           (path exists but is not a directory)",
            "",
            rule,
            "  Layout check finished — review entries marked missing / not a directory.",
            rule,
            "",
        ]
    );
}

use warm_drive_cache::access::{classify, AccessOperation};
use warm_drive_cache::cache_lock::{
    release_warning, CacheLock, CreateFault, LockAction, LockEvent, LOCK_NAME, LOCK_PROMPT,
};
use warm_drive_cache::cache_ops::{
    delete_dir_contents, delete_remote_trees, deleted_bytes, dir_size, purge, tree_size,
    CacheNode, Removal,
};
use warm_drive_cache::capacity::{aggregate_by_filesystem, eligible_bytes, Projection};
use warm_drive_cache::dirty_check::{
    calculated_wait_secs, clean_step, metadata_root, parse_dirty_metadata, scan, scan_root,
    wait_until_clean, wait_until_clean_with_interval, CleanAction, CleanEvent, CleanPhase,
    CleanWait, DirtyEntry, MetaFile, RootState, Round, ScanItem,
};
use warm_drive_cache::native::{Component, NativePath};
use warm_drive_cache::resolver::{
    parse_mount_table, parse_rclone_remote_name, remote_for_pair, remote_from_mounts,
    remote_name_from_spec, resolve, resolve_for_remote, vfs_content_dir, vfs_meta_dir,
    Destination, Mounted, VfsLayout,
};

fn path(text: &str) -> NativePath {
    let mut parts = Vec::new();
    if text.starts_with('/') {
        parts.push(Component::Root);
    }
    for name in text.split('/').filter(|n| !n.is_empty()) {
        parts.push(match name {
            ".." => Component::Parent,
            _ => Component::Normal(name.as_bytes().to_vec()),
        });
    }
    NativePath { parts }
}

fn file(name: &str, len: u64) -> CacheNode {
    CacheNode::File { name: name.as_bytes().to_vec(), len }
}

fn folder(name: &str, entries: Vec<CacheNode>) -> CacheNode {
    CacheNode::Folder { name: name.as_bytes().to_vec(), entries }
}

fn joined(names: &[Vec<u8>]) -> String {
    let parts: Vec<String> =
        names.iter().map(|n| String::from_utf8_lossy(n).into_owned()).collect();
    parts.join("/")
}

fn removed(removals: &[Removal]) -> Vec<String> {
    removals.iter().map(|r| joined(&r.path)).collect()
}

fn observed(cache: &NativePath, relative: &str, text: &str) -> ScanItem {
    let whole = cache.join(&path(relative));
    ScanItem::File {
        path: whole,
        shown: format!("/cache/{relative}"),
        file: MetaFile::Read(text.to_string()),
        file_len: text.len() as u64,
    }
}

#[test]
fn dirty_metadata_is_case_insensitive_and_scans_all_services() {
    let cache = path("/cache");
    let first = "vfsMeta/service-a/one.json";
    let second = "vfsMeta/service-b/two.json";
    let dirty_text = r#"{"Dirty":"tRuE","Size":8192}"#;
    let clean_text = r#"{"dirty":false,"size":4096}"#;
    let mut entries: Vec<DirtyEntry> = Vec::new();
    assert_eq!(scan_root("/cache/vfsMeta", RootState::Directory), Ok(true));
    scan(&mut entries, "/cache/vfsMeta", ScanItem::NotAFile).unwrap();
    scan(&mut entries, "/cache/vfsMeta", observed(&cache, first, dirty_text)).unwrap();
    scan(&mut entries, "/cache/vfsMeta", observed(&cache, second, clean_text)).unwrap();
    assert_eq!(entries.len(), 1);
    assert_eq!(entries[0].metadata_path, cache.join(&path(first)));
    assert_eq!(
        metadata_root(&cache, Some(&path("service-a"))),
        path("/cache/vfsMeta/service-a")
    );
    assert_eq!(metadata_root(&cache, None), path("/cache/vfsMeta"));
    let mut only_first: Vec<DirtyEntry> = Vec::new();
    scan(&mut only_first, "/cache/vfsMeta/service-a", observed(&cache, first, dirty_text))
        .unwrap();
    assert_eq!(only_first.len(), 1);
    assert_eq!(only_first, entries);
    let mut only_second: Vec<DirtyEntry> = Vec::new();
    scan(&mut only_second, "/cache/vfsMeta/service-b", observed(&cache, second, clean_text))
        .unwrap();
    assert!(only_second.is_empty());
    assert_eq!(entries[0].content_size, 8192);
    assert_eq!(calculated_wait_secs(8192, 30), 2);
    assert_eq!(calculated_wait_secs(8192, 1), 1);
}

#[test]
fn a_scan_is_clean_only_when_every_file_is_saved() {
    let cache = path("/cache");
    let clean = [
        ("vfsMeta/a/one", r#"{"Dirty":false,"Size":1}"#),
        ("vfsMeta/a/two", r#"{"Size":2}"#),
        ("vfsMeta/b/three", "[]"),
    ];
    let mut dirty: Vec<DirtyEntry> = Vec::new();
    for (name, text) in clean {
        scan(&mut dirty, "/cache/vfsMeta", observed(&cache, name, text)).unwrap();
    }
    assert_eq!(wait_until_clean(0).take_scan(&dirty), Round::Clean);

    scan(&mut dirty, "/cache/vfsMeta", observed(&cache, "vfsMeta/b/four", r#"{"Dirty":true}"#))
        .unwrap();
    assert_ne!(wait_until_clean(0).take_scan(&dirty), Round::Clean);
    assert!(scan(&mut dirty, "/cache/vfsMeta", observed(&cache, "vfsMeta/b/five", "{")).is_err());
}

#[test]
fn metadata_values_of_every_kind() {
    let read = |t: &str| parse_dirty_metadata("m", MetaFile::Read(t.to_string()), 77);
    assert_eq!(read(r#"{"Dirty":true,"Size":5}"#), Ok(Some(5)));
    assert_eq!(read(r#"{"DIRTY":"TRUE","sIzE":"4097"}"#), Ok(Some(4097)));
    assert_eq!(read(r#"{"Dirty":true}"#), Ok(Some(77)));
    assert_eq!(read(r#"{"Dirty":true,"Size":-4}"#), Ok(Some(77)));
    assert_eq!(read(r#"{"Dirty":true,"Size":1.5}"#), Ok(Some(77)));
    assert_eq!(read(r#"{"Dirty":1}"#), Ok(None));
    assert_eq!(read(r#"{"Size":5}"#), Ok(None));
    assert_eq!(read(r#"[true]"#), Ok(None));
    assert!(read("{").unwrap_err().starts_with("invalid rclone metadata JSON m: "));
    assert_eq!(
        parse_dirty_metadata("m", MetaFile::Unopened("gone".to_string()), 0).unwrap_err(),
        "cannot open rclone metadata read-only m: gone"
    );
    assert_eq!(
        parse_dirty_metadata("m", MetaFile::Unread("torn".to_string()), 0).unwrap_err(),
        "cannot read rclone metadata m: torn"
    );
}

#[test]
fn metadata_root_states() {
    assert_eq!(scan_root("/c/vfsMeta", RootState::Missing), Ok(false));
    assert_eq!(
        scan_root("/c/vfsMeta", RootState::NotADirectory).unwrap_err(),
        "rclone metadata path is not a directory: /c/vfsMeta"
    );
    let mut none: Vec<DirtyEntry> = Vec::new();
    assert_eq!(
        scan(&mut none, "/c/vfsMeta", ScanItem::Failed("denied".to_string())).unwrap_err(),
        "cannot traverse rclone metadata /c/vfsMeta: denied"
    );
}

/// Drives a wait over the results of its scans, the clock advancing by `tick` milliseconds
/// with each look at an entry: what the wait ends with, the lines it printed, and how many
/// scans it asked for.
fn drive_wait(
    wait: &mut CleanWait,
    scans: Vec<Result<Vec<DirtyEntry>, String>>,
    tick: u64,
    cancelled: bool,
) -> (Result<(), String>, Vec<String>, usize) {
    let mut printed = Vec::new();
    let mut scans = scans.into_iter();
    let mut asked = 0;
    let mut now_ms = 0;
    let mut phase = CleanPhase::Resting;
    let mut event = CleanEvent::Ready { cancelled };
    loop {
        let (lines, next, action) = clean_step(wait, phase, event);
        phase = next;
        printed.extend(lines);
        event = match action {
            CleanAction::Scan => {
                asked += 1;
                CleanEvent::Scanned(scans.next().expect("another scan was asked for"))
            }
            CleanAction::Observe(i) => {
                let shown = match &phase {
                    CleanPhase::Observing { dirty, at } => {
                        assert_eq!(i, *at);
                        joined(
                            &dirty[i]
                                .metadata_path
                                .parts
                                .iter()
                                .filter_map(|c| match c {
                                    Component::Normal(n) => Some(n.clone()),
                                    _ => None,
                                })
                                .collect::<Vec<_>>(),
                        )
                    }
                    other => panic!("an entry of {other:?}"),
                };
                let event = CleanEvent::Observed { shown, now_ms };
                now_ms += tick;
                event
            }
            CleanAction::Pause(ms) => {
                assert_eq!(ms, wait.pause_ms());
                CleanEvent::Ready { cancelled: false }
            }
            CleanAction::Finish(result) => return (result, printed, asked),
        };
    }
}

/// What a scan of one file finds.
fn scanned(cache: &NativePath, relative: &str, text: &str) -> Result<Vec<DirtyEntry>, String> {
    let mut dirty: Vec<DirtyEntry> = Vec::new();
    scan(&mut dirty, "/cache/vfsMeta", observed(cache, relative, text))?;
    Ok(dirty)
}

#[test]
fn dirty_wait_reopens_and_observes_atomic_rclone_update() {
    let cache = path("/cache");
    let name = "vfsMeta/service-a/file.json";
    let mut wait = wait_until_clean_with_interval(30, 5);
    assert_eq!(wait.pause_ms(), 5);
    let scans = vec![
        scanned(&cache, name, r#"{"Dirty":true,"Size":409600}"#),
        scanned(&cache, name, r#"{"Dirty":true,"Size":409600}"#),
        scanned(&cache, name, r#"{"Dirty":false,"Size":409600}"#),
    ];
    let (result, printed, asked) = drive_wait(&mut wait, scans, 30, false);
    assert_eq!(
        result,
        Ok(()),
        "a newly opened read-only handle must observe rclone's replacement file"
    );
    assert_eq!(asked, 3);
    assert_eq!(printed.len(), 2);
}

#[test]
fn a_wait_gives_up_on_an_overdue_entry() {
    let cache = path("/cache");
    let text = r#"{"Dirty":true,"Size":8192}"#;
    let scans = (0..9).map(|_| scanned(&cache, "vfsMeta/a/x", text)).collect();
    let (result, printed, asked) = drive_wait(&mut wait_until_clean(30), scans, 1000, false);
    assert_eq!(asked, 3);
    assert_eq!(printed.len(), 3);
    assert!(printed[1].ends_with("(Dirty=true) — 1s of 2s"), "{}", printed[1]);
    assert!(result.unwrap_err().contains("remained Dirty=true for 2s"));
}

#[test]
fn a_wait_looks_at_every_dirty_entry() {
    let cache = path("/cache");
    let text = r#"{"Dirty":true,"Size":409600}"#;
    let mut both = scanned(&cache, "vfsMeta/a/x", text).unwrap();
    both.extend(scanned(&cache, "vfsMeta/b/y", text).unwrap());
    assert_eq!(both.clone(), both);
    let scans = vec![Ok(both), Ok(Vec::new())];
    let (result, printed, asked) = drive_wait(&mut wait_until_clean(0), scans, 1, false);
    assert_eq!(result, Ok(()));
    assert_eq!(asked, 2);
    assert_eq!(printed.len(), 2);
    assert_ne!(printed[0], printed[1]);
}

#[test]
fn a_wait_hands_on_the_error_of_a_scan() {
    let cache = path("/cache");
    let scans = vec![
        scanned(&cache, "vfsMeta/a/x", r#"{"Dirty":true,"Size":409600}"#),
        scanned(&cache, "vfsMeta/a/x", "{"),
    ];
    let (result, _, asked) = drive_wait(&mut wait_until_clean(0), scans, 1, false);
    assert_eq!(asked, 2);
    assert!(result.unwrap_err().starts_with("invalid rclone metadata JSON"));
}

#[test]
fn a_stopped_wait_does_not_scan() {
    let (result, printed, asked) = drive_wait(&mut wait_until_clean(0), Vec::new(), 1, true);
    assert_eq!(result, Err("cancelled while waiting for dirty rclone metadata".to_string()));
    assert_eq!(asked, 0);
    assert!(printed.is_empty());
}

#[test]
fn dirty_wait_ends_at_its_deadline() {
    let cache = path("/cache");
    let mut wait = wait_until_clean(30);
    assert_eq!(wait.pause_ms(), 1000);
    let mut dirty: Vec<DirtyEntry> = Vec::new();
    let text = r#"{"Dirty":true,"Size":8192}"#;
    scan(&mut dirty, "/cache/vfsMeta", observed(&cache, "vfsMeta/a/x", text)).unwrap();
    assert_eq!(wait.take_scan(&dirty), Round::Dirty);
    let first = wait.observe(&dirty[0], "x", 500);
    assert_eq!(
        first.line,
        "   ⏳ Waiting for rclone to save x (Dirty=true) — 0s of 2s"
    );
    assert!(first.given_up.is_none());
    let again = wait.observe(&dirty[0], "x", 2499);
    assert!(again.given_up.is_none());
    let last = wait.observe(&dirty[0], "x", 2500);
    assert_eq!(
        last.given_up.as_deref(),
        Some("rclone cache metadata x remained Dirty=true for 2s; the cache was not removed because the file has not been saved to the rclone source")
    );
    assert_eq!(
        wait.begin_look(true).unwrap_err(),
        "cancelled while waiting for dirty rclone metadata"
    );
}

#[test]
fn an_entry_that_was_clean_in_between_starts_anew() {
    let cache = path("/cache");
    let mut wait = wait_until_clean(0);
    let mut dirty: Vec<DirtyEntry> = Vec::new();
    let text = r#"{"Dirty":true,"Size":1}"#;
    scan(&mut dirty, "/cache/vfsMeta", observed(&cache, "vfsMeta/a/x", text)).unwrap();
    wait.take_scan(&dirty);
    assert!(wait.observe(&dirty[0], "x", 0).given_up.is_none());
    let none: Vec<DirtyEntry> = Vec::new();
    assert_eq!(wait.take_scan(&none), Round::Clean);
    wait.take_scan(&dirty);
    assert!(wait.observe(&dirty[0], "x", 5000).given_up.is_none());
    assert!(wait.observe(&dirty[0], "x", 6000).given_up.is_some());
}

#[test]
fn wait_grows_with_the_size() {
    assert_eq!(calculated_wait_secs(0, 0), 1);
    assert_eq!(calculated_wait_secs(4096, 0), 1);
    assert_eq!(calculated_wait_secs(4097, 0), 2);
    assert_eq!(calculated_wait_secs(u64::MAX, 0), u64::MAX / 4096);
    assert_eq!(calculated_wait_secs(u64::MAX, 30), 30);
}

#[test]
fn cache_lock_is_empty_and_removed_on_drop() {
    let lock = CacheLock::acquire(&path("/cache"), "/cache/warm-drive-cache.lock");
    assert_eq!(lock.path(), &path("/cache").join(&NativePath::of_name(LOCK_NAME)));
    assert_eq!(lock.action(), LockAction::Create);
    let lock = lock.advance(LockEvent::Created(Ok(())));
    assert!(lock.is_held());
    assert_eq!(lock.action(), LockAction::Stop);
    assert!(lock.refusal().is_none());
    assert_eq!(release_warning("/cache/warm-drive-cache.lock", true, "gone"), None);
    assert!(release_warning("/cache/warm-drive-cache.lock", false, "denied").is_some());
}

fn existing() -> LockEvent {
    LockEvent::Created(Err(CreateFault {
        already_exists: true,
        text: "File exists (os error 17)".to_string(),
    }))
}

#[test]
fn an_existing_lock_needs_a_yes() {
    assert!(LOCK_PROMPT.ends_with("[y/N]? "));
    for (answer, yes) in
        [("y\n", true), ("Y\n", true), ("", false), ("yes\n", false), ("n\n", false)]
    {
        let lock = CacheLock::acquire(&path("/cache"), "/cache/l").advance(existing());
        assert_eq!(lock.action(), LockAction::Ask);
        let lock = lock.advance(LockEvent::Asked(Ok(())));
        assert_eq!(lock.action(), LockAction::ReadAnswer);
        let lock = lock.advance(LockEvent::Answered(Ok(answer.to_string())));
        if yes {
            assert_eq!(lock.action(), LockAction::Remove);
            let lock = lock.advance(LockEvent::Removed(Ok(())));
            assert_eq!(lock.action(), LockAction::Create);
            assert!(!lock.is_held());
            assert!(lock.advance(LockEvent::Created(Ok(()))).is_held());
        } else {
            assert!(!lock.is_held());
            assert!(lock.refusal().is_some());
        }
    }
}

#[test]
fn lock_faults_are_refusals() {
    let fresh = || CacheLock::acquire(&path("/cache"), "/cache/l");
    let denied = CreateFault { already_exists: false, text: "denied".to_string() };
    let lock = fresh().advance(LockEvent::Created(Err(denied)));
    assert!(lock.refusal().unwrap().contains("denied"));
    let lock = fresh().advance(existing()).advance(LockEvent::Asked(Err("closed".to_string())));
    assert!(lock.refusal().unwrap().contains("closed"));
    let asked = || fresh().advance(existing()).advance(LockEvent::Asked(Ok(())));
    let lock = asked().advance(LockEvent::Answered(Err("torn".to_string())));
    assert!(lock.refusal().unwrap().contains("torn"));
    let lock = asked()
        .advance(LockEvent::Answered(Ok("y".to_string())))
        .advance(LockEvent::Removed(Err("busy".to_string())));
    assert!(lock.refusal().unwrap().contains("busy"));
}

#[test]
fn cache_cleanup_preserves_the_active_lock() {
    let entries = vec![file(LOCK_NAME, 0), file("cached-content", 9)];
    let plan = delete_dir_contents(&entries, false);
    assert_eq!(removed(&plan.removals), ["cached-content"]);
    assert_eq!(plan.planned, 9);
    assert_eq!(deleted_bytes(&plan.removals, &vec![true]), 9);
    assert_eq!(deleted_bytes(&plan.removals, &vec![false]), 0);
}

#[test]
fn deletion_takes_subdirectories_after_their_contents() {
    let entries = vec![
        folder("a", vec![file("x", 3), folder("b", vec![file("y", 4)])]),
        CacheNode::Other { name: b"link".to_vec() },
        folder("kept", vec![file(LOCK_NAME, 5), file("z", 6)]),
    ];
    assert_eq!(dir_size(&entries), 13);
    assert_eq!(tree_size(&entries), Some(13));
    let plan = delete_dir_contents(&entries, false);
    assert_eq!(removed(&plan.removals), ["a/x", "a/b/y", "a/b", "a", "link", "kept/z"]);
    assert_eq!(plan.planned, 13);
    assert!(plan.announced.is_empty());

    let preview = delete_dir_contents(&entries, true);
    assert!(preview.removals.is_empty());
    let announced: Vec<String> = preview.announced.iter().map(|p| joined(p)).collect();
    assert_eq!(announced, ["a", "link", "kept"]);
    assert_eq!(preview.planned, 13);
}

#[test]
fn a_tree_too_large_to_count() {
    assert_eq!(tree_size(&vec![file("a", u64::MAX), file("b", 1)]), None);
    assert_eq!(tree_size(&vec![file("a", u64::MAX), file(LOCK_NAME, 1)]), Some(u64::MAX));
}

#[test]
fn delete_remote_trees_leaves_other_remotes() {
    let cache = vec![
        folder(
            "vfs",
            vec![
                folder("other", vec![file("file", 4)]),
                folder("accessit", vec![file("file", 4)]),
            ],
        ),
        folder("vfsMeta", vec![folder("accessit", vec![file("meta.json", 2)])]),
    ];
    let plan = delete_remote_trees(&cache, b"accessit", false);
    let gone = removed(&plan.removals);
    assert!(!gone.iter().any(|p| p.starts_with("vfs/other")));
    assert!(gone.contains(&"vfs/accessit/file".to_string()));
    assert!(gone.contains(&"vfsMeta/accessit/meta.json".to_string()));
    assert_eq!(plan.planned, 6);
    assert!(delete_remote_trees(&cache, b"absent", false).removals.is_empty());
    let scoped = purge(&cache, Some(b"accessit"), false).unwrap();
    assert_eq!(removed(&scoped.removals), gone);
    let whole = purge(&cache, None, false).unwrap();
    assert!(removed(&whole.removals).contains(&"vfs/other/file".to_string()));
    assert_eq!(whole.planned, 10);
    let huge = vec![file("a", u64::MAX), file("b", 1)];
    assert!(purge(&huge, None, true).is_none());
    assert!(purge(&huge, Some(b"accessit"), true).is_some());
}

fn layout(remotes: &[&str]) -> VfsLayout {
    VfsLayout {
        mounted: None,
        remotes: Ok(remotes.iter().map(|r| r.as_bytes().to_vec()).collect()),
    }
}

fn confirmed(d: Destination) -> NativePath {
    d.confirm(Ok(path("/t/cache")), Ok(path("/t/cache/vfs"))).unwrap()
}

#[test]
fn resolver_uses_vfs_remote_layout() {
    let sync = path("/t/mount");
    let cache = path("/t/cache");
    let wanted = path("/t/mount/a/file");
    let got = resolve(&sync, &cache, &wanted, &layout(&["remote"])).unwrap();
    assert_eq!(confirmed(got), path("/t/cache/vfs/remote/a/file"));

    let two = layout(&["remote", "other"]);
    let err = resolve(&sync, &cache, &wanted, &two).unwrap_err();
    assert!(err.message.contains("(remote, other)"));
    let hinted =
        resolve_for_remote(&sync, &cache, &wanted, Some(&path("remote")), &two).unwrap();
    assert_eq!(confirmed(hinted), path("/t/cache/vfs/remote/a/file"));
}

#[test]
fn a_single_directory_outranks_the_mount_table() {
    let sync = path("/t/mount");
    let cache = path("/t/cache");
    let wanted = path("/t/mount/a/file");
    let with_table = |names: &[&str]| VfsLayout {
        mounted: Some("gdrive".to_string()),
        ..layout(names)
    };
    let single = resolve(&sync, &cache, &wanted, &with_table(&["remote"])).unwrap();
    assert_eq!(confirmed(single), path("/t/cache/vfs/remote/a/file"));
    for shared in [with_table(&[]), with_table(&["remote", "other"])] {
        let found = resolve(&sync, &cache, &wanted, &shared).unwrap();
        assert_eq!(confirmed(found), path("/t/cache/vfs/gdrive/a/file"));
    }
    let unlisted = VfsLayout {
        mounted: Some("gdrive".to_string()),
        remotes: Err("denied".to_string()),
    };
    let found = resolve(&sync, &cache, &wanted, &unlisted).unwrap();
    assert_eq!(confirmed(found), path("/t/cache/vfs/gdrive/a/file"));
    let named = path("unit");
    let found =
        resolve_for_remote(&sync, &cache, &wanted, Some(&named), &with_table(&["remote"])).unwrap();
    assert_eq!(confirmed(found), path("/t/cache/vfs/unit/a/file"));
}

#[test]
fn resolver_faults() {
    let sync = path("/t/mount");
    let cache = path("/t/cache");
    let one = layout(&["remote"]);
    let outside = resolve(&sync, &cache, &path("/elsewhere/x"), &one).unwrap_err();
    assert_eq!(outside.message, "mount path is outside configured sync root");
    assert!(outside.relative_path.is_none());
    let climbing = resolve(&sync, &cache, &path("/t/mount/../x"), &one).unwrap_err();
    assert_eq!(climbing.message, "relative path contains traversal");
    let none = resolve(&sync, &cache, &path("/t/mount/x"), &layout(&[])).unwrap_err();
    assert_eq!(
        none.describe("/t/mount/x", "/t/cache", Some("x"), None),
        "no <cache-dir>/vfs/<remote-name> directory yet and rclone remote could not be inferred (mount=/t/mount/x, cache=/t/cache, relative=x, destination=<unresolved>)"
    );
    let broken = VfsLayout { mounted: None, remotes: Err("denied".to_string()) };
    let unlisted = resolve(&sync, &cache, &path("/t/mount/x"), &broken).unwrap_err();
    assert_eq!(unlisted.message, "cannot inspect rclone VFS layout: denied");
    let lossy = VfsLayout {
        mounted: None,
        remotes: Ok(vec![vec![b'a', 0xff], b"b".to_vec()]),
    };
    let many = resolve(&sync, &cache, &path("/t/mount/x"), &lossy).unwrap_err();
    assert!(many.message.contains("(a\u{fffd}, b)"), "{}", many.message);
}

#[test]
fn a_destination_must_stay_below_the_cache() {
    let wanted = path("/t/mount/a/file");
    let found = || {
        resolve(&path("/t/mount"), &path("/t/cache"), &wanted, &layout(&["remote"])).unwrap()
    };
    let d = found();
    let ancestors = d.ancestors();
    assert_eq!(ancestors[0], path("/t/cache/vfs/remote/a/file"));
    let exists: Vec<bool> = ancestors.iter().map(|a| *a == path("/t/cache/vfs")).collect();
    assert_eq!(d.nearest_existing(&exists), path("/t/cache/vfs"));
    let none: Vec<bool> = ancestors.iter().map(|_| false).collect();
    assert_eq!(d.nearest_existing(&none), path("/t/cache"));
    let escaped = found().confirm(Ok(path("/t/cache")), Ok(path("/other"))).unwrap_err();
    assert_eq!(escaped.message, "destination escapes configured cache root");
    let unrooted = found().confirm(Err("gone".to_string()), Ok(path("/t"))).unwrap_err();
    assert_eq!(unrooted.message, "cannot canonicalize cache root: gone");
    let lost = found().confirm(Ok(path("/t/cache")), Err("gone".to_string())).unwrap_err();
    assert_eq!(lost.message, "cannot canonicalize destination parent: gone");
}

#[test]
fn parse_rclone_remote_name_from_unit_text() {
    assert_eq!(
        parse_rclone_remote_name(
            "ExecStart=/usr/bin/rclone mount --cache-dir /var/cache/r rem: /mnt"
        )
        .as_deref(),
        Some("rem")
    );
    assert_eq!(
        parse_rclone_remote_name("rclone mount gdrive:Documents /mnt").as_deref(),
        Some("gdrive")
    );
    let folded = "\
ExecStart=/usr/bin/rclone mount accessit: /home/user/mounts/project \\
 --vfs-cache-mode full \\
 --cache-dir /home/user/.cache/rclone \\";
    assert_eq!(parse_rclone_remote_name(folded).as_deref(), Some("accessit"));
}

#[test]
fn remote_names_are_taken_from_remotes_only() {
    assert_eq!(remote_name_from_spec("\"gdrive:x\"").as_deref(), Some("gdrive"));
    assert_eq!(remote_name_from_spec("rclone#a:").as_deref(), Some("a"));
    for none in ["-v:x", "/a:b", "HTTP://host", "https:x", ":x", "a/b:c", "plain"] {
        assert_eq!(remote_name_from_spec(none), None, "{none}");
    }
}

#[test]
fn the_nearest_mount_names_the_remote() {
    let table = parse_mount_table("rem:dir /mnt fuse.rclone rw 0 0\nproc /proc proc rw 0 0\n");
    let lines = table.unwrap();
    assert_eq!((lines[0].source.as_str(), lines[0].target.as_str()), ("rem:dir", "/mnt"));
    assert!(parse_mount_table("rem:\n").is_none());
    let mounted = |source: &str, target: &str| Mounted {
        source: source.to_string(),
        target: path(target),
        target_len: target.len(),
    };
    let mounts = vec![
        mounted("/dev/sda1", "/"),
        mounted("outer:", "/mnt"),
        mounted("inner:", "/mnt/a"),
        mounted("beside:", "/mnt/ab"),
    ];
    assert_eq!(remote_from_mounts(&path("/mnt/a/b"), &mounts).as_deref(), Some("inner"));
    assert_eq!(remote_from_mounts(&path("/mnt/c"), &mounts).as_deref(), Some("outer"));
    assert_eq!(remote_from_mounts(&path("/srv"), &mounts), None);
    let disk_inside = vec![mounted("outer:", "/mnt"), mounted("/dev/sdb1", "/mnt/g")];
    assert_eq!(remote_from_mounts(&path("/mnt/g"), &disk_inside), None);
    assert_eq!(remote_from_mounts(&path("/mnt/h"), &disk_inside).as_deref(), Some("outer"));
    let stacked = vec![mounted("/dev/sdb1", "/mnt"), mounted("later:", "/mnt")];
    assert_eq!(remote_from_mounts(&path("/mnt"), &stacked).as_deref(), Some("later"));
    let named = remote_for_pair(Some("rclone mount unit: /mnt"), Some("table".to_string()));
    assert_eq!(named.as_deref(), Some("unit"));
    let other = remote_for_pair(Some("sleep 5"), Some("table".to_string()));
    assert_eq!(other.as_deref(), Some("table"));
    assert_eq!(remote_for_pair(None, None), None);
}

#[test]
fn content_and_metadata_trees_of_a_remote() {
    let cache = path("/c");
    let remote = path("gdrive");
    assert_eq!(vfs_content_dir(&cache, &remote), path("/c/vfs/gdrive"));
    assert_eq!(vfs_meta_dir(&cache, &remote), path("/c/vfsMeta/gdrive"));
}

#[test]
fn projection_boundary() {
    assert!(!Projection { total: 1000, used: 800, available: 200, eligible: 100 }.warns());
    assert!(Projection { total: 1000, used: 800, available: 200, eligible: 101 }.warns());
}

#[test]
fn projections_saturate() {
    let full = Projection { total: 10, used: u64::MAX, available: 0, eligible: 5 };
    assert_eq!(full.projected_used(), u64::MAX);
    assert_eq!(full.projected_free(), 10 - u64::MAX as i128);
    assert!(!Projection { total: 0, used: 1, available: 0, eligible: 1 }.warns());
    assert!(!Projection::default().warns());
    let sizes = vec![3, 5, 9];
    assert_eq!(eligible_bytes(&sizes, 4, -1), 0);
    assert_eq!(eligible_bytes(&sizes, 4, 0), 17);
    assert_eq!(eligible_bytes(&sizes, 4, 8), 5);
    assert_eq!(eligible_bytes(&vec![u64::MAX, 2], 0, 0), u64::MAX);
    let sums = aggregate_by_filesystem(&vec![
        (Some(1), 5),
        (Some(2), u64::MAX),
        (None, 100),
        (Some(1), 6),
        (Some(2), 1),
    ]);
    assert_eq!(sums.len(), 2);
    assert_eq!(sums[&1], 11);
    assert_eq!(sums[&2], u64::MAX);
}

#[test]
fn rate_limit_is_narrow() {
    for op in [
        AccessOperation::DirectoryTraversal,
        AccessOperation::MountMetadata,
        AccessOperation::MountOpen,
        AccessOperation::MountRead,
        AccessOperation::CacheMetadataPoll,
        AccessOperation::CacheOpen,
        AccessOperation::CacheRead,
    ] {
        assert!(
            classify(
                op,
                path("/synthetic"),
                "HTTP 429 user-rate-limit exceeded".to_string(),
                None,
            )
            .rate_limited
        );
        assert!(
            !classify(op, path("/synthetic"), "file size limit reached".to_string(), None)
                .rate_limited
        )
    }
}

#[test]
fn access_errors_are_described() {
    let e = classify(AccessOperation::CacheOpen, path("/x"), "denied".to_string(), Some(13));
    assert!(!e.rate_limited);
    assert_eq!(e.describe("/x"), "CacheOpen /x: denied");
    for code in [403, 429] {
        let limited = classify(AccessOperation::MountRead, path("/x"), "?".to_string(), Some(code));
        assert!(limited.rate_limited);
    }
    let shouted =
        classify(AccessOperation::MountRead, path("/x"), "QUOTA Exceeded".to_string(), None);
    assert!(shouted.rate_limited);
}

#[test]
fn different_remotes_have_different_destinations() {
    let at = |remote: &str| {
        let two = layout(&["a", "b"]);
        resolve_for_remote(
            &path("/t/mount"),
            &path("/t/cache"),
            &path("/t/mount/x"),
            Some(&path(remote)),
            &two,
        )
        .unwrap()
        .path
    };
    assert_eq!(at("a"), path("/t/cache/vfs/a/x"));
    assert_eq!(at("b"), path("/t/cache/vfs/b/x"));
}

#[test]
fn more_bytes_never_withdraw_a_warning() {
    let with = |eligible| Projection { total: 100, used: 50, available: 50, eligible };
    let mut warned = false;
    for eligible in 0..200 {
        let warns = with(eligible).warns();
        assert!(warns || !warned);
        warned = warns;
    }
    assert!(warned);
}

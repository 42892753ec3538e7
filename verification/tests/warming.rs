use warm_drive_cache::native::{Component, NativePath};
use warm_drive_cache::resolver::{resolve, VfsLayout};
use warm_drive_cache::status::ThreadWorkMode;
use warm_drive_cache::verification::{
    verify, FactsFault, FileFacts, ReadFault, StreamDigest, VerifyAction, VerifyEvent,
    VerifyOutcome, WaitOptions,
};
use warm_drive_cache::walk::{
    channel_capacity, entry_action, warm_tree, EntryAction, EntryKind, ListingFault, SendResult,
    TreeWalk, WalkerAction, WalkerEvent, WalkerPhase,
};
use warm_drive_cache::warm_log::{log_file_name, log_row, LOG_HEADER};
use warm_drive_cache::worker::{
    should_read_file_contents, should_skip_entry, warm_file_with_hook, FileAction, FileEvent,
    WarmOutcome, WarmSuccess,
};

fn path(text: &str) -> NativePath {
    let mut parts = Vec::new();
    if text.starts_with('/') {
        parts.push(Component::Root);
    }
    for name in text.split('/').filter(|n| !n.is_empty()) {
        parts.push(Component::Normal(name.as_bytes().to_vec()));
    }
    NativePath { parts }
}

fn facts(bytes: &[u8]) -> FileFacts {
    FileFacts { is_file: true, len: bytes.len() as u64, modified: Some(1) }
}

fn missing() -> FactsFault {
    FactsFault { not_found: true, text: "No such file or directory (os error 2)".to_string() }
}

/// Drives a verification over files that stay as they are, and counts its pauses.
fn verified(
    source: &[u8],
    cached: Option<&[u8]>,
    checksum: bool,
    content: bool,
    wait: WaitOptions,
) -> (VerifyOutcome, u64) {
    let mut v = verify("s", "d", checksum, content, wait);
    let mut at: usize = 0;
    let mut slept: u64 = 0;
    loop {
        let event = match v.action() {
            VerifyAction::StatSource => VerifyEvent::Facts(Ok(facts(source))),
            VerifyAction::OpenSource | VerifyAction::OpenCache => {
                at = 0;
                VerifyEvent::Opened
            }
            VerifyAction::ReadSource => {
                let end = source.len().min(at + 2);
                let chunk = source[at..end].to_vec();
                at = end;
                VerifyEvent::Chunk(chunk)
            }
            VerifyAction::StatCache => VerifyEvent::Facts(match cached {
                Some(bytes) => Ok(facts(bytes)),
                None => Err(missing()),
            }),
            VerifyAction::ReadCache => {
                let bytes = cached.unwrap();
                let end = bytes.len().min(at + 3);
                let chunk = bytes[at..end].to_vec();
                at = end;
                VerifyEvent::Chunk(chunk)
            }
            VerifyAction::Pause(ms) => {
                slept += ms;
                VerifyEvent::Woken
            }
            VerifyAction::Stop => break,
        };
        v = v.advance(event, false, slept);
    }
    (v.outcome().unwrap().clone(), slept)
}

fn short_wait() -> WaitOptions {
    WaitOptions { interval_ms: 1, timeout_ms: 20, stable_observations: 1 }
}

#[test]
fn verify_match_mismatch_disabled_and_attributes() {
    let o = short_wait();
    assert_eq!(verified(b"abc", Some(b"abc"), true, true, o).0, VerifyOutcome::Verified);
    assert_eq!(
        verified(b"abc", Some(b"abd"), true, true, o).0,
        VerifyOutcome::ChecksumMismatch
    );
    assert_eq!(
        verified(b"abc", Some(b"abd"), false, true, o).0,
        VerifyOutcome::ChecksumDisabled
    );
    assert_eq!(
        verified(b"abc", Some(b"abd"), true, false, o).0,
        VerifyOutcome::AttributesOnly
    )
}

#[test]
fn verify_empty_stream_does_not_wait_for_missing_cache_file() {
    let o = WaitOptions { interval_ms: 50, timeout_ms: 400, stable_observations: 1 };
    let (outcome, slept) = verified(b"", None, true, true, o);
    assert_eq!(outcome, VerifyOutcome::ChecksumDisabled);
    assert!(
        slept < 200,
        "zero-byte objects must not wait for a VFS cache file rclone never writes"
    );
}

#[test]
fn a_missing_cache_file_times_out() {
    let (outcome, slept) = verified(b"abc", None, true, true, short_wait());
    assert_eq!(outcome, VerifyOutcome::CacheFileTimeout);
    assert_eq!(slept, 20);
    let (outcome, slept) = verified(b"abc", Some(b"ab"), true, true, WaitOptions::default());
    assert_eq!(outcome, VerifyOutcome::CacheFileTimeout);
    assert_eq!(slept, 30_000);
}

#[test]
fn two_observations_must_agree() {
    let (outcome, slept) = verified(b"abc", Some(b"abc"), true, true, WaitOptions::default());
    assert_eq!(outcome, VerifyOutcome::Verified);
    assert_eq!(slept, 500);
}

#[test]
fn verification_faults() {
    let fresh = || verify("s", "d", true, true, short_wait());
    let at_stream = || {
        fresh()
            .advance(VerifyEvent::Facts(Ok(facts(b"abc"))), false, 0)
            .advance(VerifyEvent::Opened, false, 0)
    };
    let end = |bytes: &[u8]| {
        at_stream()
            .advance(VerifyEvent::Chunk(bytes.to_vec()), false, 0)
            .advance(VerifyEvent::Chunk(vec![]), false, 0)
    };
    let v = fresh().advance(VerifyEvent::Facts(Err(missing())), false, 0);
    assert_eq!(
        v.outcome(),
        Some(&VerifyOutcome::IoError(
            "mount metadata s: No such file or directory (os error 2)".to_string()
        ))
    );
    let torn = || VerifyEvent::Failed(ReadFault { interrupted: false, text: "torn".to_string() });
    let v = at_stream().advance(torn(), false, 0);
    assert_eq!(v.outcome(), Some(&VerifyOutcome::IoError("mount read s: torn".to_string())));
    let v = at_stream().advance(VerifyEvent::Chunk(b"a".to_vec()), true, 0);
    assert_eq!(v.streamed(), 1);
    assert_eq!(v.outcome(), Some(&VerifyOutcome::Cancelled));
    let v = end(b"ab").advance(VerifyEvent::Facts(Ok(facts(b"abc"))), false, 0);
    assert_eq!(v.outcome(), Some(&VerifyOutcome::SizeMismatch));
    let v = end(b"abcd").advance(VerifyEvent::Facts(Ok(facts(b"abcd"))), false, 0);
    assert_eq!(v.outcome(), Some(&VerifyOutcome::SourceChanged));
    let changed = FileFacts { modified: Some(2), ..facts(b"abc") };
    let v = end(b"abc")
        .advance(VerifyEvent::Facts(Ok(facts(b"abc"))), false, 0)
        .advance(VerifyEvent::Facts(Ok(facts(b"abc"))), false, 0)
        .advance(VerifyEvent::Opened, false, 0)
        .advance(VerifyEvent::Chunk(b"abc".to_vec()), false, 0)
        .advance(VerifyEvent::Chunk(vec![]), false, 0)
        .advance(VerifyEvent::Facts(Ok(changed)), false, 0);
    assert_eq!(v.outcome(), Some(&VerifyOutcome::DestinationChanged));
}

#[test]
fn stream_digests_are_blake3() {
    let mut d = StreamDigest::new();
    let empty = d.digest();
    assert_eq!(empty[..4], [0xaf, 0x13, 0x49, 0xb9]);
    assert!(d.absorb(&b"ab".to_vec()));
    assert!(d.absorb(&b"c".to_vec()));
    assert_eq!(d.count(), 3);
    let abc = d.digest();
    assert_eq!(abc[..8], [0x64, 0x37, 0xb3, 0xac, 0x38, 0x46, 0x51, 0x33]);
    assert_eq!(abc, *blake3::hash(b"abc").as_bytes());
}

#[test]
fn should_read_file_contents_zero_means_all() {
    assert!(should_read_file_contents(0, 0, 0));
    assert!(should_read_file_contents(u64::MAX, 0, 0));
    // max 0 ignores min
    assert!(should_read_file_contents(1, 100, 0));
}

#[test]
fn should_read_file_contents_minus_one_is_metadata_only() {
    assert!(!should_read_file_contents(0, 0, -1));
    assert!(!should_read_file_contents(u64::MAX, 0, -1));
}

#[test]
fn should_read_file_contents_max_only() {
    assert!(should_read_file_contents(5120, 0, 5120));
    assert!(!should_read_file_contents(5121, 0, 5120));
}

#[test]
fn should_read_file_contents_min_and_max() {
    assert!(!should_read_file_contents(4, 5, 100));
    assert!(should_read_file_contents(50, 5, 100));
    assert!(!should_read_file_contents(101, 5, 100));
}

#[test]
fn ignored_names_prune_below_the_root() {
    let names = vec![".git".to_string(), "ü".to_string()];
    assert!(!should_skip_entry(0, b".git", &names));
    assert!(should_skip_entry(1, b".git", &names));
    assert!(should_skip_entry(2, "ü".as_bytes(), &names));
    assert!(!should_skip_entry(1, b".gitx", &names));
}

/// Warms a file of `len` bytes that can be read to its end, without a cache.
fn streamed(len: u64, min: u64, max: i64) -> WarmOutcome {
    let mut w = warm_file_with_hook("f", min, max, false, 30);
    let mut left = len as usize;
    loop {
        let event = match w.action() {
            FileAction::Stat => FileEvent::Facts(Ok(len)),
            FileAction::Open => FileEvent::Opened(Ok(())),
            FileAction::Read => {
                let n = left.min(100);
                left -= n;
                FileEvent::Read(Ok(n))
            }
            FileAction::Stop => break,
            FileAction::Resolve | FileAction::Verify => unreachable!(),
        };
        w = w.advance(event).0;
    }
    w.outcome().unwrap()
}

#[test]
fn warm_file_size_gate_on_tempdir() {
    assert_eq!(streamed(64, 0, 100), WarmOutcome::ByteRead);
    assert_eq!(streamed(8192, 0, 100), WarmOutcome::MetadataOnly);
    assert_eq!(streamed(8192, 0, 0), WarmOutcome::ByteRead);
}

#[test]
fn empty_files_are_metadata_only() {
    assert_eq!(streamed(0, 0, 0), WarmOutcome::MetadataOnly);
}

#[test]
fn warm_file_error_retains_source_metadata_detail() {
    let w = warm_file_with_hook("/tmp/x/missing.txt", 0, 0, false, 30);
    assert_eq!(w.action(), FileAction::Stat);
    let cause = "No such file or directory (os error 2)".to_string();
    let (w, _) = w.advance(FileEvent::Facts(Err(cause)));
    assert_eq!(w.outcome(), Some(WarmOutcome::Error));
    let details = w.into_result().0.expect_err("missing source must fail");
    assert!(details.starts_with("source metadata "));
    assert!(details.contains("missing.txt"));
    assert!(!details.ends_with(':'));
}

/// Warms `/t/sync/a.txt` against a cache, up to its result.
fn warmed(
    bytes: &[u8],
    cached: Option<&[u8]>,
    checksum: bool,
    max: i64,
) -> (Result<WarmSuccess, String>, Option<String>) {
    let mut w = warm_file_with_hook("/t/sync/a.txt", 0, max, true, 30);
    loop {
        let event = match w.action() {
            FileAction::Stat => FileEvent::Facts(Ok(bytes.len() as u64)),
            FileAction::Resolve => {
                let names: Vec<Vec<u8>> = cached.iter().map(|_| b"remote".to_vec()).collect();
                let layout = VfsLayout { mounted: None, remotes: Ok(names) };
                let found = resolve(
                    &path("/t/sync"),
                    &path("/t/cache"),
                    &path("/t/sync/a.txt"),
                    &layout,
                )
                .and_then(|d| d.confirm(Ok(path("/t/cache")), Ok(path("/t/cache/vfs/remote"))));
                FileEvent::Resolved(match found {
                    Ok(p) => {
                        assert_eq!(p, path("/t/cache/vfs/remote/a.txt"));
                        Ok("/t/cache/vfs/remote/a.txt".to_string())
                    }
                    Err(e) => Err(e.describe("/t/sync/a.txt", "/t/cache", Some("a.txt"), None)),
                })
            }
            FileAction::Verify => FileEvent::Verified(
                verified(bytes, cached, checksum, true, WaitOptions::default()).0,
            ),
            FileAction::Stop => break,
            FileAction::Open | FileAction::Read => unreachable!(),
        };
        w = w.advance(event).0;
    }
    w.into_result()
}

#[test]
fn warm_file_honours_checksum_flag() {
    let (result, warning) = warmed(b"abc", Some(b"abd"), true, 0);
    let mismatch = result.expect_err("different contents must fail checksum verification");
    assert!(mismatch.contains("source/cache BLAKE3 checksum mismatch"));
    assert!(mismatch.contains("a.txt"));
    assert!(warning.is_some());
    assert_eq!(warmed(b"abc", Some(b"abd"), false, 0).0, Ok(WarmSuccess::ByteRead(3)));
    assert_eq!(warmed(b"abc", Some(b"abc"), true, 0).0, Ok(WarmSuccess::ByteRead(3)));
}

#[test]
fn outcomes_become_details() {
    let with = |outcome: VerifyOutcome| {
        let w = warm_file_with_hook("m", 0, 0, true, 30);
        let w = w.advance(FileEvent::Facts(Ok(3))).0;
        let w = w.advance(FileEvent::Resolved(Ok("c".to_string()))).0;
        assert_eq!(w.action(), FileAction::Verify);
        w.advance(FileEvent::Verified(outcome)).0.into_result()
    };
    let (timeout, warning) = with(VerifyOutcome::CacheFileTimeout);
    let details = "cache verification timeout: c did not appear at the expected size and remain stable within 30s";
    assert_eq!(timeout, Err(details.to_string()));
    assert_eq!(warning, Some(format!("verify m: {details}")));
    let (cancelled, warning) = with(VerifyOutcome::Cancelled);
    assert_eq!(cancelled, Err("cache verification cancelled".to_string()));
    assert_eq!(warning, None);
    assert_eq!(with(VerifyOutcome::AttributesOnly).0, Ok(WarmSuccess::MetadataOnly(3)));
    assert_eq!(
        with(VerifyOutcome::IoError("x".to_string())).0,
        Err("cache verification I/O: x".to_string())
    );
}

struct Source {
    dir: &'static str,
    name: &'static str,
    bytes: Vec<u8>,
    cached: Option<Vec<u8>>,
}

/// Walks the given directories and files with one queue that the workers empty whenever
/// the walker pauses; returns the rows of the log.
fn walk_tree(
    walk: &mut TreeWalk,
    dirs: usize,
    files: &[Source],
    failure: Option<&str>,
    max: i64,
) -> Vec<String> {
    let mut rows: Vec<String> = Vec::new();
    let mut queue: Vec<usize> = Vec::new();
    let (mut dir, mut file) = (0, 0);
    let mut failed = false;
    let mut phase = WalkerPhase::Walking;
    let mut action = WalkerAction::NextEntry;
    loop {
        let event = match action {
            WalkerAction::NextEntry => {
                if failure.is_some() && !failed {
                    failed = true;
                    WalkerEvent::Failed {
                        path: Some(path("/t/sync")),
                        shown: Some("/t/sync".to_string()),
                        cause: failure.unwrap().to_string(),
                    }
                } else if dir < dirs {
                    dir += 1;
                    WalkerEvent::Entry(EntryKind::Directory)
                } else if file < files.len() {
                    file += 1;
                    WalkerEvent::Entry(EntryKind::File)
                } else {
                    WalkerEvent::End
                }
            }
            WalkerAction::List => WalkerEvent::Listed(None),
            WalkerAction::TrySend => {
                queue.push(file - 1);
                WalkerEvent::Sent {
                    result: SendResult::Sent,
                    dir: files[file - 1].dir.to_string(),
                    filename: files[file - 1].name.to_string(),
                }
            }
            WalkerAction::Pause => {
                for k in queue.drain(..) {
                    let f = &files[k];
                    assert!(walk.take_file(false));
                    let (result, warning) =
                        warmed(&f.bytes, f.cached.as_deref(), true, max);
                    let size = f.bytes.len() as u64;
                    walk.classified(0, size, ThreadWorkMode::ByteRead, f.name.to_string());
                    walk.progress(0, size);
                    rows.push(walk.finish_file(
                        0,
                        result,
                        warning,
                        Some(size),
                        f.dir,
                        f.name,
                    ));
                }
                WalkerEvent::Woken
            }
            WalkerAction::Stop => break,
        };
        let (news, next, wanted) = warm_tree(walk, phase, event, false);
        if let Some(row) = news.row {
            rows.push(row);
        }
        phase = next;
        action = wanted;
    }
    assert_eq!(phase, WalkerPhase::Finished);
    rows
}

#[test]
fn warm_tree_processes_mixed_files() {
    let mut walk = TreeWalk::new("/t/sync", 2, 80, "demo.service");
    let files = [
        Source { dir: "/t/sync", name: "a.txt", bytes: b"hi".to_vec(), cached: Some(b"hi".to_vec()) },
        Source { dir: "/t/sync/sub", name: "b.txt", bytes: vec![1u8; 200], cached: None },
    ];
    let rows = walk_tree(&mut walk, 2, &files, None, 50);
    assert!(walk.status.render(0, true, 120, 40).is_some());
    assert!(!walk.status.finish_line().is_empty());
    let status = &walk.status;
    assert_eq!(status.files, 2);
    assert_eq!(status.byte_reads, 1);
    assert_eq!(status.metadata_only, 1);
    assert_eq!(status.errors, 0);
    assert!(!status.cancelled);
    assert!(status.dirs >= 1);
    assert_eq!(rows.len(), 2);
    assert!(rows.iter().any(|row| row.starts_with("\"demo.service\",")
        && row.ends_with(",\"a.txt\",2,\"READ\",\"\"")));
    assert!(rows.iter().any(|row| {
        row.starts_with("\"demo.service\",") && row.ends_with(",\"b.txt\",200,\"ATTRIB\",\"\"")
    }));
}

#[test]
fn warm_tree_logs_resolver_error_with_known_size() {
    let mut walk = TreeWalk::new("/t/sync", 1, 80, "demo.service");
    let files =
        [Source { dir: "/t/sync", name: "a.txt", bytes: b"abc".to_vec(), cached: None }];
    let rows = walk_tree(&mut walk, 1, &files, None, 0);
    walk.status.finish_line();
    assert_eq!(walk.status.files, 1);
    assert_eq!(walk.status.errors, 1);
    assert_eq!(walk.status.byte_reads, 0);
    assert_eq!(walk.status.metadata_only, 0);
    let text = rows.join("\n");
    assert!(text.contains("\"demo.service\","));
    assert!(text.contains(",\"a.txt\",3,\"ERROR\","));
    assert!(text.contains("cache path resolution:"));
    assert_eq!(text.matches(",\"ERROR\",").count(), walk.status.errors);
    assert_eq!(walk.status.warnings.len(), 1);
}

#[test]
fn warm_tree_retains_and_logs_traversal_error_count() {
    let mut walk = TreeWalk::new("/t/missing-sync-root", 1, 80, "demo.service");
    let cause = "IO error for operation on /t/missing-sync-root: No such file or directory";
    let rows = walk_tree(&mut walk, 0, &[], Some(cause), 0);
    walk.status.finish_line();
    assert_eq!(walk.status.files, 0);
    assert_eq!(walk.status.errors, 1);
    let text = rows.join("\n");
    assert!(text.contains("\"demo.service\","));
    assert!(text.contains(",\"\",,\"ERROR\",\"directory traversal:"));
    assert_eq!(text.matches(",\"ERROR\",").count(), walk.status.errors);
}

#[test]
fn a_failed_listing_is_counted_once() {
    let mut walk = TreeWalk::new("/t", 1, 80, "s");
    let (_, phase, _) =
        warm_tree(&mut walk, WalkerPhase::Walking, WalkerEvent::Entry(EntryKind::Directory), false);
    let fault = ListingFault {
        path: path("/t/d"),
        shown: "/t/d".to_string(),
        cause: "denied".to_string(),
    };
    let (news, phase, _) =
        warm_tree(&mut walk, phase, WalkerEvent::Listed(Some(fault)), false);
    assert!(news.row.unwrap().contains("directory listing /t/d: denied"));
    let again = WalkerEvent::Failed {
        path: Some(path("/t/d")),
        shown: Some("/t/d".to_string()),
        cause: "denied".to_string(),
    };
    let (news, _, action) = warm_tree(&mut walk, phase, again, false);
    assert!(news.row.is_none());
    assert_eq!(walk.status.errors, 1);
    assert_eq!(action, WalkerAction::NextEntry);
}

#[test]
fn a_stop_queues_nothing_and_a_full_queue_is_retried() {
    let mut walk = TreeWalk::new("/t", 1, 80, "s");
    assert_eq!(entry_action(true, EntryKind::File), EntryAction::Stop);
    assert_eq!(entry_action(false, EntryKind::Other), EntryAction::Ignore);
    let file = || WalkerEvent::Entry(EntryKind::File);
    let (_, phase, action) = warm_tree(&mut walk, WalkerPhase::Walking, file(), false);
    assert_eq!(action, WalkerAction::TrySend);
    let sent = |result| WalkerEvent::Sent {
        result,
        dir: "/t".to_string(),
        filename: "f".to_string(),
    };
    let (news, phase, action) = warm_tree(&mut walk, phase, sent(SendResult::Full), false);
    assert_eq!(action, WalkerAction::Pause);
    assert_eq!(news.render, Some(true));
    let (_, phase, action) = warm_tree(&mut walk, phase, WalkerEvent::Woken, false);
    assert_eq!(action, WalkerAction::TrySend);
    let (news, _, _) = warm_tree(&mut walk, phase, sent(SendResult::Disconnected), false);
    assert!(news
        .row
        .unwrap()
        .contains("worker queue disconnected before file dispatch"));
    assert!(news.close_queue);
    assert_eq!(walk.status.errors, 1);

    let mut stopped = TreeWalk::new("/t", 1, 80, "s");
    let (news, phase, _) = warm_tree(&mut stopped, WalkerPhase::Walking, file(), true);
    assert!(news.close_queue);
    assert_eq!(phase, WalkerPhase::Finished);
    assert!(stopped.status.cancelled);
    assert_eq!(stopped.status.files, 0);
}

#[test]
fn queues_hold_four_files_per_worker() {
    assert_eq!(channel_capacity(8), 32);
    assert_eq!(channel_capacity(0), 4);
    assert_eq!(channel_capacity(usize::MAX), usize::MAX);
}

#[test]
fn log_rows_are_quoted() {
    assert_eq!(LOG_HEADER.split(',').count(), 6);
    assert_eq!(
        log_row("s", "/a \"b\"", "f,g", Some(3), "READ", ""),
        "\"s\",\"/a \"\"b\"\"\",\"f,g\",3,\"READ\",\"\""
    );
    assert_eq!(log_row("", "", "", None, "ERROR", "x"), "\"\",\"\",\"\",,\"ERROR\",\"x\"");
    assert_eq!(
        log_file_name("20260813-010203", None),
        "warm-drive-cache-20260813-010203.csv"
    );
    assert!(log_file_name("20260813-010203", Some(77)).contains("77"));
}

#[test]
fn log_fields_are_read_back() {
    for field in ["", "plain", "\"", "a\"\"b,c", "\"x\""] {
        let row = log_row(field, "", "", None, "", "");
        let rest = ",\"\",\"\",,\"\",\"\"";
        let quoted = row.strip_suffix(rest).unwrap();
        let inner = quoted.strip_prefix('"').unwrap().strip_suffix('"').unwrap();
        assert_eq!(inner.replace("\"\"", "\""), field);
    }
}

#[test]
fn the_width_of_a_walk_lengthens_the_filename_field() {
    for (width, chars) in [(0, 40), (80, 40), (100, 60), (200, 160), (500, 160)] {
        assert_eq!(TreeWalk::new("/t", 1, width, "").status.path_max, chars, "{width}");
    }
}

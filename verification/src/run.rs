//! A maintenance run from the loaded configuration to the released locks, and JSON
//! validation.
//!
//! The order of a run is decided here: one lock per distinct cache before anything is
//! inspected or changed, then the pairs one after the other, and the locks released
//! last. A pair's cache is emptied only after its metadata was found clean, and never
//! in a dry run.

use vstd::prelude::*;
use vstd::string::StringExecFns;

use crate::cache_ops;
use crate::cache_ops::{format_bytes, format_max_file_size_limit, purge, CacheNode, Deletion};
use crate::capacity;
use crate::capacity::{capacity_warnings, PairSurvey};
use crate::cleanup;
use crate::cleanup::exit_summary_lines;
use crate::config;
use crate::config::{validate_effective, Config, PathPair, WalkOptions};
use crate::dirty_check;
use crate::dirty_check::metadata_root;
use crate::native;
use crate::native::NativePath;
use crate::report;
use crate::report::{alert, concat, glue, no_lines, out, out_all, Line, Shown};
use crate::resolver;
use crate::startup;
use crate::startup::{banner_lines, loaded_config_lines, CliOverrides, MOUNT_MODIFICATION_WARNING};
use crate::text;
use crate::text::{str_eq, usize_text};

verus! {

/// The walk options with the overrides in place of the configured values.
pub open spec fn overridden(walk: WalkOptions, o: CliOverrides) -> WalkOptions {
    WalkOptions {
        max_threads: match o.threads {
            Some(n) => n,
            None => walk.max_threads,
        },
        max_file_size_bytes: match o.size {
            Some(n) => n,
            None => walk.max_file_size_bytes,
        },
        checksum: match o.checksum {
            Some(b) => b,
            None => walk.checksum,
        },
        width: match o.width {
            Some(n) => n,
            None => walk.width,
        },
        ..walk
    }
}

/// A configuration with the overrides in place.
pub open spec fn effective_config(cfg: Config, o: CliOverrides) -> Config {
    Config { walk: overridden(cfg.walk, o), ..cfg }
}

/// Replace configured values by those of the command line, and validate the result.
pub fn apply_overrides(cfg: &mut Config, o: CliOverrides) -> (r: Result<(), String>)
    ensures
        *final(cfg) == effective_config(*old(cfg), o),
        match r {
            Ok(_) => config::effective_fault(final(cfg).walk) is None,
            Err(m) => config::effective_fault(final(cfg).walk) == Some(m@),
        },
{
    if let Some(n) = o.threads {
        cfg.walk.max_threads = n;
    }
    if let Some(n) = o.size {
        cfg.walk.max_file_size_bytes = n;
    }
    if let Some(b) = o.checksum {
        cfg.walk.checksum = b;
    }
    if let Some(n) = o.width {
        cfg.walk.width = n;
    }
    validate_effective(cfg)
}

/// The final summary, as lines for standard output.
pub open spec fn farewell(stopped_early: bool) -> Seq<Shown> {
    report::all_out(cleanup::summary_text(stopped_early))
}

/// The safety warning as a line of its own.
pub open spec fn safety_line() -> Seq<Shown> {
    seq![Shown::Out(MOUNT_MODIFICATION_WARNING@)]
}

fn say_farewell(stopped_early: bool) -> (v: Vec<Line>)
    ensures
        report::shown(v@) == farewell(stopped_early),
{
    out_all(exit_summary_lines(stopped_early))
}

fn say_safety() -> (v: Vec<Line>)
    ensures
        report::shown(v@) == safety_line(),
{
    let mut v = no_lines();
    out(&mut v, MOUNT_MODIFICATION_WARNING);
    v
}

/// The banner, as lines for standard output.
pub open spec fn greeting() -> Seq<Shown> {
    report::all_out(startup::banner_text())
}

fn say_greeting() -> (v: Vec<Line>)
    ensures
        report::shown(v@) == greeting(),
{
    out_all(banner_lines())
}

/// How JSON validation goes on once the configuration was looked for.
#[derive(Debug)]
pub enum CheckStart {
    /// Report on this configuration.
    Report(Config),
    /// Stop with a failure.
    Stop,
}

/// The lines of a validation that cannot start.
pub open spec fn check_refusal(loaded: Result<Config, String>, o: CliOverrides) -> Option<
    Seq<Shown>,
> {
    match loaded {
        Err(e) => Some(
            seq![
                Shown::Alert("❌ warm-drive-cache configuration error: "@ + e@),
                Shown::Alert(
                    "   Place warm-drive-cache.json next to the executable, or set WARM_DRIVE_CACHE_CONFIG."@,
                ),
            ] + farewell(false) + safety_line(),
        ),
        Ok(cfg) => match config::effective_fault(overridden(cfg.walk, o)) {
            Some(m) => Some(
                seq![Shown::Alert("❌ effective configuration error: "@ + m)] + safety_line(),
            ),
            None => if cfg.paths@.len() == 0 {
                Some(
                    seq![Shown::Alert("❌ No paths configured in warm-drive-cache.json."@)]
                        + farewell(false) + safety_line(),
                )
            } else {
                None
            },
        },
    }
}

/// Begin JSON validation: the lines to print so far, and what to report on.
pub fn begin_check(loaded: Result<Config, String>, overrides: CliOverrides) -> (r: (
    Vec<Line>,
    CheckStart,
))
    ensures
        match check_refusal(loaded, overrides) {
            Some(lines) => r.1 is Stop && report::shown(r.0@) == greeting() + lines,
            None => r.1 == CheckStart::Report(effective_config(loaded->Ok_0, overrides))
                && report::shown(r.0@) == greeting(),
        },
{
    let lines = say_greeting();
    let mut faults = no_lines();
    let mut cfg = match loaded {
        Ok(c) => c,
        Err(e) => {
            alert(
                &mut faults,
                glue("❌ warm-drive-cache configuration error: ", e.as_str()).as_str(),
            );
            alert(
                &mut faults,
                "   Place warm-drive-cache.json next to the executable, or set WARM_DRIVE_CACHE_CONFIG.",
            );
            let faults = concat(concat(faults, say_farewell(false)), say_safety());
            return (concat(lines, faults), CheckStart::Stop);
        },
    };
    if let Err(m) = apply_overrides(&mut cfg, overrides) {
        alert(&mut faults, glue("❌ effective configuration error: ", m.as_str()).as_str());
        return (concat(lines, concat(faults, say_safety())), CheckStart::Stop);
    }
    if cfg.paths.len() == 0 {
        alert(&mut faults, "❌ No paths configured in warm-drive-cache.json.");
        let faults = concat(concat(faults, say_farewell(false)), say_safety());
        return (concat(lines, faults), CheckStart::Stop);
    }
    (lines, CheckStart::Report(cfg))
}

/// The lines that end JSON validation.
pub fn end_check() -> (v: Vec<Line>)
    ensures
        report::shown(v@) == farewell(false) + safety_line(),
{
    concat(say_farewell(false), say_safety())
}

/// The last line of JSON validation is the safety warning, whether it reports or is
/// refused.
pub proof fn law_check_ends_with_warning(loaded: Result<Config, String>, o: CliOverrides)
    ensures
        check_refusal(loaded, o) matches Some(lines) ==> lines.len() > 0 && lines.last()
            == Shown::Out(MOUNT_MODIFICATION_WARNING@),
        (farewell(false) + safety_line()).last() == Shown::Out(MOUNT_MODIFICATION_WARNING@),
{
}

/// Where a run stands. A number is the index of the pair that is being worked on.
#[derive(Debug, Clone, Copy, PartialEq, Eq, Structural)]
pub enum RunPhase {
    Starting,
    /// Waiting for the configuration.
    Loading,
    /// Waiting for the handler of interrupts.
    Guarding,
    /// Waiting for the lock of a cache.
    Locking(usize),
    /// Waiting for the log.
    Logging,
    /// Waiting for the pre-flight check of a pair.
    Checking(usize),
    /// Waiting for the size of a cache.
    Measuring(usize),
    /// Waiting for the simulated deletion; with the size of the cache.
    Simulating(usize, u64),
    /// Waiting for the listener to the quit key.
    Listening(usize),
    /// Waiting for the metadata of a cache to be clean.
    Cleaning(usize),
    /// Waiting for the deletion.
    Deleting(usize),
    /// Waiting for the survey of the pairs that are still to be warmed.
    Surveying(usize),
    /// Waiting for the walk over a sync directory.
    Warming(usize),
    /// Waiting for the terminal to be restored and the log to be flushed.
    Closing,
    /// Waiting for the locks to be removed.
    Releasing,
    Finished,
}

/// What the caller of a run is to do.
#[derive(Debug, Clone, Copy, PartialEq, Eq, Structural)]
pub enum RunAction {
    LoadConfig,
    InstallSigint,
    /// Acquire the lock of the cache of a pair.
    AcquireLock(usize),
    CreateLog,
    /// Run the pre-flight check of a pair.
    Preflight(usize),
    /// Measure the cache of a pair, and find its remote.
    Measure(usize),
    /// List what a deletion would remove, without removing it.
    SimulateDelete(usize),
    /// Install a listener to the quit key, if the terminal allows it.
    ListenForQuit,
    /// Wait until the metadata of the cache of a pair is clean.
    WaitClean(usize),
    /// Delete the contents of the cache of a pair, and measure it.
    Delete(usize),
    /// Measure the files and the file systems of a pair and of those after it.
    Survey(usize),
    /// Walk the sync directory of a pair, erase the live block, and measure the cache.
    Warm(usize),
    /// Restore the terminal and flush the log.
    Close,
    ReleaseLocks,
    /// Exit, with success or not.
    Exit(bool),
}

/// What a walk over a sync directory came to.
#[derive(Debug)]
pub struct WarmReport {
    pub dirs: usize,
    pub files: usize,
    pub byte_reads: usize,
    pub metadata_only: usize,
    pub errors: usize,
    pub cancelled: bool,
    /// Warnings held back while the live block was shown.
    pub warnings: Vec<String>,
    /// The size of the cache after the walk.
    pub after: u64,
}

/// What the caller of a run reports.
#[derive(Debug)]
pub enum RunEvent {
    Begin,
    Loaded(Result<Config, String>),
    /// What was asked for is done.
    Done,
    /// The lock file of a cache, as displayed, or why there is none.
    Locked(Result<String, String>),
    /// The log file, as displayed, or why there is none.
    LogReady(Result<String, String>),
    /// Whether a pair may be processed.
    Preflighted(bool),
    /// The size of a cache, and the remote of its pair, where it is known.
    Measured { before: u64, remote: Option<String> },
    /// The bytes that a deletion would take.
    Simulated(u64),
    /// Whether a listener to the quit key was installed.
    Listening(bool),
    /// The metadata is clean, or why the wait ended.
    Clean(Result<(), String>),
    /// The bytes deleted, and the size of the cache after that.
    Deleted { deleted: u64, after: u64 },
    /// What was found for the pair and for those after it, in their order.
    Surveyed(Vec<PairSurvey>),
    Warmed(WarmReport),
}

/// What a run was asked for.
#[derive(Debug, Clone, Copy, PartialEq, Eq, Structural)]
pub struct RunTask {
    pub dry_run: bool,
    pub verbose: bool,
    pub log: bool,
    pub overrides: CliOverrides,
}

/// The state of a run.
pub struct Course {
    pub phase: RunPhase,
    pub config: Option<Config>,
    /// The pairs whose cache was locked.
    pub locked: Seq<usize>,
    pub log_path: Option<Seq<char>>,
    /// The remote of the pair that is being worked on, where it is known.
    pub remote: Option<Seq<char>>,
    /// A listener to the quit key was installed.
    pub listening: bool,
    /// The pairs were surveyed.
    pub surveyed: bool,
    /// The run fails though it comes to its end.
    pub failed: bool,
}

/// A maintenance run.
#[derive(Debug)]
pub struct Run {
    pub task: RunTask,
    pub phase: RunPhase,
    pub config: Option<Config>,
    pub locked: Vec<usize>,
    pub log_path: Option<String>,
    pub remote: Option<String>,
    pub listening: bool,
    pub surveyed: bool,
    pub failed: bool,
}

impl View for Run {
    type V = Course;

    open spec fn view(&self) -> Course {
        Course {
            phase: self.phase,
            config: self.config,
            locked: self.locked@,
            log_path: text::opt_view(self.log_path),
            remote: text::opt_view(self.remote),
            listening: self.listening,
            surveyed: self.surveyed,
            failed: self.failed,
        }
    }
}

/// The remote of the pair that is being worked on, as a file name.
pub open spec fn remote_bytes(c: Course) -> Option<Seq<u8>> {
    match c.remote {
        Some(name) => Some(native::utf8(name)),
        None => None,
    }
}

/// The pairs of a run.
pub open spec fn pairs(config: Option<Config>) -> Seq<PathPair> {
    match config {
        Some(cfg) => cfg.paths@,
        None => Seq::empty(),
    }
}

/// No earlier pair has the cache of pair `i`.
pub open spec fn first_with_cache(paths: Seq<PathPair>, i: int) -> bool {
    forall|j: int| 0 <= j < i ==> #[trigger] paths[j].cache@ != paths[i].cache@
}

/// The first pair from `i` on whose cache no earlier pair has; the number of pairs where
/// there is none.
pub open spec fn next_to_lock(paths: Seq<PathPair>, i: int) -> int
    decreases paths.len() - i,
{
    if i >= paths.len() {
        paths.len() as int
    } else if first_with_cache(paths, i) {
        i
    } else {
        next_to_lock(paths, i + 1)
    }
}

/// The effect of one report on a run.
pub struct RunMove {
    pub course: Course,
    pub lines: Seq<Shown>,
    pub action: RunAction,
}

/// The run goes on in another phase.
pub open spec fn moved(c: Course, phase: RunPhase, lines: Seq<Shown>, action: RunAction) -> RunMove {
    RunMove { course: Course { phase, ..c }, lines, action }
}

/// The run ends with a failure before anything was locked.
pub open spec fn refused(c: Course, lines: Seq<Shown>) -> RunMove {
    moved(Course { failed: true, ..c }, RunPhase::Finished, lines, RunAction::Exit(false))
}

/// The run fails with locks held.
pub open spec fn released(c: Course, lines: Seq<Shown>) -> RunMove {
    moved(Course { failed: true, ..c }, RunPhase::Releasing, lines, RunAction::ReleaseLocks)
}

/// The configuration could not be loaded.
pub open spec fn load_failed(e: Seq<char>) -> Seq<Shown> {
    seq![
        Shown::Alert("❌ warm-drive-cache configuration error: "@ + e),
        Shown::Alert(
            "   Typical location: warm-drive-cache.json next to the binary (run directory)"@,
        ),
        Shown::Alert(
            "   Copy from warm-drive-cache-example.json and set your local paths (warm-drive-cache.json is gitignored)."@,
        ),
        Shown::Alert(
            "   Override with: WARM_DRIVE_CACHE_CONFIG=/path/to/warm-drive-cache.json"@,
        ),
        Shown::Alert("   See the configuration section in the README."@),
    ] + farewell(false)
}

/// The configuration names no pair.
pub open spec fn no_pairs() -> Seq<Shown> {
    seq![
        Shown::Alert("❌ No paths configured."@),
        Shown::Alert(
            "   Create warm-drive-cache.json (gitignored) from warm-drive-cache-example.json with at least one path pair (sync, cache, optional service)."@,
        ),
        Shown::Alert("   Example is documented in the README."@),
    ] + farewell(false)
}

/// The configuration arrived.
pub open spec fn on_loaded(task: RunTask, c: Course, loaded: Result<Config, String>) -> RunMove {
    match loaded {
        Err(e) => refused(c, load_failed(e@)),
        Ok(cfg) => {
            let c = Course { config: Some(effective_config(cfg, task.overrides)), ..c };
            match config::effective_fault(overridden(cfg.walk, task.overrides)) {
                Some(m) => refused(
                    c,
                    seq![Shown::Alert("❌ effective configuration error: "@ + m)],
                ),
                None => if cfg.paths@.len() == 0 {
                    refused(c, no_pairs())
                } else {
                    moved(
                        c,
                        RunPhase::Guarding,
                        Seq::empty(),
                        RunAction::InstallSigint,
                    )
                },
            }
        },
    }
}

/// On to pair `i`, unless a stop was requested or there is no such pair.
pub open spec fn to_pair(c: Course, lines: Seq<Shown>, i: int, shutdown: bool) -> RunMove {
    if i >= pairs(c.config).len() {
        moved(c, RunPhase::Closing, lines, RunAction::Close)
    } else if shutdown {
        moved(
            c,
            RunPhase::Closing,
            lines.push(Shown::Out(""@)).push(
                Shown::Out("⏹  Shutdown requested — skipping remaining path pairs."@),
            ),
            RunAction::Close,
        )
    } else {
        moved(c, RunPhase::Checking(i as usize), lines, RunAction::Preflight(i as usize))
    }
}

/// On to the next lock from pair `i` on; where there is none, on to the log or the
/// pairs, after a verbose run has shown the configuration.
pub open spec fn to_lock(
    task: RunTask,
    c: Course,
    lines: Seq<Shown>,
    i: int,
    shutdown: bool,
) -> RunMove {
    let k = next_to_lock(pairs(c.config), i);
    if k < pairs(c.config).len() {
        moved(c, RunPhase::Locking(k as usize), lines, RunAction::AcquireLock(k as usize))
    } else {
        let lines = if task.verbose && c.config is Some {
            lines + report::all_out(startup::config_text(c.config->0))
        } else {
            lines
        };
        if task.log {
            moved(c, RunPhase::Logging, lines, RunAction::CreateLog)
        } else {
            to_pair(c, lines, 0, shutdown)
        }
    }
}

/// The lines about a pair before its cache is changed.
pub open spec fn pair_head(cfg: Config, i: int, before: u64) -> Seq<Shown> {
    let pair = cfg.paths@[i];
    let head = Seq::<Shown>::empty().push(Shown::Out(""@)).push(
        Shown::Out("📂 Sync dir (traverse/warm only): "@ + pair.sync@),
    ).push(Shown::Out("   Cache dir (size/delete only): "@ + pair.cache@)).push(
        Shown::Out(
            "   Checksum verification: "@ + (if cfg.walk.checksum {
                "enabled"@
            } else {
                "disabled"@
            }),
        ),
    );
    (match pair.service {
        Some(s) => head.push(Shown::Out("   systemd unit: "@ + s@)),
        None => head,
    }).push(Shown::Out("   Before size (cache): "@ + cache_ops::bytes_text(before as nat)))
}

/// What a dry run says before it lists what would go.
pub open spec fn simulating_line() -> Shown {
    Shown::Out("   --dry-run enabled: simulating full deletion (no changes made)"@)
}

/// What a dry run says after it has listed what would go: the size of what would stay.
pub open spec fn simulated_line(before: u64, planned: u64) -> Shown {
    Shown::Out(
        "   After size (simulated, cache): "@ + cache_ops::bytes_text(
            if planned > before {
                0
            } else {
                (before - planned) as nat
            },
        ),
    )
}

/// What is said before the metadata is scanned.
pub open spec fn scanning_line() -> Shown {
    Shown::Out("   Checking rclone vfsMeta entries for unsaved files..."@)
}

/// The size of a cache was measured, and the remote of its pair found.
pub open spec fn on_measured(
    task: RunTask,
    c: Course,
    i: usize,
    before: u64,
    remote: Option<Seq<char>>,
) -> RunMove {
    let c = Course { remote, ..c };
    let head = pair_head(c.config->0, i as int, before);
    if task.dry_run {
        moved(
            c,
            RunPhase::Simulating(i, before),
            head.push(simulating_line()),
            RunAction::SimulateDelete(i),
        )
    } else if !c.listening {
        moved(c, RunPhase::Listening(i), head, RunAction::ListenForQuit)
    } else {
        moved(c, RunPhase::Cleaning(i), head.push(scanning_line()), RunAction::WaitClean(i))
    }
}

/// The wait for clean metadata ended.
pub open spec fn on_clean(c: Course, i: usize, result: Result<(), String>) -> RunMove {
    match result {
        Err(e) => moved(
            Course { failed: true, ..c },
            RunPhase::Closing,
            seq![Shown::Alert("❌ Cache purge cancelled: "@ + e@)],
            RunAction::Close,
        ),
        Ok(_) => moved(
            c,
            RunPhase::Deleting(i),
            seq![
                Shown::Out("   ✓ No Dirty=true rclone metadata entries remain."@),
                Shown::Out(
                    "   Performing complete deletion of all files and subdirectories in cache dir..."@,
                ),
            ],
            RunAction::Delete(i),
        ),
    }
}

/// The line after a deletion.
pub open spec fn deleted_line(deleted: u64, after: u64) -> Shown {
    Shown::Out(
        "   After deletion size (cache): "@ + cache_ops::bytes_text(after as nat) + " (deleted "@
            + cache_ops::bytes_text(deleted as nat) + ")"@,
    )
}

/// The lines before the walk.
pub open spec fn walking_lines(walk: WalkOptions) -> Seq<Shown> {
    seq![
        Shown::Out(
            "   Walking sync dir (max_threads="@ + text::decimal(walk.max_threads as nat)
                + ", min_size="@ + cache_ops::bytes_text(walk.min_file_size_bytes as nat)
                + ", max_size="@ + cache_ops::max_size_text(walk.max_file_size_bytes as int)
                + ")..."@,
        ),
        Shown::Out(MOUNT_MODIFICATION_WARNING@),
        Shown::Out(""@),
    ]
}

/// A cache was emptied: before the first walk of a run the pairs that are still to be
/// warmed are surveyed.
pub open spec fn on_deleted(c: Course, i: usize, deleted: u64, after: u64) -> RunMove {
    let lines = seq![deleted_line(deleted, after)];
    if c.surveyed {
        moved(
            c,
            RunPhase::Warming(i),
            lines + walking_lines(c.config->0.walk),
            RunAction::Warm(i),
        )
    } else {
        moved(c, RunPhase::Surveying(i), lines, RunAction::Survey(i))
    }
}

/// The pairs from `i` on were surveyed: there may be warnings, and the walk begins.
pub open spec fn on_surveyed(c: Course, i: usize, list: Seq<PairSurvey>) -> RunMove {
    let cfg = c.config->0;
    moved(
        Course { surveyed: true, ..c },
        RunPhase::Warming(i),
        capacity::survey_warnings(
            cfg.paths@,
            i as int,
            list,
            cfg.walk,
            capacity::surveyed_pairs(cfg.paths@, i as int, list),
        ) + walking_lines(cfg.walk),
        RunAction::Warm(i),
    )
}

/// The warnings of a walk, in their order.
pub open spec fn warning_lines(warnings: Seq<String>) -> Seq<Shown> {
    warnings.map_values(|w: String| Shown::Alert("   ⚠️  "@ + w@))
}

/// The lines after a walk.
pub open spec fn warmed_lines(w: WarmReport) -> Seq<Shown> {
    let counts = warning_lines(w.warnings@).push(
        Shown::Out("   Size after warming (cache): "@ + cache_ops::bytes_text(w.after as nat)),
    ).push(Shown::Out("   Directories processed: "@ + text::decimal(w.dirs as nat))).push(
        Shown::Out("   Files processed: "@ + text::decimal(w.files as nat)),
    ).push(Shown::Out("   File contents read: "@ + text::decimal(w.byte_reads as nat))).push(
        Shown::Out("   Metadata-only: "@ + text::decimal(w.metadata_only as nat)),
    ).push(Shown::Out("   Errors: "@ + text::decimal(w.errors as nat)));
    if w.cancelled {
        counts.push(
            Shown::Out(
                "   Stopped early (SIGINT or q) — in-flight workers finished; no new files started."@,
            ),
        )
    } else {
        counts
    }
}

/// The last lines of a run.
pub open spec fn closing_lines(log_path: Option<Seq<char>>, shutdown: bool) -> Seq<Shown> {
    match log_path {
        Some(p) => farewell(shutdown).push(Shown::Out(""@)).push(
            Shown::Out("CSV log written to: "@ + p),
        ),
        None => farewell(shutdown),
    }
}

/// What the caller is to do in a phase when nothing else is decided.
pub open spec fn run_usual(c: Course) -> RunAction {
    match c.phase {
        RunPhase::Starting => RunAction::LoadConfig,
        RunPhase::Loading => RunAction::LoadConfig,
        RunPhase::Guarding => RunAction::InstallSigint,
        RunPhase::Locking(i) => RunAction::AcquireLock(i),
        RunPhase::Logging => RunAction::CreateLog,
        RunPhase::Checking(i) => RunAction::Preflight(i),
        RunPhase::Measuring(i) => RunAction::Measure(i),
        RunPhase::Simulating(i, _) => RunAction::SimulateDelete(i),
        RunPhase::Listening(_) => RunAction::ListenForQuit,
        RunPhase::Cleaning(i) => RunAction::WaitClean(i),
        RunPhase::Deleting(i) => RunAction::Delete(i),
        RunPhase::Surveying(i) => RunAction::Survey(i),
        RunPhase::Warming(i) => RunAction::Warm(i),
        RunPhase::Closing => RunAction::Close,
        RunPhase::Releasing => RunAction::ReleaseLocks,
        RunPhase::Finished => RunAction::Exit(!c.failed),
    }
}

/// The steps of a run.
pub open spec fn run_move(task: RunTask, c: Course, event: RunEvent, shutdown: bool) -> RunMove {
    let none = Seq::<Shown>::empty();
    match (c.phase, event) {
        (RunPhase::Starting, RunEvent::Begin) => moved(
            c,
            RunPhase::Loading,
            greeting(),
            RunAction::LoadConfig,
        ),
        (RunPhase::Loading, RunEvent::Loaded(loaded)) => on_loaded(task, c, loaded),
        (RunPhase::Guarding, RunEvent::Done) => to_lock(task, c, none, 0, shutdown),
        (RunPhase::Locking(_), RunEvent::Locked(Err(e))) => released(
            c,
            seq![Shown::Alert("❌ Concurrency protection: "@ + e@)] + farewell(true),
        ),
        (RunPhase::Locking(i), RunEvent::Locked(Ok(path))) => to_lock(
            task,
            Course { locked: c.locked.push(i), ..c },
            if task.verbose {
                seq![Shown::Out("   Concurrency lock: "@ + path@)]
            } else {
                none
            },
            i as int + 1,
            shutdown,
        ),
        (RunPhase::Logging, RunEvent::LogReady(Err(e))) => released(
            c,
            seq![Shown::Alert("❌ warm-drive-cache log error: "@ + e@)] + farewell(false),
        ),
        (RunPhase::Logging, RunEvent::LogReady(Ok(path))) => to_pair(
            Course { log_path: Some(path@), ..c },
            seq![Shown::Out("   CSV log: "@ + path@)],
            0,
            shutdown,
        ),
        (RunPhase::Checking(i), RunEvent::Preflighted(go)) => if go {
            moved(c, RunPhase::Measuring(i), none, RunAction::Measure(i))
        } else {
            to_pair(c, none, i as int + 1, shutdown)
        },
        (RunPhase::Measuring(i), RunEvent::Measured { before, remote }) => on_measured(
            task,
            c,
            i,
            before,
            text::opt_view(remote),
        ),
        (RunPhase::Simulating(i, before), RunEvent::Simulated(planned)) => to_pair(
            c,
            seq![simulated_line(before, planned)],
            i as int + 1,
            shutdown,
        ),
        (RunPhase::Listening(i), RunEvent::Listening(installed)) => moved(
            Course { listening: installed, ..c },
            RunPhase::Cleaning(i),
            seq![scanning_line()],
            RunAction::WaitClean(i),
        ),
        (RunPhase::Cleaning(i), RunEvent::Clean(result)) => on_clean(c, i, result),
        (RunPhase::Deleting(i), RunEvent::Deleted { deleted, after }) => on_deleted(
            c,
            i,
            deleted,
            after,
        ),
        (RunPhase::Surveying(i), RunEvent::Surveyed(list)) => on_surveyed(c, i, list@),
        (RunPhase::Warming(i), RunEvent::Warmed(w)) => to_pair(
            c,
            warmed_lines(w),
            i as int + 1,
            shutdown,
        ),
        (RunPhase::Closing, RunEvent::Done) => moved(
            c,
            RunPhase::Releasing,
            closing_lines(c.log_path, shutdown),
            RunAction::ReleaseLocks,
        ),
        (RunPhase::Releasing, RunEvent::Done) => moved(
            c,
            RunPhase::Finished,
            none,
            RunAction::Exit(!c.failed),
        ),
        _ => RunMove { course: c, lines: none, action: run_usual(c) },
    }
}

/// A run whose phase speaks of a pair has such a pair.
pub open spec fn on_course(c: Course) -> bool {
    match c.phase {
        RunPhase::Guarding | RunPhase::Logging | RunPhase::Closing => c.config is Some,
        RunPhase::Locking(i) | RunPhase::Checking(i) | RunPhase::Measuring(i)
        | RunPhase::Simulating(i, _) | RunPhase::Listening(i) | RunPhase::Cleaning(i)
        | RunPhase::Deleting(i) | RunPhase::Surveying(i) | RunPhase::Warming(i) => c.config
            is Some && i < pairs(c.config).len(),
        _ => true,
    }
}

/// The beginning of a run.
pub open spec fn at_start() -> Course {
    Course {
        phase: RunPhase::Starting,
        config: None,
        locked: Seq::empty(),
        log_path: None,
        remote: None,
        listening: false,
        surveyed: false,
        failed: false,
    }
}

fn find_next_to_lock(paths: &Vec<PathPair>, from: usize) -> (k: usize)
    requires
        from <= paths.len(),
    ensures
        k == next_to_lock(paths@, from as int),
        k <= paths.len(),
{
    let mut i: usize = from;
    while i < paths.len()
        invariant
            i <= paths.len(),
            next_to_lock(paths@, from as int) == next_to_lock(paths@, i as int),
        decreases paths.len() - i,
    {
        let mut fresh = true;
        let mut j: usize = 0;
        while j < i
            invariant
                j <= i < paths.len(),
                fresh == forall|m: int|
                    0 <= m < j ==> #[trigger] paths@[m].cache@ != paths@[i as int].cache@,
            decreases i - j,
        {
            if str_eq(paths[j].cache.as_str(), paths[i].cache.as_str()) {
                fresh = false;
            }
            j = j + 1;
        }
        if fresh {
            return i;
        }
        i = i + 1;
    }
    i
}

fn say_load_failed(e: &str) -> (v: Vec<Line>)
    ensures
        report::shown(v@) == load_failed(e@),
{
    let mut v = no_lines();
    alert(&mut v, glue("❌ warm-drive-cache configuration error: ", e).as_str());
    alert(
        &mut v,
        "   Typical location: warm-drive-cache.json next to the binary (run directory)",
    );
    alert(
        &mut v,
        "   Copy from warm-drive-cache-example.json and set your local paths (warm-drive-cache.json is gitignored).",
    );
    alert(&mut v, "   Override with: WARM_DRIVE_CACHE_CONFIG=/path/to/warm-drive-cache.json");
    alert(&mut v, "   See the configuration section in the README.");
    concat(v, say_farewell(false))
}

fn say_no_pairs() -> (v: Vec<Line>)
    ensures
        report::shown(v@) == no_pairs(),
{
    let mut v = no_lines();
    alert(&mut v, "❌ No paths configured.");
    alert(
        &mut v,
        "   Create warm-drive-cache.json (gitignored) from warm-drive-cache-example.json with at least one path pair (sync, cache, optional service).",
    );
    alert(&mut v, "   Example is documented in the README.");
    concat(v, say_farewell(false))
}

fn say_pair_head(cfg: &Config, i: usize, before: u64) -> (v: Vec<Line>)
    requires
        i < cfg.paths.len(),
    ensures
        report::shown(v@) == pair_head(*cfg, i as int, before),
{
    let pair = &cfg.paths[i];
    let mut v = no_lines();
    out(&mut v, "");
    out(&mut v, glue("📂 Sync dir (traverse/warm only): ", pair.sync.as_str()).as_str());
    out(&mut v, glue("   Cache dir (size/delete only): ", pair.cache.as_str()).as_str());
    let checksum = if cfg.walk.checksum {
        "enabled"
    } else {
        "disabled"
    };
    out(&mut v, glue("   Checksum verification: ", checksum).as_str());
    if let Some(s) = &pair.service {
        out(&mut v, glue("   systemd unit: ", s.as_str()).as_str());
    }
    out(&mut v, glue("   Before size (cache): ", format_bytes(before).as_str()).as_str());
    v
}

fn say_deleted(deleted: u64, after: u64) -> (v: Vec<Line>)
    ensures
        report::shown(v@) == seq![deleted_line(deleted, after)],
{
    let mut v = no_lines();
    let mut line = "   After deletion size (cache): ".to_string();
    line.append(format_bytes(after).as_str());
    line.append(" (deleted ");
    line.append(format_bytes(deleted).as_str());
    line.append(")");
    out(&mut v, line.as_str());
    v
}

fn say_walking(walk: &WalkOptions) -> (v: Vec<Line>)
    ensures
        report::shown(v@) == walking_lines(*walk),
{
    let mut v = no_lines();
    let mut line = "   Walking sync dir (max_threads=".to_string();
    line.append(usize_text(walk.max_threads).as_str());
    line.append(", min_size=");
    line.append(format_bytes(walk.min_file_size_bytes).as_str());
    line.append(", max_size=");
    line.append(format_max_file_size_limit(walk.max_file_size_bytes).as_str());
    line.append(")...");
    out(&mut v, line.as_str());
    out(&mut v, MOUNT_MODIFICATION_WARNING);
    out(&mut v, "");
    v
}

fn say_warmed(w: &WarmReport) -> (v: Vec<Line>)
    ensures
        report::shown(v@) == warmed_lines(*w),
{
    let mut v = no_lines();
    let mut i: usize = 0;
    while i < w.warnings.len()
        invariant
            i <= w.warnings.len(),
            report::shown(v@) == warning_lines(w.warnings@).take(i as int),
        decreases w.warnings.len() - i,
    {
        alert(&mut v, glue("   ⚠️  ", w.warnings[i].as_str()).as_str());
        assert(warning_lines(w.warnings@).take(i as int + 1) == warning_lines(w.warnings@).take(
            i as int,
        ).push(warning_lines(w.warnings@)[i as int]));
        i = i + 1;
    }
    assert(warning_lines(w.warnings@).take(i as int) == warning_lines(w.warnings@));
    out(&mut v, glue("   Size after warming (cache): ", format_bytes(w.after).as_str()).as_str());
    out(&mut v, glue("   Directories processed: ", usize_text(w.dirs).as_str()).as_str());
    out(&mut v, glue("   Files processed: ", usize_text(w.files).as_str()).as_str());
    out(&mut v, glue("   File contents read: ", usize_text(w.byte_reads).as_str()).as_str());
    out(&mut v, glue("   Metadata-only: ", usize_text(w.metadata_only).as_str()).as_str());
    out(&mut v, glue("   Errors: ", usize_text(w.errors).as_str()).as_str());
    if w.cancelled {
        out(
            &mut v,
            "   Stopped early (SIGINT or q) — in-flight workers finished; no new files started.",
        );
    }
    v
}

fn say_closing(log_path: &Option<String>, shutdown: bool) -> (v: Vec<Line>)
    ensures
        report::shown(v@) == closing_lines(text::opt_view(*log_path), shutdown),
{
    let mut v = say_farewell(shutdown);
    if let Some(p) = log_path {
        out(&mut v, "");
        out(&mut v, glue("CSV log written to: ", p.as_str()).as_str());
    }
    v
}

/// The line alone.
fn one_out(line: &str) -> (v: Vec<Line>)
    ensures
        report::shown(v@) == seq![Shown::Out(line@)],
{
    let mut v = no_lines();
    out(&mut v, line);
    v
}

fn one_alert(line: &str) -> (v: Vec<Line>)
    ensures
        report::shown(v@) == seq![Shown::Alert(line@)],
{
    let mut v = no_lines();
    alert(&mut v, line);
    v
}

impl Run {
    /// A run that has not begun.
    pub fn new(task: RunTask) -> (r: Self)
        ensures
            r.task == task,
            r@ == at_start(),
    {
        Run {
            task,
            phase: RunPhase::Starting,
            config: None,
            locked: Vec::new(),
            log_path: None,
            remote: None,
            listening: false,
            surveyed: false,
            failed: false,
        }
    }

    fn usual(&self) -> (r: RunAction)
        ensures
            r == run_usual(self@),
    {
        match self.phase {
            RunPhase::Starting => RunAction::LoadConfig,
            RunPhase::Loading => RunAction::LoadConfig,
            RunPhase::Guarding => RunAction::InstallSigint,
            RunPhase::Locking(i) => RunAction::AcquireLock(i),
            RunPhase::Logging => RunAction::CreateLog,
            RunPhase::Checking(i) => RunAction::Preflight(i),
            RunPhase::Measuring(i) => RunAction::Measure(i),
            RunPhase::Simulating(i, _) => RunAction::SimulateDelete(i),
            RunPhase::Listening(_) => RunAction::ListenForQuit,
            RunPhase::Cleaning(i) => RunAction::WaitClean(i),
            RunPhase::Deleting(i) => RunAction::Delete(i),
            RunPhase::Surveying(i) => RunAction::Survey(i),
            RunPhase::Warming(i) => RunAction::Warm(i),
            RunPhase::Closing => RunAction::Close,
            RunPhase::Releasing => RunAction::ReleaseLocks,
            RunPhase::Finished => RunAction::Exit(!self.failed),
        }
    }

    /// How many pairs the configuration names.
    pub fn pair_count(&self) -> (n: usize)
        ensures
            n == pairs(self.config).len(),
    {
        match &self.config {
            Some(cfg) => cfg.paths.len(),
            None => 0,
        }
    }

    /// The directory whose metadata is scanned before the cache of the pair is emptied.
    pub fn scan_dir(&self, cache: &NativePath) -> (r: NativePath)
        ensures
            r@ == cache_ops::scanned_dir(cache@, remote_bytes(self@)),
    {
        match &self.remote {
            Some(name) => metadata_root(cache, Some(&NativePath::of_name(name.as_str()))),
            None => metadata_root(cache, None),
        }
    }

    /// What emptying the cache of the pair removes, or in a dry run announces. There is
    /// no plan for more bytes than 64 bits count.
    pub fn purge_plan(&self, entries: &Vec<CacheNode>) -> (r: Option<Deletion>)
        ensures
            match r {
                None => cache_ops::purged_bytes(entries@, remote_bytes(self@)) > u64::MAX,
                Some(d) => {
                    &&& d.planned == cache_ops::purged_bytes(entries@, remote_bytes(self@))
                    &&& self.task.dry_run ==> d.removals@.len() == 0 && cache_ops::path_views(
                        d.announced@,
                    ) == cache_ops::purge_preview(entries@, remote_bytes(self@))
                    &&& !self.task.dry_run ==> d.announced@.len() == 0 && cache_ops::cuts(
                        d.removals@,
                    ) == cache_ops::purged_cuts(entries@, remote_bytes(self@))
                },
            },
    {
        match &self.remote {
            Some(name) => purge(entries, Some(name.as_str().as_bytes()), self.task.dry_run),
            None => purge(entries, None, self.task.dry_run),
        }
    }

    fn go_to_pair(&mut self, lines: Vec<Line>, i: usize, shutdown: bool) -> (r: (
        Vec<Line>,
        RunAction,
    ))
        requires
            old(self).config is Some,
        ensures
            ({
                let m = to_pair(old(self)@, report::shown(lines@), i as int, shutdown);
                &&& final(self)@ == m.course
                &&& final(self).task == old(self).task
                &&& report::shown(r.0@) == m.lines
                &&& r.1 == m.action
                &&& on_course(final(self)@)
            }),
    {
        let mut lines = lines;
        if i >= self.pair_count() {
            self.phase = RunPhase::Closing;
            return (lines, RunAction::Close);
        }
        if shutdown {
            out(&mut lines, "");
            out(&mut lines, "⏹  Shutdown requested — skipping remaining path pairs.");
            self.phase = RunPhase::Closing;
            return (lines, RunAction::Close);
        }
        self.phase = RunPhase::Checking(i);
        (lines, RunAction::Preflight(i))
    }

    fn go_to_lock(&mut self, lines: Vec<Line>, i: usize, shutdown: bool) -> (r: (
        Vec<Line>,
        RunAction,
    ))
        requires
            old(self).config is Some,
            i <= pairs(old(self).config).len(),
        ensures
            ({
                let m = to_lock(
                    old(self).task,
                    old(self)@,
                    report::shown(lines@),
                    i as int,
                    shutdown,
                );
                &&& final(self)@ == m.course
                &&& final(self).task == old(self).task
                &&& report::shown(r.0@) == m.lines
                &&& r.1 == m.action
                &&& on_course(final(self)@)
            }),
    {
        let mut lines = lines;
        if let Some(cfg) = &self.config {
            let k = find_next_to_lock(&cfg.paths, i);
            if k < cfg.paths.len() {
                self.phase = RunPhase::Locking(k);
                return (lines, RunAction::AcquireLock(k));
            }
            if self.task.verbose {
                lines = concat(lines, out_all(loaded_config_lines(cfg)));
            }
        }
        if self.task.log {
            self.phase = RunPhase::Logging;
            return (lines, RunAction::CreateLog);
        }
        self.go_to_pair(lines, 0, shutdown)
    }

    fn take_config(&mut self, loaded: Result<Config, String>) -> (r: (Vec<Line>, RunAction))
        ensures
            ({
                let m = on_loaded(old(self).task, old(self)@, loaded);
                &&& final(self)@ == m.course
                &&& final(self).task == old(self).task
                &&& report::shown(r.0@) == m.lines
                &&& r.1 == m.action
                &&& on_course(final(self)@)
            }),
    {
        let mut cfg = match loaded {
            Ok(c) => c,
            Err(e) => {
                self.failed = true;
                self.phase = RunPhase::Finished;
                return (say_load_failed(e.as_str()), RunAction::Exit(false));
            },
        };
        let verdict = apply_overrides(&mut cfg, self.task.overrides);
        let empty = cfg.paths.len() == 0;
        self.config = Some(cfg);
        if let Err(m) = verdict {
            self.failed = true;
            self.phase = RunPhase::Finished;
            return (
                one_alert(glue("❌ effective configuration error: ", m.as_str()).as_str()),
                RunAction::Exit(false),
            );
        }
        if empty {
            self.failed = true;
            self.phase = RunPhase::Finished;
            return (say_no_pairs(), RunAction::Exit(false));
        }
        self.phase = RunPhase::Guarding;
        (no_lines(), RunAction::InstallSigint)
    }

    fn start_pair(&mut self, i: usize, before: u64, remote: Option<String>) -> (r: (
        Vec<Line>,
        RunAction,
    ))
        requires
            old(self).config is Some,
            i < pairs(old(self).config).len(),
        ensures
            ({
                let m = on_measured(
                    old(self).task,
                    old(self)@,
                    i,
                    before,
                    text::opt_view(remote),
                );
                &&& final(self)@ == m.course
                &&& final(self).task == old(self).task
                &&& report::shown(r.0@) == m.lines
                &&& r.1 == m.action
                &&& on_course(final(self)@)
            }),
    {
        self.remote = remote;
        let mut lines = match &self.config {
            Some(cfg) => say_pair_head(cfg, i, before),
            None => no_lines(),
        };
        if self.task.dry_run {
            out(
                &mut lines,
                "   --dry-run enabled: simulating full deletion (no changes made)",
            );
            self.phase = RunPhase::Simulating(i, before);
            return (lines, RunAction::SimulateDelete(i));
        }
        if !self.listening {
            self.phase = RunPhase::Listening(i);
            return (lines, RunAction::ListenForQuit);
        }
        out(&mut lines, "   Checking rclone vfsMeta entries for unsaved files...");
        self.phase = RunPhase::Cleaning(i);
        (lines, RunAction::WaitClean(i))
    }

    fn take_clean(&mut self, i: usize, result: Result<(), String>) -> (r: (Vec<Line>, RunAction))
        requires
            old(self).config is Some,
            i < pairs(old(self).config).len(),
        ensures
            ({
                let m = on_clean(old(self)@, i, result);
                &&& final(self)@ == m.course
                &&& final(self).task == old(self).task
                &&& report::shown(r.0@) == m.lines
                &&& r.1 == m.action
                &&& on_course(final(self)@)
            }),
    {
        match result {
            Err(e) => {
                self.failed = true;
                self.phase = RunPhase::Closing;
                (
                    one_alert(glue("❌ Cache purge cancelled: ", e.as_str()).as_str()),
                    RunAction::Close,
                )
            },
            Ok(_) => {
                self.phase = RunPhase::Deleting(i);
                let mut lines = no_lines();
                out(&mut lines, "   ✓ No Dirty=true rclone metadata entries remain.");
                out(
                    &mut lines,
                    "   Performing complete deletion of all files and subdirectories in cache dir...",
                );
                (lines, RunAction::Delete(i))
            },
        }
    }

    fn take_deletion(&mut self, i: usize, deleted: u64, after: u64) -> (r: (Vec<Line>, RunAction))
        requires
            old(self).config is Some,
            i < pairs(old(self).config).len(),
        ensures
            ({
                let m = on_deleted(old(self)@, i, deleted, after);
                &&& final(self)@ == m.course
                &&& final(self).task == old(self).task
                &&& report::shown(r.0@) == m.lines
                &&& r.1 == m.action
                &&& on_course(final(self)@)
            }),
    {
        let mut lines = say_deleted(deleted, after);
        if !self.surveyed {
            self.phase = RunPhase::Surveying(i);
            return (lines, RunAction::Survey(i));
        }
        if let Some(cfg) = &self.config {
            lines = concat(lines, say_walking(&cfg.walk));
        }
        self.phase = RunPhase::Warming(i);
        (lines, RunAction::Warm(i))
    }

    fn take_survey(&mut self, i: usize, list: &Vec<PairSurvey>) -> (r: (Vec<Line>, RunAction))
        requires
            old(self).config is Some,
            i < pairs(old(self).config).len(),
        ensures
            ({
                let m = on_surveyed(old(self)@, i, list@);
                &&& final(self)@ == m.course
                &&& final(self).task == old(self).task
                &&& report::shown(r.0@) == m.lines
                &&& r.1 == m.action
                &&& on_course(final(self)@)
            }),
    {
        let mut lines = no_lines();
        if let Some(cfg) = &self.config {
            lines = concat(
                capacity_warnings(&cfg.paths, i, &cfg.walk, list),
                say_walking(&cfg.walk),
            );
        }
        self.surveyed = true;
        self.phase = RunPhase::Warming(i);
        (lines, RunAction::Warm(i))
    }

    fn release(&mut self, fault: &str, stopped: bool) -> (r: (Vec<Line>, RunAction))
        ensures
            ({
                let m = released(old(self)@, seq![Shown::Alert(fault@)] + farewell(stopped));
                &&& final(self)@ == m.course
                &&& final(self).task == old(self).task
                &&& report::shown(r.0@) == m.lines
                &&& r.1 == m.action
            }),
    {
        self.failed = true;
        self.phase = RunPhase::Releasing;
        (concat(one_alert(fault), say_farewell(stopped)), RunAction::ReleaseLocks)
    }

    /// One step of the run: the lines to print, and what to do next. `shutdown` says
    /// whether a stop was requested.
    pub fn step(&mut self, event: RunEvent, shutdown: bool) -> (r: (Vec<Line>, RunAction))
        requires
            on_course(old(self)@),
        ensures
            ({
                let m = run_move(old(self).task, old(self)@, event, shutdown);
                &&& final(self)@ == m.course
                &&& final(self).task == old(self).task
                &&& report::shown(r.0@) == m.lines
                &&& r.1 == m.action
            }),
            on_course(final(self)@),
    {
        let n: usize = self.pair_count();
        assert(pairs(self.config).len() == n);
        match (self.phase, event) {
            (RunPhase::Starting, RunEvent::Begin) => {
                self.phase = RunPhase::Loading;
                (say_greeting(), RunAction::LoadConfig)
            },
            (RunPhase::Loading, RunEvent::Loaded(loaded)) => self.take_config(loaded),
            (RunPhase::Guarding, RunEvent::Done) => self.go_to_lock(no_lines(), 0, shutdown),
            (RunPhase::Locking(i), RunEvent::Locked(result)) => match result {
                Err(e) => self.release(
                    glue("❌ Concurrency protection: ", e.as_str()).as_str(),
                    true,
                ),
                Ok(path) => {
                    self.locked.push(i);
                    let mut lines = no_lines();
                    if self.task.verbose {
                        lines = one_out(glue("   Concurrency lock: ", path.as_str()).as_str());
                    }
                    self.go_to_lock(lines, i + 1, shutdown)
                },
            },
            (RunPhase::Logging, RunEvent::LogReady(result)) => match result {
                Err(e) => self.release(
                    glue("❌ warm-drive-cache log error: ", e.as_str()).as_str(),
                    false,
                ),
                Ok(path) => {
                    let lines = one_out(glue("   CSV log: ", path.as_str()).as_str());
                    self.log_path = Some(path);
                    self.go_to_pair(lines, 0, shutdown)
                },
            },
            (RunPhase::Checking(i), RunEvent::Preflighted(go)) => {
                if go {
                    self.phase = RunPhase::Measuring(i);
                    return (no_lines(), RunAction::Measure(i));
                }
                self.go_to_pair(no_lines(), i + 1, shutdown)
            },
            (RunPhase::Measuring(i), RunEvent::Measured { before, remote }) => self.start_pair(
                i,
                before,
                remote,
            ),
            (RunPhase::Simulating(i, before), RunEvent::Simulated(planned)) => {
                let after: u64 = if planned > before {
                    0
                } else {
                    before - planned
                };
                let lines = one_out(
                    glue("   After size (simulated, cache): ", format_bytes(after).as_str()).as_str(),
                );
                self.go_to_pair(lines, i + 1, shutdown)
            },
            (RunPhase::Listening(i), RunEvent::Listening(installed)) => {
                self.listening = installed;
                self.phase = RunPhase::Cleaning(i);
                (
                    one_out("   Checking rclone vfsMeta entries for unsaved files..."),
                    RunAction::WaitClean(i),
                )
            },
            (RunPhase::Cleaning(i), RunEvent::Clean(result)) => self.take_clean(i, result),
            (RunPhase::Deleting(i), RunEvent::Deleted { deleted, after }) => self.take_deletion(
                i,
                deleted,
                after,
            ),
            (RunPhase::Surveying(i), RunEvent::Surveyed(list)) => self.take_survey(i, &list),
            (RunPhase::Warming(i), RunEvent::Warmed(w)) => self.go_to_pair(
                say_warmed(&w),
                i + 1,
                shutdown,
            ),
            (RunPhase::Closing, RunEvent::Done) => {
                self.phase = RunPhase::Releasing;
                (say_closing(&self.log_path, shutdown), RunAction::ReleaseLocks)
            },
            (RunPhase::Releasing, RunEvent::Done) => {
                self.phase = RunPhase::Finished;
                (no_lines(), RunAction::Exit(!self.failed))
            },
            (_, _) => (no_lines(), self.usual()),
        }
    }
}

/// What was reported to a run, each report with whether a stop was requested by then.
pub type Reports = Seq<(RunEvent, bool)>;

/// Where a run stands after a sequence of reports.
pub open spec fn course_after(task: RunTask, reports: Reports) -> Course
    decreases reports.len(),
{
    if reports.len() == 0 {
        at_start()
    } else {
        run_move(
            task,
            course_after(task, reports.drop_last()),
            reports.last().0,
            reports.last().1,
        ).course
    }
}

/// What the run asks for after a sequence of reports, of which there is one at least.
pub open spec fn action_after(task: RunTask, reports: Reports) -> RunAction {
    run_move(
        task,
        course_after(task, reports.drop_last()),
        reports.last().0,
        reports.last().1,
    ).action
}

proof fn lemma_stays_on_course(task: RunTask, reports: Reports)
    ensures
        on_course(course_after(task, reports)),
    decreases reports.len(),
{
    if reports.len() > 0 {
        lemma_stays_on_course(task, reports.drop_last());
        let c = course_after(task, reports.drop_last());
        lemma_next_to_lock(pairs(c.config), 0);
        if let RunPhase::Locking(i) = c.phase {
            lemma_next_to_lock(pairs(c.config), i as int + 1);
        }
        lemma_length_fits(c.config);
    }
}

/// A vector is never longer than an index can say.
proof fn lemma_length_fits(config: Option<Config>)
    ensures
        pairs(config).len() <= usize::MAX,
{
    if let Some(cfg) = config {
        assert(cfg.paths@.len() == cfg.paths.len());
    }
}

proof fn lemma_next_to_lock(paths: Seq<PathPair>, i: int)
    requires
        0 <= i <= paths.len(),
    ensures
        i <= next_to_lock(paths, i) <= paths.len(),
        next_to_lock(paths, i) < paths.len() ==> first_with_cache(paths, next_to_lock(paths, i)),
        forall|j: int|
            i <= j < next_to_lock(paths, i) ==> !#[trigger] first_with_cache(paths, j),
    decreases paths.len() - i,
{
    if i < paths.len() && !first_with_cache(paths, i) {
        lemma_next_to_lock(paths, i + 1);
    }
}

/// The run has come to the pairs of the configuration.
pub open spec fn past_locks(phase: RunPhase) -> bool {
    match phase {
        RunPhase::Logging
        | RunPhase::Checking(_)
        | RunPhase::Measuring(_)
        | RunPhase::Simulating(_, _)
        | RunPhase::Listening(_)
        | RunPhase::Cleaning(_)
        | RunPhase::Deleting(_)
        | RunPhase::Surveying(_)
        | RunPhase::Warming(_)
        | RunPhase::Closing => true,
        _ => false,
    }
}

/// The cache of pair `j` is locked.
pub open spec fn cache_locked(c: Course, j: int) -> bool {
    exists|l: int|
        0 <= l < c.locked.len() && (#[trigger] c.locked[l]) < pairs(c.config).len() && pairs(
            c.config,
        )[c.locked[l] as int].cache@ == pairs(c.config)[j].cache@
}

/// No cache is locked twice.
pub open spec fn locked_once(c: Course) -> bool {
    forall|k: int, l: int|
        0 <= k < l < c.locked.len() ==> pairs(c.config)[#[trigger] c.locked[k] as int].cache@
            != pairs(c.config)[#[trigger] c.locked[l] as int].cache@
}

/// Every cache of the configuration is locked, once, before any pair is checked, any
/// cache is measured and anything is deleted.
pub proof fn law_locks_come_first(task: RunTask, reports: Reports)
    ensures
        ({
            let c = course_after(task, reports);
            &&& past_locks(c.phase) ==> forall|j: int|
                0 <= j < pairs(c.config).len() ==> #[trigger] cache_locked(c, j)
            &&& locked_once(c)
        }),
{
    lemma_locks(task, reports);
}

/// What holds of the locks while they are acquired.
spec fn locks_in_order(c: Course) -> bool {
    let n = pairs(c.config).len() as int;
    &&& locked_once(c)
    &&& forall|l: int| 0 <= l < c.locked.len() ==> (#[trigger] c.locked[l]) < n
    &&& match c.phase {
        RunPhase::Starting | RunPhase::Loading | RunPhase::Guarding => c.locked.len() == 0,
        RunPhase::Locking(i) => {
            &&& forall|j: int| 0 <= j < i ==> #[trigger] cache_locked(c, j)
            &&& forall|l: int| 0 <= l < c.locked.len() ==> (#[trigger] c.locked[l]) < i
            &&& first_with_cache(pairs(c.config), i as int)
        },
        phase => past_locks(phase) ==> forall|j: int| 0 <= j < n ==> #[trigger] cache_locked(c, j),
    }
}

proof fn lemma_locks(task: RunTask, reports: Reports)
    ensures
        locks_in_order(course_after(task, reports)),
    decreases reports.len(),
{
    if reports.len() > 0 {
        lemma_locks(task, reports.drop_last());
        lemma_stays_on_course(task, reports.drop_last());
        let c = course_after(task, reports.drop_last());
        let after = course_after(task, reports);
        lemma_length_fits(c.config);
        match (c.phase, reports.last().0) {
            (RunPhase::Guarding, RunEvent::Done) => {
                lemma_lock_step(c, c.locked, 0);
                assert(after.locked == c.locked && after.config == c.config);
                assert(locks_in_order(after));
            },
            (RunPhase::Locking(i), RunEvent::Locked(Ok(_))) => {
                let held = Course { locked: c.locked.push(i), ..c };
                assert forall|j: int| 0 <= j < i + 1 implies #[trigger] cache_locked(held, j) by {
                    if j < i {
                        assert(cache_locked(c, j));
                        let l = choose|l: int|
                            0 <= l < c.locked.len() && (#[trigger] c.locked[l]) < pairs(
                                c.config,
                            ).len() && pairs(c.config)[c.locked[l] as int].cache@ == pairs(
                                c.config,
                            )[j].cache@;
                        assert(held.locked[l] == c.locked[l]);
                    } else {
                        assert(held.locked[c.locked.len() as int] == i);
                    }
                }
                lemma_lock_step(held, held.locked, i as int + 1);
                assert(after.locked == held.locked && after.config == c.config);
                assert forall|k: int, l: int| 0 <= k < l < after.locked.len() implies pairs(
                    after.config,
                )[#[trigger] after.locked[k] as int].cache@ != pairs(
                    after.config,
                )[#[trigger] after.locked[l] as int].cache@ by {
                    assert(after.locked[k] == c.locked[k]);
                    if l < c.locked.len() {
                        assert(after.locked[l] == c.locked[l]);
                    }
                }
                assert(locks_in_order(after));
            },
            _ => {
                assert(c.locked == after.locked);
                assert(c.locked.len() == 0 || c.config == after.config);
                assert forall|j: int|
                    cache_locked(c, j) && c.config == after.config implies #[trigger] cache_locked(
                    after,
                    j,
                ) by {
                    let l = choose|l: int|
                        0 <= l < c.locked.len() && (#[trigger] c.locked[l]) < pairs(c.config).len()
                            && pairs(c.config)[c.locked[l] as int].cache@ == pairs(
                            c.config,
                        )[j].cache@;
                    assert(after.locked[l] == c.locked[l]);
                }
                assert(past_locks(after.phase) ==> past_locks(c.phase) && c.config
                    == after.config);
                assert(locks_in_order(after));
            },
        }
    }
}

/// From the locks of the first pairs to those of the pairs before the next lock.
proof fn lemma_lock_step(c: Course, locked: Seq<usize>, i: int)
    requires
        locked == c.locked,
        0 <= i <= pairs(c.config).len(),
        pairs(c.config).len() <= usize::MAX,
        forall|j: int| 0 <= j < i ==> #[trigger] cache_locked(c, j),
    ensures
        ({
            let k = next_to_lock(pairs(c.config), i);
            &&& i <= k <= pairs(c.config).len()
            &&& k < pairs(c.config).len() ==> first_with_cache(pairs(c.config), k)
            &&& forall|d: Course, j: int|
                0 <= j < k && d.locked == locked && d.config == c.config
                    ==> #[trigger] cache_locked(d, j)
        }),
{
    let paths = pairs(c.config);
    lemma_next_to_lock(paths, i);
    let k = next_to_lock(paths, i);
    assert forall|d: Course, j: int|
        0 <= j < k && d.locked == locked && d.config == c.config implies #[trigger] cache_locked(
        d,
        j,
    ) by {
        lemma_skipped_are_locked(c, i, k, j);
        let l = choose|l: int|
            0 <= l < c.locked.len() && (#[trigger] c.locked[l]) < paths.len()
                && paths[c.locked[l] as int].cache@ == paths[j].cache@;
        assert(d.locked[l] == c.locked[l]);
    }
}

proof fn lemma_skipped_are_locked(c: Course, i: int, k: int, j: int)
    requires
        0 <= i <= k <= pairs(c.config).len(),
        0 <= j < k,
        forall|m: int| 0 <= m < i ==> #[trigger] cache_locked(c, m),
        forall|m: int| i <= m < k ==> !#[trigger] first_with_cache(pairs(c.config), m),
    ensures
        cache_locked(c, j),
    decreases j,
{
    let paths = pairs(c.config);
    if j >= i {
        assert(!first_with_cache(paths, j));
        let m = choose|m: int| 0 <= m < j && !(#[trigger] paths[m].cache@ != paths[j].cache@);
        lemma_skipped_are_locked(c, i, k, m);
        let l = choose|l: int|
            0 <= l < c.locked.len() && (#[trigger] c.locked[l]) < paths.len()
                && paths[c.locked[l] as int].cache@ == paths[m].cache@;
        assert(paths[c.locked[l] as int].cache@ == paths[j].cache@);
    } else {
        assert(cache_locked(c, j));
    }
}

/// A dry run deletes nothing, projects no use after a deletion, and warms nothing.
pub proof fn law_dry_run_changes_nothing(task: RunTask, reports: Reports)
    requires
        task.dry_run,
        reports.len() > 0,
    ensures
        !(action_after(task, reports) is Delete),
        !(action_after(task, reports) is Survey),
        !(action_after(task, reports) is Warm),
{
    lemma_dry_run(task, reports.drop_last());
}

proof fn lemma_dry_run(task: RunTask, reports: Reports)
    requires
        task.dry_run,
    ensures
        match course_after(task, reports).phase {
            RunPhase::Listening(_)
            | RunPhase::Cleaning(_)
            | RunPhase::Deleting(_)
            | RunPhase::Surveying(_)
            | RunPhase::Warming(_) => false,
            _ => true,
        },
    decreases reports.len(),
{
    if reports.len() > 0 {
        lemma_dry_run(task, reports.drop_last());
    }
}

/// The contents of a cache are deleted only once its metadata was reported clean: the
/// report stands in the run, and nothing else was asked for between it and the deletion.
pub proof fn law_deletion_needs_clean_metadata(task: RunTask, reports: Reports, i: usize) -> (k: int)
    requires
        course_after(task, reports).phase == RunPhase::Deleting(i),
    ensures
        0 <= k < reports.len(),
        course_after(task, reports.take(k)).phase == RunPhase::Cleaning(i),
        reports[k].0 matches RunEvent::Clean(r) && r is Ok,
        forall|m: int|
            k < m <= reports.len() ==> course_after(task, #[trigger] reports.take(m)).phase
                == RunPhase::Deleting(i),
    decreases reports.len(),
{
    let n = reports.len() as int;
    assert(reports.take(n) == reports);
    assert(n > 0);
    assert(reports.take(n - 1) == reports.drop_last());
    let before = course_after(task, reports.drop_last());
    if before.phase == RunPhase::Deleting(i) {
        let k = law_deletion_needs_clean_metadata(task, reports.drop_last(), i);
        assert(reports.drop_last().take(k) == reports.take(k));
        assert forall|m: int| k < m <= n implies course_after(
            task,
            #[trigger] reports.take(m),
        ).phase == RunPhase::Deleting(i) by {
            if m < n {
                assert(reports.drop_last().take(m) == reports.take(m));
            }
        }
        k
    } else {
        n - 1
    }
}

/// Where each report that metadata is clean hands on what a wait ended with, a cache is
/// emptied only after a scan of its metadata that did not fail and found nothing dirty.
/// `told` gives for each report of the run the reports to its wait.
pub proof fn law_deletion_needs_clean_scan(
    task: RunTask,
    reports: Reports,
    i: usize,
    limit: u64,
    interval: u64,
    told: Seq<Seq<dirty_check::Told>>,
) -> (r: (int, int))
    requires
        course_after(task, reports).phase == RunPhase::Deleting(i),
        told.len() == reports.len(),
        forall|k: int|
            0 <= k < reports.len() && (#[trigger] reports[k]).0 is Clean ==> told[k].len() > 0
                && dirty_check::asked_after(limit, interval, told[k])
                == dirty_check::Asked::Finish(dirty_check::outcome(reports[k].0->Clean_0)),
    ensures
        ({
            let (k, s) = r;
            &&& 0 <= k < reports.len()
            &&& course_after(task, reports.take(k)).phase == RunPhase::Cleaning(i)
            &&& reports[k].0 is Clean
            &&& 0 <= s < told[k].len()
            &&& told[k][s] matches dirty_check::Told::Scanned(Ok(dirty)) && dirty.len() == 0
        }),
{
    let k = law_deletion_needs_clean_metadata(task, reports, i);
    let s = dirty_check::law_success_needs_clean_scan(limit, interval, told[k]);
    (k, s)
}

/// A cache is emptied of nothing whose metadata was not scanned: when the metadata was
/// reported clean, the directory that was scanned held the metadata of every remote in
/// whose trees a removal lies.
pub proof fn law_deletion_is_covered_by_scan(
    task: RunTask,
    reports: Reports,
    i: usize,
    cache: Seq<native::Part>,
    s: Seq<CacheNode>,
    j: int,
) -> (k: int)
    requires
        course_after(task, reports).phase == RunPhase::Deleting(i),
        cache.len() > 0,
        0 <= j < cache_ops::purged_cuts(s, remote_bytes(course_after(task, reports))).len(),
    ensures
        0 <= k < reports.len(),
        course_after(task, reports.take(k)).phase == RunPhase::Cleaning(i),
        reports[k].0 matches RunEvent::Clean(r) && r is Ok,
        course_after(task, reports.take(k)).remote == course_after(task, reports).remote,
        ({
            let cuts = cache_ops::purged_cuts(s, remote_bytes(course_after(task, reports)));
            let path = cache_ops::place(cache, cuts[j].path);
            let scanned = cache_ops::scanned_dir(
                cache,
                remote_bytes(course_after(task, reports.take(k))),
            );
            &&& native::begins(path, cache)
            &&& forall|r: Seq<u8>| #[trigger]
                cache_ops::in_tree_of(path, cache, r) ==> native::begins(
                    resolver::meta_dir(cache, cache_ops::remote_path(r)),
                    scanned,
                )
        }),
{
    let k = law_deletion_needs_clean_metadata(task, reports, i);
    let n = reports.len() as int;
    lemma_remote_kept(task, reports, i, k, n);
    assert(reports.take(n) == reports);
    cache_ops::law_purge_is_covered_by_scan(
        cache,
        s,
        remote_bytes(course_after(task, reports)),
        j,
    );
    k
}

/// The remote of a pair stays the same from the wait for clean metadata through the
/// deletion.
proof fn lemma_remote_kept(task: RunTask, reports: Reports, i: usize, k: int, m: int)
    requires
        0 <= k < m <= reports.len(),
        course_after(task, reports.take(k)).phase == RunPhase::Cleaning(i),
        forall|l: int|
            k < l <= reports.len() ==> course_after(task, #[trigger] reports.take(l)).phase
                == RunPhase::Deleting(i),
    ensures
        course_after(task, reports.take(m)).remote == course_after(task, reports.take(k)).remote,
    decreases m,
{
    assert(reports.take(m).drop_last() == reports.take(m - 1));
    if m - 1 > k {
        lemma_remote_kept(task, reports, i, k, m - 1);
    }
}

/// No pair is warmed before the pairs were surveyed: the survey stands in the run.
pub proof fn law_survey_comes_before_warming(task: RunTask, reports: Reports) -> (k: int)
    requires
        course_after(task, reports).surveyed || course_after(task, reports).phase is Warming,
    ensures
        0 <= k < reports.len(),
        course_after(task, reports.take(k)).phase is Surveying,
        reports[k].0 is Surveyed,
    decreases reports.len(),
{
    assert(reports.take(reports.len() as int) == reports);
    assert(reports.len() > 0);
    assert(reports.take(reports.len() - 1) == reports.drop_last());
    let before = course_after(task, reports.drop_last());
    if before.surveyed || before.phase is Warming {
        let k = law_survey_comes_before_warming(task, reports.drop_last());
        assert(reports.drop_last().take(k) == reports.take(k));
        k
    } else {
        reports.len() - 1
    }
}

/// What a survey finds is a warning and no refusal: the pair is warmed all the same.
pub proof fn law_survey_never_refuses(
    task: RunTask,
    c: Course,
    list: Vec<PairSurvey>,
    i: usize,
    shutdown: bool,
)
    requires
        c.phase == RunPhase::Surveying(i),
    ensures
        run_move(task, c, RunEvent::Surveyed(list), shutdown).action == RunAction::Warm(i),
        run_move(task, c, RunEvent::Surveyed(list), shutdown).course.failed == c.failed,
{
}

/// A run that was told that metadata stays dirty, that a lock is refused or that the log
/// cannot be written asks for no deletion any more, and exits with a failure.
pub proof fn law_failure_ends_the_run(task: RunTask, reports: Reports)
    requires
        reports.len() > 0,
        course_after(task, reports.drop_last()).failed,
    ensures
        course_after(task, reports).failed,
        match action_after(task, reports) {
            RunAction::Close | RunAction::ReleaseLocks => true,
            RunAction::Exit(ok) => !ok,
            _ => false,
        },
{
    lemma_failed(task, reports.drop_last());
}

proof fn lemma_failed(task: RunTask, reports: Reports)
    ensures
        course_after(task, reports).failed ==> match course_after(task, reports).phase {
            RunPhase::Closing | RunPhase::Releasing | RunPhase::Finished => true,
            _ => false,
        },
    decreases reports.len(),
{
    if reports.len() > 0 {
        lemma_failed(task, reports.drop_last());
    }
}

/// Locks are removed last: a run that holds a lock comes to its end only by having them
/// removed, and asks for nothing but the exit after that.
pub proof fn law_locks_go_last(task: RunTask, reports: Reports)
    requires
        reports.len() > 0,
    ensures
        ({
            let before = course_after(task, reports.drop_last());
            let after = course_after(task, reports);
            &&& after.phase == RunPhase::Finished && before.phase != RunPhase::Finished
                && after.locked.len() > 0 ==> before.phase == RunPhase::Releasing
            &&& action_after(task, reports) is Exit <==> after.phase == RunPhase::Finished
            &&& before.phase == RunPhase::Releasing ==> action_after(task, reports)
                == RunAction::ReleaseLocks || action_after(task, reports) is Exit
            &&& before.phase == RunPhase::Finished ==> action_after(task, reports) is Exit
        }),
{
    lemma_locks(task, reports.drop_last());
}

/// Once a stop was requested no further pair is begun.
pub proof fn law_stop_begins_no_pair(task: RunTask, c: Course, event: RunEvent, i: usize)
    requires
        run_move(task, c, event, true).action == RunAction::Preflight(i),
    ensures
        c.phase == RunPhase::Checking(i),
{
}

/// How far a run has come.
pub open spec fn progress(c: Course) -> int {
    let n = pairs(c.config).len() as int;
    match c.phase {
        RunPhase::Starting => 0,
        RunPhase::Loading => 1,
        RunPhase::Guarding => 2,
        RunPhase::Locking(i) => 3 + i as int,
        RunPhase::Logging => 3 + n,
        RunPhase::Checking(i) => 4 + n + 8 * i,
        RunPhase::Measuring(i) => 5 + n + 8 * i,
        RunPhase::Simulating(i, _) => 6 + n + 8 * i,
        RunPhase::Listening(i) => 7 + n + 8 * i,
        RunPhase::Cleaning(i) => 8 + n + 8 * i,
        RunPhase::Deleting(i) => 9 + n + 8 * i,
        RunPhase::Surveying(i) => 10 + n + 8 * i,
        RunPhase::Warming(i) => 11 + n + 8 * i,
        RunPhase::Closing => 4 + n + 8 * n,
        RunPhase::Releasing => 5 + n + 8 * n,
        RunPhase::Finished => 6 + n + 8 * n,
    }
}

/// A run never goes back: a report either leaves it where it is or brings it closer to
/// its end, and the pairs are taken in their order, each once.
pub proof fn law_run_advances(task: RunTask, reports: Reports)
    requires
        reports.len() > 0,
    ensures
        ({
            let before = course_after(task, reports.drop_last());
            let after = course_after(task, reports);
            after == before || progress(after) > progress(before)
        }),
        progress(course_after(task, reports)) <= 6 + 9 * pairs(
            course_after(task, reports).config,
        ).len(),
{
    let before = course_after(task, reports.drop_last());
    lemma_stays_on_course(task, reports.drop_last());
    lemma_stays_on_course(task, reports);
    lemma_length_fits(before.config);
    lemma_step_advances(task, before, reports.last().0, reports.last().1);
}

proof fn lemma_step_advances(task: RunTask, c: Course, event: RunEvent, shutdown: bool)
    requires
        on_course(c),
        pairs(c.config).len() <= usize::MAX,
    ensures
        run_move(task, c, event, shutdown).course == c || progress(
            run_move(task, c, event, shutdown).course,
        ) > progress(c),
{
    match (c.phase, event) {
        (RunPhase::Guarding, RunEvent::Done) => {
            lemma_next_to_lock(pairs(c.config), 0);
        },
        (RunPhase::Locking(i), RunEvent::Locked(Ok(_))) => {
            lemma_next_to_lock(pairs(c.config), i as int + 1);
        },
        _ => {},
    }
}

/// An override replaces the one setting that it is for, and what is not overridden stays as
/// it was configured.
pub proof fn law_overrides_replace(cfg: Config, o: CliOverrides)
    ensures
        ({
            let e = effective_config(cfg, o);
            &&& o.threads is Some ==> e.walk.max_threads == o.threads->0
            &&& o.threads is None ==> e.walk.max_threads == cfg.walk.max_threads
            &&& o.size is Some ==> e.walk.max_file_size_bytes == o.size->0
            &&& o.size is None ==> e.walk.max_file_size_bytes == cfg.walk.max_file_size_bytes
            &&& o.checksum is Some ==> e.walk.checksum == o.checksum->0
            &&& o.checksum is None ==> e.walk.checksum == cfg.walk.checksum
            &&& o.width is Some ==> e.walk.width == o.width->0
            &&& o.width is None ==> e.walk.width == cfg.walk.width
            &&& e.walk.max_depth == cfg.walk.max_depth
            &&& e.walk.min_file_size_bytes == cfg.walk.min_file_size_bytes
            &&& e.paths == cfg.paths
            &&& e.ignore == cfg.ignore
            &&& e.mount_wait == cfg.mount_wait
            &&& e.version == cfg.version
        }),
{
}

/// A validation reports exactly where there is a configuration that names a pair and whose
/// walk options, with the overrides in place, can be used; a run goes on exactly there too.
pub proof fn law_usable_configuration(
    task: RunTask,
    c: Course,
    loaded: Result<Config, String>,
    shutdown: bool,
)
    requires
        c.phase is Loading,
    ensures
        ({
            let walk = overridden(loaded->Ok_0.walk, task.overrides);
            let usable = loaded is Ok && loaded->Ok_0.paths@.len() > 0 && 1 <= walk.max_threads <= 64
                && walk.max_file_size_bytes >= -1 && (walk.max_file_size_bytes > 0
                ==> walk.min_file_size_bytes <= walk.max_file_size_bytes);
            let m = run_move(task, c, RunEvent::Loaded(loaded), shutdown);
            &&& check_refusal(loaded, task.overrides) is None <==> usable
            &&& usable ==> m.action == RunAction::InstallSigint && m.course.config == Some(
                effective_config(loaded->Ok_0, task.overrides),
            ) && m.course.failed == c.failed
            &&& !usable ==> m.action == RunAction::Exit(false) && m.course.failed
        }),
{
    if loaded is Ok {
        config::law_effective_rules(overridden(loaded->Ok_0.walk, task.overrides));
    }
}

/// The next cache to lock is that of the first pair from the given one on whose cache no
/// earlier pair has.
pub proof fn law_next_lock(paths: Seq<PathPair>, i: int, j: int)
    requires
        0 <= i <= paths.len(),
    ensures
        ({
            let k = next_to_lock(paths, i);
            &&& i <= k <= paths.len()
            &&& k < paths.len() ==> forall|l: int|
                0 <= l < k ==> (#[trigger] paths[l]).cache@ != paths[k].cache@
            &&& i <= j < k ==> exists|l: int|
                0 <= l < j && (#[trigger] paths[l]).cache@ == paths[j].cache@
        }),
    decreases paths.len() - i,
{
    if i < paths.len() && !first_with_cache(paths, i) {
        law_next_lock(paths, i + 1, j);
        let l = choose|l: int|
            0 <= l < i && !((#[trigger] paths[l]).cache@ != paths[i].cache@);
        assert(paths[l].cache@ == paths[i].cache@);
    }
}

/// A lock that is acquired leads to the next one and, behind the last, to the log where one
/// was asked for, and else to the first pair. A lock that is refused ends the run.
pub proof fn law_locks_lead_to_the_pairs(
    task: RunTask,
    c: Course,
    i: usize,
    path: String,
    cause: String,
)
    requires
        on_course(c),
        c.phase == RunPhase::Locking(i),
        pairs(c.config).len() <= usize::MAX,
    ensures
        ({
            let k = next_to_lock(pairs(c.config), i + 1);
            let m = run_move(task, c, RunEvent::Locked(Ok(path)), false);
            let no = run_move(task, c, RunEvent::Locked(Err(cause)), false);
            &&& m.course.locked == c.locked.push(i)
            &&& k < pairs(c.config).len() ==> m.action == RunAction::AcquireLock(k as usize)
                && m.course.phase == RunPhase::Locking(k as usize)
            &&& k >= pairs(c.config).len() && task.log ==> m.action == RunAction::CreateLog
            &&& k >= pairs(c.config).len() && !task.log ==> m.action == RunAction::Preflight(0)
            &&& no.action == RunAction::ReleaseLocks && no.course.failed && no.course.locked
                == c.locked
        }),
{
}

/// A log that is ready is remembered and leads to the first pair; one that cannot be written
/// ends the run.
pub proof fn law_log_leads_to_the_pairs(task: RunTask, c: Course, path: String, cause: String)
    requires
        c.phase is Logging,
        pairs(c.config).len() > 0,
    ensures
        ({
            let m = run_move(task, c, RunEvent::LogReady(Ok(path)), false);
            let no = run_move(task, c, RunEvent::LogReady(Err(cause)), false);
            &&& m.action == RunAction::Preflight(0) && m.course.log_path == Some(path@)
            &&& no.action == RunAction::ReleaseLocks && no.course.failed
        }),
{
}

/// A pair that passed its check is measured, one that did not is left out. In a run the
/// metadata is waited for, the cache is emptied, the pairs are surveyed once, and the pair is
/// warmed, in this order.
pub proof fn law_pair_takes_its_steps(
    task: RunTask,
    c: Course,
    i: usize,
    before: u64,
    remote: Option<String>,
    installed: bool,
    shutdown: bool,
    deleted: u64,
    after: u64,
)
    requires
        !task.dry_run,
    ensures
        c.phase == RunPhase::Checking(i) ==> run_move(
            task,
            c,
            RunEvent::Preflighted(true),
            shutdown,
        ).action == RunAction::Measure(i),
        c.phase == RunPhase::Measuring(i) ==> ({
            let m = run_move(task, c, RunEvent::Measured { before, remote }, shutdown);
            &&& m.course.remote == text::opt_view(remote)
            &&& c.listening ==> m.action == RunAction::WaitClean(i) && m.course.phase
                == RunPhase::Cleaning(i)
            &&& !c.listening ==> m.action == RunAction::ListenForQuit && m.course.phase
                == RunPhase::Listening(i)
        }),
        c.phase == RunPhase::Listening(i) ==> ({
            let m = run_move(task, c, RunEvent::Listening(installed), shutdown);
            &&& m.action == RunAction::WaitClean(i)
            &&& m.course.listening == installed
            &&& m.course.remote == c.remote
        }),
        c.phase == RunPhase::Cleaning(i) ==> ({
            let m = run_move(task, c, RunEvent::Clean(Ok(())), shutdown);
            &&& m.action == RunAction::Delete(i)
            &&& m.course.remote == c.remote
        }),
        c.phase == RunPhase::Deleting(i) ==> ({
            let m = run_move(task, c, RunEvent::Deleted { deleted, after }, shutdown);
            &&& c.surveyed ==> m.action == RunAction::Warm(i)
            &&& !c.surveyed ==> m.action == RunAction::Survey(i)
        }),
{
}

/// A dry run lists what would go in place of deleting it, and goes on to the next pair.
pub proof fn law_dry_run_lists(
    task: RunTask,
    c: Course,
    i: usize,
    before: u64,
    remote: Option<String>,
    planned: u64,
)
    requires
        task.dry_run,
        on_course(c),
        pairs(c.config).len() <= usize::MAX,
    ensures
        c.phase == RunPhase::Measuring(i) ==> ({
            let m = run_move(task, c, RunEvent::Measured { before, remote }, false);
            &&& m.action == RunAction::SimulateDelete(i)
            &&& m.course.phase == RunPhase::Simulating(i, before)
            &&& m.course.remote == text::opt_view(remote)
        }),
        c.phase == RunPhase::Simulating(i, before) ==> ({
            let m = run_move(task, c, RunEvent::Simulated(planned), false);
            &&& i + 1 < pairs(c.config).len() ==> m.action == RunAction::Preflight(
                (i + 1) as usize,
            )
            &&& i + 1 >= pairs(c.config).len() ==> m.action == RunAction::Close
        }),
        planned <= before ==> simulated_line(before, planned) == Shown::Out(
            "   After size (simulated, cache): "@ + cache_ops::bytes_text(
                (before - planned) as nat,
            ),
        ),
        planned > before ==> simulated_line(before, planned) == Shown::Out(
            "   After size (simulated, cache): "@ + cache_ops::bytes_text(0),
        ),
{
}

/// Behind a pair that was warmed or left out comes the next one, and behind the last the end.
/// A stop that was requested leads to the end at once.
pub proof fn law_pairs_follow_each_other(task: RunTask, c: Course, i: usize, w: WarmReport)
    requires
        on_course(c),
        pairs(c.config).len() <= usize::MAX,
    ensures
        c.phase == RunPhase::Checking(i) ==> ({
            let on = run_move(task, c, RunEvent::Preflighted(false), false);
            let stop = run_move(task, c, RunEvent::Preflighted(false), true);
            &&& i + 1 < pairs(c.config).len() ==> on.action == RunAction::Preflight(
                (i + 1) as usize,
            )
            &&& i + 1 >= pairs(c.config).len() ==> on.action == RunAction::Close
            &&& stop.action == RunAction::Close
        }),
        c.phase == RunPhase::Warming(i) ==> ({
            let on = run_move(task, c, RunEvent::Warmed(w), false);
            let stop = run_move(task, c, RunEvent::Warmed(w), true);
            &&& i + 1 < pairs(c.config).len() ==> on.action == RunAction::Preflight(
                (i + 1) as usize,
            )
            &&& i + 1 >= pairs(c.config).len() ==> on.action == RunAction::Close
            &&& stop.action == RunAction::Close
            &&& on.course.failed == c.failed && stop.course.failed == c.failed
        }),
{
}

/// Metadata that stays dirty ends the run as a failure with nothing deleted. At the end the
/// locks are removed, and the run exits with success unless it failed.
pub proof fn law_end_of_a_run(task: RunTask, c: Course, cause: String, shutdown: bool)
    ensures
        c.phase is Cleaning ==> ({
            let m = run_move(task, c, RunEvent::Clean(Err(cause)), shutdown);
            m.action == RunAction::Close && m.course.failed
        }),
        c.phase is Closing ==> run_move(task, c, RunEvent::Done, shutdown).action
            == RunAction::ReleaseLocks,
        c.phase is Releasing ==> run_move(task, c, RunEvent::Done, shutdown).action
            == RunAction::Exit(!c.failed),
        c.phase is Finished ==> run_move(task, c, RunEvent::Done, shutdown).action
            == RunAction::Exit(!c.failed),
        c.phase is Starting ==> run_move(task, c, RunEvent::Begin, shutdown).action
            == RunAction::LoadConfig,
        closing_lines(None, shutdown) == farewell(shutdown),
        closing_lines(Some(cause@), shutdown).last() == Shown::Out(
            "CSV log written to: "@ + cause@,
        ),
{
}

/// After a walk its warnings are printed first, in order, then the size of the cache and the
/// counts, and last, where the walk was stopped, that it was.
pub proof fn law_report_of_a_walk(w: WarmReport, k: int)
    ensures
        ({
            let lines = warmed_lines(w);
            let n = w.warnings@.len() as int;
            &&& lines.len() == n + 6 + (if w.cancelled {
                1int
            } else {
                0
            })
            &&& 0 <= k < n ==> lines[k] == Shown::Alert("   ⚠️  "@ + w.warnings@[k]@)
            &&& lines[n] == Shown::Out(
                "   Size after warming (cache): "@ + cache_ops::bytes_text(w.after as nat),
            )
            &&& lines[n + 1] == Shown::Out(
                "   Directories processed: "@ + text::decimal(w.dirs as nat),
            )
            &&& lines[n + 2] == Shown::Out("   Files processed: "@ + text::decimal(w.files as nat))
            &&& lines[n + 3] == Shown::Out(
                "   File contents read: "@ + text::decimal(w.byte_reads as nat),
            )
            &&& lines[n + 4] == Shown::Out(
                "   Metadata-only: "@ + text::decimal(w.metadata_only as nat),
            )
            &&& lines[n + 5] == Shown::Out("   Errors: "@ + text::decimal(w.errors as nat))
        }),
{
}

/// Before a cache is changed its pair is named, with both directories, whether contents are
/// verified, its unit where it has one, and the size of the cache.
pub proof fn law_pair_is_announced(cfg: Config, i: int, before: u64)
    ensures
        ({
            let lines = pair_head(cfg, i, before);
            let pair = cfg.paths@[i];
            &&& lines[1] == Shown::Out("📂 Sync dir (traverse/warm only): "@ + pair.sync@)
            &&& lines[2] == Shown::Out("   Cache dir (size/delete only): "@ + pair.cache@)
            &&& cfg.walk.checksum ==> lines[3] == Shown::Out("   Checksum verification: enabled"@)
            &&& !cfg.walk.checksum ==> lines[3] == Shown::Out(
                "   Checksum verification: disabled"@,
            )
            &&& pair.service is Some ==> lines.len() == 6 && lines[4] == Shown::Out(
                "   systemd unit: "@ + pair.service->0@,
            )
            &&& pair.service is None ==> lines.len() == 5
            &&& lines.last() == Shown::Out(
                "   Before size (cache): "@ + cache_ops::bytes_text(before as nat),
            )
        }),
{
    reveal_strlit("   Checksum verification: ");
    reveal_strlit("enabled");
    reveal_strlit("disabled");
    reveal_strlit("   Checksum verification: enabled");
    reveal_strlit("   Checksum verification: disabled");
    assert("   Checksum verification: "@ + "enabled"@ =~= "   Checksum verification: enabled"@);
    assert("   Checksum verification: "@ + "disabled"@ =~= "   Checksum verification: disabled"@);
}

} // verus!

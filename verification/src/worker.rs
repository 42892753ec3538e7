//! Warming a mounted tree: which files are read, what becomes of each one, and the
//! counters of a walk.
//!
//! The walk runs on one thread and files are warmed on a bounded pool. The decisions
//! are taken here, one event at a time; the caller lists directories, opens and reads
//! files, and moves paths through the queue.

use vstd::prelude::*;
use vstd::string::StringExecFns;

use crate::native;
use crate::native::bytes_eq;
use crate::report::glue;
use crate::status::ThreadWorkMode;
use crate::text;
use crate::text::u64_text;
use crate::verification;
use crate::verification::VerifyOutcome;

verus! {

/// Whether a file of length `len` is read: never for a negative maximum, always for
/// zero, and otherwise when its length lies within `min..=max`.
pub open spec fn reads_contents(len: nat, min: nat, max: int) -> bool {
    max == 0 || (max > 0 && min <= len <= max)
}

/// Whether this file should get a **File contents read** under the size policy.
///
/// - `-1` — never (metadata only)
/// - `0` — always (all sizes; ignores `min`)
/// - `N > 0` — when `len` is within `[min, N]` (`min == 0` means no lower bound)
pub fn should_read_file_contents(len: u64, min: u64, max: i64) -> (r: bool)
    ensures
        r == reads_contents(len as nat, min as nat, max as int),
{
    if max < 0 {
        return false;
    }
    if max == 0 {
        return true;
    }
    min <= len && len <= max as u64
}

/// The special values of the maximum: minus one reads nothing, zero reads everything,
/// and a positive maximum reads exactly the sizes from the minimum up to it.
pub proof fn law_size_policy(len: nat, min: nat, max: int)
    ensures
        max < 0 ==> !reads_contents(len, min, max),
        max == 0 ==> reads_contents(len, min, max),
        max > 0 ==> (reads_contents(len, min, max) <==> min <= len <= max),
        max > 0 ==> (reads_contents(len, 0, max) <==> len <= max),
{
}

/// Whether an entry of the walk is skipped: never the root itself, and otherwise when
/// its name is one of those to ignore.
pub open spec fn skipped(depth: nat, name: Seq<u8>, ignored: Seq<String>) -> bool {
    depth > 0 && exists|i: int|
        0 <= i < ignored.len() && native::utf8((#[trigger] ignored[i])@) == name
}

/// Returns true if this entry should be skipped based on the ignore list. A directory
/// that is skipped takes its whole subtree with it.
pub fn should_skip_entry(depth: usize, file_name: &[u8], ignore_names: &Vec<String>) -> (r: bool)
    ensures
        r == skipped(depth as nat, file_name@, ignore_names@),
{
    if depth == 0 {
        return false;
    }
    let mut i: usize = 0;
    while i < ignore_names.len()
        invariant
            i <= ignore_names.len(),
            depth > 0,
            forall|j: int|
                0 <= j < i ==> native::utf8((#[trigger] ignore_names@[j])@) != file_name@,
        decreases ignore_names.len() - i,
    {
        if bytes_eq(file_name, ignore_names[i].as_str().as_bytes()) {
            assert(native::utf8(ignore_names@[i as int]@) == file_name@);
            return true;
        }
        i = i + 1;
    }
    false
}

/// A file that was warmed, and its size.
#[derive(Debug, Clone, Copy, PartialEq, Eq, Structural)]
pub enum WarmSuccess {
    ByteRead(u64),
    MetadataOnly(u64),
}

/// What became of a file.
#[derive(Debug, Clone, Copy, PartialEq, Eq, Structural)]
pub enum WarmOutcome {
    ByteRead,
    MetadataOnly,
    Error,
}

/// What is done with a file of length `len`. An empty file is never read: nothing would
/// be streamed, and no cache file would appear.
pub open spec fn work_mode(len: nat, min: nat, max: int) -> ThreadWorkMode {
    if len > 0 && reads_contents(len, min, max) {
        ThreadWorkMode::ByteRead
    } else {
        ThreadWorkMode::AttrOnly
    }
}

/// What a file is to be warmed with.
pub struct FileTask {
    pub path: Seq<char>,
    pub min: nat,
    pub max: int,
    /// The local cache is waited for and compared.
    pub cached: bool,
    /// How long the cache file is waited for, in whole seconds.
    pub timeout_secs: nat,
}

/// Where the warming of a file stands.
pub enum FileStage {
    Facts,
    Resolve { len: u64 },
    Verify { len: u64, dest: Seq<char> },
    Open { len: u64 },
    Stream { len: u64, bytes: u64 },
    FactsAgain { len: u64, bytes: u64 },
    Done { result: Result<WarmSuccess, Seq<char>>, warning: Option<Seq<char>> },
}

/// What the caller reports of a file.
#[derive(Debug)]
pub enum FileEvent {
    /// The length of the mount file.
    Facts(Result<u64, String>),
    /// The cache path as displayed.
    Resolved(Result<String, String>),
    /// The outcome of the verification.
    Verified(VerifyOutcome),
    /// The mount file was opened.
    Opened(Result<(), String>),
    /// How many bytes a read returned; none at the end.
    Read(Result<usize, String>),
}

/// What the caller is to do with a file.
#[derive(Debug, Clone, Copy, PartialEq, Eq, Structural)]
pub enum FileAction {
    /// Ask for the length of the mount file.
    Stat,
    /// Map the mount path to its cache path.
    Resolve,
    /// Verify the mount file against the cache file.
    Verify,
    /// Open the mount file.
    Open,
    /// Read from the mount file.
    Read,
    /// Nothing more.
    Stop,
}

/// Why a verification is a failure of the warm, if it is one.
pub open spec fn verify_details(
    path: Seq<char>,
    dest: Seq<char>,
    timeout_secs: nat,
    outcome: verification::Outcome,
) -> Option<Seq<char>> {
    match outcome {
        verification::Outcome::Verified => None,
        verification::Outcome::ChecksumDisabled => None,
        verification::Outcome::AttributesOnly => None,
        verification::Outcome::Cancelled => Some("cache verification cancelled"@),
        verification::Outcome::CacheFileTimeout => Some(
            "cache verification timeout: "@ + dest
                + " did not appear at the expected size and remain stable within "@
                + text::decimal(timeout_secs) + "s"@,
        ),
        verification::Outcome::SourceChanged => Some(
            "source changed while being read: "@ + path,
        ),
        verification::Outcome::DestinationChanged => Some(
            "cache file changed while being verified: "@ + dest,
        ),
        verification::Outcome::SizeMismatch => Some(
            "verification size mismatch while reading source or cache: source="@ + path
                + ", cache destination="@ + dest,
        ),
        verification::Outcome::ChecksumMismatch => Some(
            "source/cache BLAKE3 checksum mismatch: source="@ + path + ", cache="@ + dest,
        ),
        verification::Outcome::RateLimited => Some(
            "cache verification access was rate limited: "@ + dest,
        ),
        verification::Outcome::IoError(details) => Some("cache verification I/O: "@ + details),
    }
}

/// A failed warm.
pub open spec fn failed(details: Seq<char>, warning: Option<Seq<char>>) -> FileStage {
    FileStage::Done { result: Err(details), warning }
}

/// A successful warm.
pub open spec fn succeeded(success: WarmSuccess) -> FileStage {
    FileStage::Done { result: Ok(success), warning: None }
}

/// A finished verification decides the warm: a failure is also held as a warning, but
/// for a stop that was requested.
pub open spec fn verified_stage(
    task: FileTask,
    len: u64,
    dest: Seq<char>,
    outcome: verification::Outcome,
) -> FileStage {
    match verify_details(task.path, dest, task.timeout_secs, outcome) {
        None => if outcome is AttributesOnly {
            succeeded(WarmSuccess::MetadataOnly(len))
        } else {
            succeeded(WarmSuccess::ByteRead(len))
        },
        Some(details) => failed(
            details,
            if outcome is Cancelled {
                None
            } else {
                Some("verify "@ + task.path + ": "@ + details)
            },
        ),
    }
}

/// The steps of warming a file.
pub open spec fn file_advanced(task: FileTask, stage: FileStage, event: FileEvent) -> FileStage {
    match (stage, event) {
        (FileStage::Facts, FileEvent::Facts(Err(e))) => failed(
            "source metadata "@ + task.path + ": "@ + e@,
            None,
        ),
        (FileStage::Facts, FileEvent::Facts(Ok(len))) => if work_mode(
            len as nat,
            task.min,
            task.max,
        ) == ThreadWorkMode::AttrOnly {
            succeeded(WarmSuccess::MetadataOnly(len))
        } else if task.cached {
            FileStage::Resolve { len }
        } else {
            FileStage::Open { len }
        },
        (FileStage::Resolve { len: _ }, FileEvent::Resolved(Err(e))) => failed(
            "cache path resolution: "@ + e@,
            Some("cache path "@ + task.path + ": "@ + e@),
        ),
        (FileStage::Resolve { len }, FileEvent::Resolved(Ok(dest))) => FileStage::Verify {
            len,
            dest: dest@,
        },
        (FileStage::Verify { len, dest }, FileEvent::Verified(outcome)) => verified_stage(
            task,
            len,
            dest,
            outcome@,
        ),
        (FileStage::Open { len: _ }, FileEvent::Opened(Err(e))) => failed(
            "source open "@ + task.path + ": "@ + e@,
            None,
        ),
        (FileStage::Open { len }, FileEvent::Opened(Ok(_))) => FileStage::Stream {
            len,
            bytes: 0,
        },
        (FileStage::Stream { len: _, bytes: _ }, FileEvent::Read(Err(e))) => failed(
            "source read "@ + task.path + ": "@ + e@,
            None,
        ),
        (FileStage::Stream { len, bytes }, FileEvent::Read(Ok(n))) => if n == 0 {
            FileStage::FactsAgain { len, bytes }
        } else if bytes + n > u64::MAX {
            failed("source read byte count overflow: "@ + task.path, None)
        } else {
            FileStage::Stream { len, bytes: (bytes + n) as u64 }
        },
        (FileStage::FactsAgain { len: _, bytes: _ }, FileEvent::Facts(Err(e))) => failed(
            "source metadata after read "@ + task.path + ": "@ + e@,
            None,
        ),
        (FileStage::FactsAgain { len, bytes }, FileEvent::Facts(Ok(now))) => if bytes != len {
            failed(
                "source read size mismatch: expected "@ + text::decimal(len as nat)
                    + " bytes, read "@ + text::decimal(bytes as nat) + " bytes ("@ + task.path
                    + ")"@,
                None,
            )
        } else if now != len {
            failed(
                "source changed while being read: size was "@ + text::decimal(len as nat)
                    + " bytes and is now "@ + text::decimal(now as nat) + " bytes ("@ + task.path
                    + ")"@,
                None,
            )
        } else {
            succeeded(WarmSuccess::ByteRead(len))
        },
        _ => stage,
    }
}

/// What the caller is to do at a stage.
pub open spec fn file_asked(stage: FileStage) -> FileAction {
    match stage {
        FileStage::Facts => FileAction::Stat,
        FileStage::Resolve { .. } => FileAction::Resolve,
        FileStage::Verify { .. } => FileAction::Verify,
        FileStage::Open { .. } => FileAction::Open,
        FileStage::Stream { .. } => FileAction::Read,
        FileStage::FactsAgain { .. } => FileAction::Stat,
        FileStage::Done { .. } => FileAction::Stop,
    }
}

/// The size and mode that become known with the first facts.
pub open spec fn file_classified(task: FileTask, stage: FileStage, event: FileEvent) -> Option<
    (u64, ThreadWorkMode),
> {
    match (stage, event) {
        (FileStage::Facts, FileEvent::Facts(Ok(len))) => Some(
            (len, work_mode(len as nat, task.min, task.max)),
        ),
        _ => None,
    }
}

/// The warning that a failed read of the mount file prints at once.
pub open spec fn file_alert(task: FileTask, stage: FileStage, event: FileEvent) -> Option<
    Seq<char>,
> {
    match (stage, event) {
        (FileStage::Stream { .. }, FileEvent::Read(Err(e))) => Some(
            "   ⚠️  mount read "@ + task.path + ": "@ + e@,
        ),
        _ => None,
    }
}

/// What one report about a file brings to light.
#[derive(Debug)]
pub struct FileNews {
    /// The size and mode of the file, when they become known.
    pub classified: Option<(u64, ThreadWorkMode)>,
    /// A warning to print at once.
    pub alert: Option<String>,
}

enum FilePhase {
    Facts,
    Resolve { len: u64 },
    Verify { len: u64, dest: String },
    Open { len: u64 },
    Stream { len: u64, bytes: u64 },
    FactsAgain { len: u64, bytes: u64 },
    Done { result: Result<WarmSuccess, String>, warning: Option<String> },
}

spec fn result_view(r: Result<WarmSuccess, String>) -> Result<WarmSuccess, Seq<char>> {
    match r {
        Ok(s) => Ok(s),
        Err(m) => Err(m@),
    }
}

spec fn file_stage_of(p: FilePhase) -> FileStage {
    match p {
        FilePhase::Facts => FileStage::Facts,
        FilePhase::Resolve { len } => FileStage::Resolve { len },
        FilePhase::Verify { len, dest } => FileStage::Verify { len, dest: dest@ },
        FilePhase::Open { len } => FileStage::Open { len },
        FilePhase::Stream { len, bytes } => FileStage::Stream { len, bytes },
        FilePhase::FactsAgain { len, bytes } => FileStage::FactsAgain { len, bytes },
        FilePhase::Done { result, warning } => FileStage::Done {
            result: result_view(result),
            warning: text::opt_view(warning),
        },
    }
}

/// The warming of one file.
pub struct FileWarm {
    path: String,
    min: u64,
    max: i64,
    cached: bool,
    timeout_secs: u64,
    phase: FilePhase,
}

fn fail(details: String) -> (p: FilePhase)
    ensures
        file_stage_of(p) == failed(details@, None),
{
    FilePhase::Done { result: Err(details), warning: None }
}

fn fail_with(before: &str, path: &str, cause: &str) -> (p: FilePhase)
    ensures
        file_stage_of(p) == failed(before@ + path@ + ": "@ + cause@, None),
{
    let mut m = before.to_string();
    m.append(path);
    m.append(": ");
    m.append(cause);
    fail(m)
}

fn verify_fault(path: &str, dest: &str, timeout_secs: u64, outcome: &VerifyOutcome) -> (r: Option<
    String,
>)
    ensures
        text::opt_view(r) == verify_details(path@, dest@, timeout_secs as nat, outcome@),
{
    match outcome {
        VerifyOutcome::Verified => None,
        VerifyOutcome::ChecksumDisabled => None,
        VerifyOutcome::AttributesOnly => None,
        VerifyOutcome::Cancelled => Some("cache verification cancelled".to_string()),
        VerifyOutcome::CacheFileTimeout => {
            let mut m = "cache verification timeout: ".to_string();
            m.append(dest);
            m.append(" did not appear at the expected size and remain stable within ");
            m.append(u64_text(timeout_secs).as_str());
            m.append("s");
            Some(m)
        },
        VerifyOutcome::SourceChanged => Some(glue("source changed while being read: ", path)),
        VerifyOutcome::DestinationChanged => Some(
            glue("cache file changed while being verified: ", dest),
        ),
        VerifyOutcome::SizeMismatch => {
            let mut m =
                "verification size mismatch while reading source or cache: source=".to_string();
            m.append(path);
            m.append(", cache destination=");
            m.append(dest);
            Some(m)
        },
        VerifyOutcome::ChecksumMismatch => {
            let mut m = "source/cache BLAKE3 checksum mismatch: source=".to_string();
            m.append(path);
            m.append(", cache=");
            m.append(dest);
            Some(m)
        },
        VerifyOutcome::RateLimited => Some(
            glue("cache verification access was rate limited: ", dest),
        ),
        VerifyOutcome::IoError(details) => Some(
            glue("cache verification I/O: ", details.as_str()),
        ),
    }
}

fn size_mismatch(path: &str, len: u64, bytes: u64) -> (p: FilePhase)
    ensures
        file_stage_of(p) == failed(
            "source read size mismatch: expected "@ + text::decimal(len as nat) + " bytes, read "@
                + text::decimal(bytes as nat) + " bytes ("@ + path@ + ")"@,
            None,
        ),
{
    let mut m = "source read size mismatch: expected ".to_string();
    m.append(u64_text(len).as_str());
    m.append(" bytes, read ");
    m.append(u64_text(bytes).as_str());
    m.append(" bytes (");
    m.append(path);
    m.append(")");
    fail(m)
}

fn size_changed(path: &str, len: u64, now: u64) -> (p: FilePhase)
    ensures
        file_stage_of(p) == failed(
            "source changed while being read: size was "@ + text::decimal(len as nat)
                + " bytes and is now "@ + text::decimal(now as nat) + " bytes ("@ + path@ + ")"@,
            None,
        ),
{
    let mut m = "source changed while being read: size was ".to_string();
    m.append(u64_text(len).as_str());
    m.append(" bytes and is now ");
    m.append(u64_text(now).as_str());
    m.append(" bytes (");
    m.append(path);
    m.append(")");
    fail(m)
}

fn after_verification(
    path: &str,
    timeout_secs: u64,
    len: u64,
    dest: &str,
    outcome: &VerifyOutcome,
) -> (p: FilePhase)
    ensures
        forall|task: FileTask|
            task.path == path@ && task.timeout_secs == timeout_secs ==> file_stage_of(p)
                == #[trigger] verified_stage(task, len, dest@, outcome@),
{
    match verify_fault(path, dest, timeout_secs, outcome) {
        None => {
            let success = match outcome {
                VerifyOutcome::AttributesOnly => WarmSuccess::MetadataOnly(len),
                _ => WarmSuccess::ByteRead(len),
            };
            FilePhase::Done { result: Ok(success), warning: None }
        },
        Some(details) => {
            let mut w = "verify ".to_string();
            w.append(path);
            w.append(": ");
            w.append(details.as_str());
            let warning = match outcome {
                VerifyOutcome::Cancelled => None,
                _ => Some(w),
            };
            FilePhase::Done { result: Err(details), warning }
        },
    }
}

impl FileWarm {
    /// What the file is warmed with.
    pub closed spec fn task(self) -> FileTask {
        FileTask {
            path: self.path@,
            min: self.min as nat,
            max: self.max as int,
            cached: self.cached,
            timeout_secs: self.timeout_secs as nat,
        }
    }

    /// Where the warming stands.
    pub closed spec fn stage(self) -> FileStage {
        file_stage_of(self.phase)
    }

    /// What the caller is to do next.
    pub fn action(&self) -> (r: FileAction)
        ensures
            r == file_asked(self.stage()),
    {
        match &self.phase {
            FilePhase::Facts => FileAction::Stat,
            FilePhase::Resolve { .. } => FileAction::Resolve,
            FilePhase::Verify { .. } => FileAction::Verify,
            FilePhase::Open { .. } => FileAction::Open,
            FilePhase::Stream { .. } => FileAction::Read,
            FilePhase::FactsAgain { .. } => FileAction::Stat,
            FilePhase::Done { .. } => FileAction::Stop,
        }
    }

    /// What became of the file, once that is settled.
    pub fn outcome(&self) -> (r: Option<WarmOutcome>)
        ensures
            r == match self.stage() {
                FileStage::Done { result, .. } => Some(
                    match result {
                        Ok(WarmSuccess::ByteRead(_)) => WarmOutcome::ByteRead,
                        Ok(WarmSuccess::MetadataOnly(_)) => WarmOutcome::MetadataOnly,
                        Err(_) => WarmOutcome::Error,
                    },
                ),
                _ => None,
            },
    {
        match &self.phase {
            FilePhase::Done { result, .. } => Some(
                match result {
                    Ok(WarmSuccess::ByteRead(_)) => WarmOutcome::ByteRead,
                    Ok(WarmSuccess::MetadataOnly(_)) => WarmOutcome::MetadataOnly,
                    Err(_) => WarmOutcome::Error,
                },
            ),
            _ => None,
        }
    }

    /// The result and the warning that goes with it; an unfinished warm is an error.
    pub fn into_result(self) -> (r: (Result<WarmSuccess, String>, Option<String>))
        requires
            self.stage() is Done,
        ensures
            match self.stage() {
                FileStage::Done { result, warning } => {
                    &&& match r.0 {
                        Ok(s) => result == Ok::<WarmSuccess, Seq<char>>(s),
                        Err(m) => result == Err::<WarmSuccess, Seq<char>>(m@),
                    }
                    &&& match r.1 {
                        Some(w) => warning == Some(w@),
                        None => warning is None,
                    }
                },
                _ => true,
            },
    {
        match self.phase {
            FilePhase::Done { result, warning } => (result, warning),
            _ => (Err(String::new()), None),
        }
    }

    /// Takes in what the caller reports.
    pub fn advance(self, event: FileEvent) -> (r: (FileWarm, FileNews))
        ensures
            r.0.task() == self.task(),
            r.0.stage() == file_advanced(self.task(), self.stage(), event),
            r.1.classified == file_classified(self.task(), self.stage(), event),
            match r.1.alert {
                Some(a) => file_alert(self.task(), self.stage(), event) == Some(a@),
                None => file_alert(self.task(), self.stage(), event) is None,
            },
    {
        let mut alert: Option<String> = None;
        let FileWarm { path, min, max, cached, timeout_secs, phase } = self;
        let mut classified: Option<(u64, ThreadWorkMode)> = None;
        let next = match phase {
            FilePhase::Facts => match event {
                FileEvent::Facts(Err(e)) => fail_with(
                    "source metadata ",
                    path.as_str(),
                    e.as_str(),
                ),
                FileEvent::Facts(Ok(len)) => {
                    let read = len > 0 && should_read_file_contents(len, min, max);
                    if read {
                        classified = Some((len, ThreadWorkMode::ByteRead));
                        if cached {
                            FilePhase::Resolve { len }
                        } else {
                            FilePhase::Open { len }
                        }
                    } else {
                        classified = Some((len, ThreadWorkMode::AttrOnly));
                        FilePhase::Done {
                            result: Ok(WarmSuccess::MetadataOnly(len)),
                            warning: None,
                        }
                    }
                },
                _ => FilePhase::Facts,
            },
            FilePhase::Resolve { len } => match event {
                FileEvent::Resolved(Err(e)) => {
                    let details = glue("cache path resolution: ", e.as_str());
                    let mut w = "cache path ".to_string();
                    w.append(path.as_str());
                    w.append(": ");
                    w.append(e.as_str());
                    FilePhase::Done { result: Err(details), warning: Some(w) }
                },
                FileEvent::Resolved(Ok(dest)) => FilePhase::Verify { len, dest },
                _ => FilePhase::Resolve { len },
            },
            FilePhase::Verify { len, dest } => match event {
                FileEvent::Verified(outcome) => after_verification(
                    path.as_str(),
                    timeout_secs,
                    len,
                    dest.as_str(),
                    &outcome,
                ),
                _ => FilePhase::Verify { len, dest },
            },
            FilePhase::Open { len } => match event {
                FileEvent::Opened(Err(e)) => fail_with("source open ", path.as_str(), e.as_str()),
                FileEvent::Opened(Ok(_)) => FilePhase::Stream { len, bytes: 0 },
                _ => FilePhase::Open { len },
            },
            FilePhase::Stream { len, bytes } => match event {
                FileEvent::Read(Err(e)) => {
                    let mut a = "   ⚠️  mount read ".to_string();
                    a.append(path.as_str());
                    a.append(": ");
                    a.append(e.as_str());
                    alert = Some(a);
                    fail_with("source read ", path.as_str(), e.as_str())
                },
                FileEvent::Read(Ok(n)) => if n == 0 {
                    FilePhase::FactsAgain { len, bytes }
                } else {
                    match bytes.checked_add(n as u64) {
                        Some(total) => FilePhase::Stream { len, bytes: total },
                        None => fail(
                            glue("source read byte count overflow: ", path.as_str()),
                        ),
                    }
                },
                _ => FilePhase::Stream { len, bytes },
            },
            FilePhase::FactsAgain { len, bytes } => match event {
                FileEvent::Facts(Err(e)) => fail_with(
                    "source metadata after read ",
                    path.as_str(),
                    e.as_str(),
                ),
                FileEvent::Facts(Ok(now)) => if bytes != len {
                    size_mismatch(path.as_str(), len, bytes)
                } else if now != len {
                    size_changed(path.as_str(), len, now)
                } else {
                    FilePhase::Done { result: Ok(WarmSuccess::ByteRead(len)), warning: None }
                },
                _ => FilePhase::FactsAgain { len, bytes },
            },
            FilePhase::Done { result, warning } => FilePhase::Done { result, warning },
        };
        (
            FileWarm { path, min, max, cached, timeout_secs, phase: next },
            FileNews { classified, alert },
        )
    }
}

/// Begin warming one file: contents are read when the size policy allows, otherwise
/// attributes only. With `cached`, a content read is verified against the local cache;
/// without, the mount file is only streamed.
pub fn warm_file_with_hook(
    path: &str,
    min: u64,
    max: i64,
    cached: bool,
    timeout_secs: u64,
) -> (r: FileWarm)
    ensures
        r.task() == (FileTask {
            path: path@,
            min: min as nat,
            max: max as int,
            cached,
            timeout_secs: timeout_secs as nat,
        }),
        r.stage() is Facts,
{
    FileWarm { path: path.to_string(), min, max, cached, timeout_secs, phase: FilePhase::Facts }
}

/// A file outside the size window, or an empty one, is done with its attributes alone:
/// it is neither resolved nor opened.
pub proof fn law_attributes_only_is_not_opened(task: FileTask, len: u64)
    requires
        len == 0 || !reads_contents(len as nat, task.min, task.max),
    ensures
        file_advanced(task, FileStage::Facts, FileEvent::Facts(Ok(len))) == succeeded(
            WarmSuccess::MetadataOnly(len),
        ),
        file_asked(file_advanced(task, FileStage::Facts, FileEvent::Facts(Ok(len))))
            == FileAction::Stop,
{
}

/// A file counts as read only after the whole of it was streamed: either its
/// verification found nothing wrong, or as many bytes were read as it was long before
/// and is long after.
pub proof fn law_read_means_streamed(task: FileTask, stage: FileStage, event: FileEvent, len: u64)
    requires
        stage !is Done,
        file_advanced(task, stage, event) matches FileStage::Done { result, .. } && result == Ok::<
            WarmSuccess,
            Seq<char>,
        >(WarmSuccess::ByteRead(len)),
    ensures
        match (stage, event) {
            (FileStage::Verify { len: l, .. }, FileEvent::Verified(outcome)) => l == len && (
            outcome@ is Verified || outcome@ is ChecksumDisabled),
            (FileStage::FactsAgain { len: l, bytes }, FileEvent::Facts(Ok(now))) => l == len
                && bytes == len && now == len,
            _ => false,
        },
{
}

/// A file that is not empty and whose length the size policy selects is never done with
/// its attributes alone: it is classified as a content read, and goes on to its cache path
/// where the cache is waited for and to being opened otherwise, with its length kept.
pub proof fn law_selected_file_is_read(task: FileTask, len: u64)
    requires
        len > 0,
        task.max == 0 || (task.max > 0 && task.min <= len <= task.max),
    ensures
        ({
            let next = file_advanced(task, FileStage::Facts, FileEvent::Facts(Ok(len)));
            &&& task.cached ==> next == (FileStage::Resolve { len }) && file_asked(next)
                == FileAction::Resolve
            &&& !task.cached ==> next == (FileStage::Open { len }) && file_asked(next)
                == FileAction::Open
            &&& file_classified(task, FileStage::Facts, FileEvent::Facts(Ok(len))) == Some(
                (len, ThreadWorkMode::ByteRead),
            )
        }),
{
}

/// A file that is empty or outside the size window is classified as such, and is done with
/// its attributes and its length.
pub proof fn law_other_file_is_not_read(task: FileTask, len: u64)
    requires
        len == 0 || task.max < 0 || (task.max > 0 && !(task.min <= len <= task.max)),
    ensures
        file_advanced(task, FileStage::Facts, FileEvent::Facts(Ok(len))) == (FileStage::Done {
            result: Ok(WarmSuccess::MetadataOnly(len)),
            warning: None,
        }),
        file_classified(task, FileStage::Facts, FileEvent::Facts(Ok(len))) == Some(
            (len, ThreadWorkMode::AttrOnly),
        ),
{
}

/// A resolved cache path is the one that is verified, and the verification decides: a file
/// that was verified, or read with checksums disabled, counts as read with its length.
/// Every other outcome but that of an attribute-only file is a failure, which is held as a
/// warning as well unless a stop was requested.
pub proof fn law_verification_decides(
    task: FileTask,
    len: u64,
    dest: String,
    outcome: VerifyOutcome,
)
    ensures
        file_advanced(task, FileStage::Resolve { len }, FileEvent::Resolved(Ok(dest)))
            == (FileStage::Verify { len, dest: dest@ }),
        file_asked(FileStage::Verify { len, dest: dest@ }) == FileAction::Verify,
        ({
            let end = file_advanced(
                task,
                FileStage::Verify { len, dest: dest@ },
                FileEvent::Verified(outcome),
            );
            &&& end is Done
            &&& outcome is Verified || outcome is ChecksumDisabled ==> end == (FileStage::Done {
                result: Ok(WarmSuccess::ByteRead(len)),
                warning: None,
            })
            &&& outcome is AttributesOnly ==> end == (FileStage::Done {
                result: Ok(WarmSuccess::MetadataOnly(len)),
                warning: None,
            })
            &&& !(outcome is Verified || outcome is ChecksumDisabled || outcome is AttributesOnly)
                ==> {
                &&& end->result is Err
                &&& end->warning is None <==> outcome is Cancelled
            }
        }),
{
}

/// A cache path that cannot be resolved fails the file, with a warning, and nothing is
/// opened.
pub proof fn law_unresolved_file_fails(task: FileTask, len: u64, cause: String)
    ensures
        ({
            let end = file_advanced(
                task,
                FileStage::Resolve { len },
                FileEvent::Resolved(Err(cause)),
            );
            &&& end is Done
            &&& end->result is Err
            &&& end->warning is Some
            &&& file_asked(end) == FileAction::Stop
        }),
{
}

/// Streaming a mount file counts every byte that was read: each read adds its length, the
/// end of the file leads to another look at its length, and the file counts as read exactly
/// when all three lengths agree. Every failure on the way fails the file.
pub proof fn law_streaming_counts_bytes(
    task: FileTask,
    len: u64,
    bytes: u64,
    n: usize,
    now: u64,
    cause: String,
)
    ensures
        file_advanced(task, FileStage::Open { len }, FileEvent::Opened(Ok(())))
            == (FileStage::Stream { len, bytes: 0 }),
        n > 0 && bytes + n <= u64::MAX ==> file_advanced(
            task,
            FileStage::Stream { len, bytes },
            FileEvent::Read(Ok(n)),
        ) == (FileStage::Stream { len, bytes: (bytes + n) as u64 }),
        file_advanced(task, FileStage::Stream { len, bytes }, FileEvent::Read(Ok(0)))
            == (FileStage::FactsAgain { len, bytes }),
        ({
            let end = file_advanced(
                task,
                FileStage::FactsAgain { len, bytes },
                FileEvent::Facts(Ok(now)),
            );
            &&& end is Done
            &&& bytes == len && now == len <==> end->result == Ok::<WarmSuccess, Seq<char>>(
                WarmSuccess::ByteRead(len),
            )
            &&& !(bytes == len && now == len) ==> end->result is Err
        }),
        file_advanced(task, FileStage::Facts, FileEvent::Facts(Err(cause))) matches
            FileStage::Done { result, .. } && result is Err,
        file_advanced(task, FileStage::Open { len }, FileEvent::Opened(Err(cause))) matches
            FileStage::Done { result, .. } && result is Err,
        file_advanced(task, FileStage::Stream { len, bytes }, FileEvent::Read(Err(cause))) matches
            FileStage::Done { result, .. } && result is Err,
        file_advanced(task, FileStage::FactsAgain { len, bytes }, FileEvent::Facts(Err(cause)))
            matches FileStage::Done { result, .. } && result is Err,
        file_asked(FileStage::Facts) == FileAction::Stat,
        file_asked(FileStage::Open { len }) == FileAction::Open,
        file_asked(FileStage::Stream { len, bytes }) == FileAction::Read,
        file_asked(FileStage::FactsAgain { len, bytes }) == FileAction::Stat,
{
}

/// The reason that a failure gives ends in what the system said of it, and names the file.
pub proof fn law_failures_name_the_file(task: FileTask, len: u64, bytes: u64, cause: String)
    ensures
        forall|stage: FileStage, event: FileEvent|
            (stage is Facts && event == FileEvent::Facts(Err(cause))) || (stage is Open && event
                == FileEvent::Opened(Err(cause))) || (stage is Stream && event == FileEvent::Read(
                Err(cause),
            )) || (stage is FactsAgain && event == FileEvent::Facts(Err(cause))) ==> exists|
                what: Seq<char>,
            |
                (#[trigger] file_advanced(task, stage, event))->result == Err::<
                    WarmSuccess,
                    Seq<char>,
                >(#[trigger] (what + task.path + ": "@ + cause@)),
        file_alert(task, FileStage::Stream { len, bytes }, FileEvent::Read(Err(cause))) is Some,
{
}

/// An entry of the walk is skipped exactly when it is not the root and its name is one of
/// those to ignore, byte by byte.
pub proof fn law_skipped_entries(depth: nat, name: Seq<char>, ignored: Seq<String>, i: int)
    ensures
        depth == 0 ==> !skipped(depth, native::utf8(name), ignored),
        depth > 0 && 0 <= i < ignored.len() && ignored[i]@ == name ==> skipped(
            depth,
            native::utf8(name),
            ignored,
        ),
        (forall|j: int|
            0 <= j < ignored.len() ==> native::utf8((#[trigger] ignored[j])@) != native::utf8(name))
            ==> !skipped(depth, native::utf8(name), ignored),
{
    if depth > 0 && 0 <= i < ignored.len() && ignored[i]@ == name {
        assert(native::utf8(ignored[i]@) == native::utf8(name));
    }
}

/// A report of something that was not asked for changes nothing and brings nothing to light,
/// and once a file is done nothing does. A stream that no count can hold fails the file.
pub proof fn law_only_answers_move_a_file(task: FileTask, stage: FileStage, event: FileEvent)
    ensures
        ({
            let answers = match file_asked(stage) {
                FileAction::Stat => event is Facts,
                FileAction::Resolve => event is Resolved,
                FileAction::Verify => event is Verified,
                FileAction::Open => event is Opened,
                FileAction::Read => event is Read,
                FileAction::Stop => false,
            };
            &&& !answers ==> file_advanced(task, stage, event) == stage
            &&& answers && !(event is Read) ==> file_advanced(task, stage, event) != stage
            &&& file_classified(task, stage, event) is Some <==> stage is Facts && event is Facts
                && event->Facts_0 is Ok
            &&& file_alert(task, stage, event) is Some <==> stage is Stream && event is Read
                && event->Read_0 is Err
        }),
        forall|len: u64, bytes: u64, n: usize|
            #![trigger file_advanced(
                task,
                FileStage::Stream { len, bytes },
                FileEvent::Read(Ok(n)),
            )]
            bytes + n > u64::MAX ==> {
                let end = file_advanced(
                    task,
                    FileStage::Stream { len, bytes },
                    FileEvent::Read(Ok(n)),
                );
                end is Done && end->result is Err
            },
{
}

/// The reason that a failed verification gives names what it is about: the cache file that
/// did not come in time or changed, the mount file that changed, or both where they differ;
/// and the words of the system where it failed.
pub proof fn law_reasons_of_failed_verifications(
    path: Seq<char>,
    dest: Seq<char>,
    secs: nat,
    details: Seq<char>,
)
    ensures
        verify_details(path, dest, secs, verification::Outcome::Verified) is None,
        verify_details(path, dest, secs, verification::Outcome::ChecksumDisabled) is None,
        verify_details(path, dest, secs, verification::Outcome::AttributesOnly) is None,
        ({
            let late = verify_details(path, dest, secs, verification::Outcome::CacheFileTimeout);
            late is Some && text::contains_text(late->0, dest) && text::contains_text(
                late->0,
                text::decimal(secs),
            )
        }),
        ({
            let moved = verify_details(path, dest, secs, verification::Outcome::SourceChanged);
            moved is Some && text::contains_text(moved->0, path)
        }),
        ({
            let moved = verify_details(path, dest, secs, verification::Outcome::DestinationChanged);
            moved is Some && text::contains_text(moved->0, dest)
        }),
        ({
            let other = verify_details(path, dest, secs, verification::Outcome::ChecksumMismatch);
            other is Some && text::contains_text(other->0, path) && text::contains_text(
                other->0,
                dest,
            )
        }),
        ({
            let other = verify_details(path, dest, secs, verification::Outcome::SizeMismatch);
            other is Some && text::contains_text(other->0, path) && text::contains_text(
                other->0,
                dest,
            )
        }),
        ({
            let bad = verify_details(path, dest, secs, verification::Outcome::IoError(details));
            bad is Some && text::contains_text(bad->0, details)
        }),
        verify_details(path, dest, secs, verification::Outcome::Cancelled) is Some,
        verify_details(path, dest, secs, verification::Outcome::RateLimited) is Some,
{
    let none = Seq::<char>::empty();
    let a = "cache verification timeout: "@;
    let b = " did not appear at the expected size and remain stable within "@;
    text::lemma_stands_in(a, dest, b + text::decimal(secs) + "s"@);
    assert(a + dest + (b + text::decimal(secs) + "s"@) =~= a + dest + b + text::decimal(secs)
        + "s"@);
    text::lemma_stands_in(a + dest + b, text::decimal(secs), "s"@);
    let c = "source changed while being read: "@;
    text::lemma_stands_in(c, path, none);
    assert(c + path + none =~= c + path);
    let d = "cache file changed while being verified: "@;
    text::lemma_stands_in(d, dest, none);
    assert(d + dest + none =~= d + dest);
    let e = "source/cache BLAKE3 checksum mismatch: source="@;
    let f = ", cache="@;
    text::lemma_stands_in(e, path, f + dest);
    assert(e + path + (f + dest) =~= e + path + f + dest);
    text::lemma_stands_in(e + path + f, dest, none);
    assert(e + path + f + dest + none =~= e + path + f + dest);
    let g = "verification size mismatch while reading source or cache: source="@;
    let h = ", cache destination="@;
    text::lemma_stands_in(g, path, h + dest);
    assert(g + path + (h + dest) =~= g + path + h + dest);
    text::lemma_stands_in(g + path + h, dest, none);
    assert(g + path + h + dest + none =~= g + path + h + dest);
    let i = "cache verification I/O: "@;
    text::lemma_stands_in(i, details, none);
    assert(i + details + none =~= i + details);
}

} // verus!

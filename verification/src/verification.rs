//! Complete streaming and stable local-cache verification.
//!
//! A mount file is streamed completely through BLAKE3; then the local cache file is
//! watched until it has the size that was streamed and has kept its signature for some
//! observations; then it is streamed too, and the digests are compared. The decisions
//! are taken here, one event at a time; the caller performs the file operations.

use vstd::prelude::*;
use vstd::string::StringExecFns;

use crate::native::bytes_eq;

verus! {

/// An incremental BLAKE3 computation of the `blake3` crate.
#[verifier::external_type_specification]
#[verifier::external_body]
pub struct ExHasher(blake3::Hasher);

/// The bytes that a hasher has taken in since `blake3::Hasher::new` made it.
pub uninterp spec fn hashed_bytes(h: blake3::Hasher) -> Seq<u8>;

/// The BLAKE3 digest of a byte string.
pub uninterp spec fn blake3_digest(bytes: Seq<u8>) -> Seq<u8>;

/// Starts a computation with `blake3::Hasher::new`: nothing has been taken in.
#[verifier::external_body]
fn hasher_new() -> (h: blake3::Hasher)
    ensures
        hashed_bytes(h) == Seq::<u8>::empty(),
{
    blake3::Hasher::new()
}

/// Feeds a chunk to `blake3::Hasher::update`: it is appended to what has been taken in.
/// The hash is defined for inputs of fewer than 2^64 bytes.
#[verifier::external_body]
fn hasher_update(h: &mut blake3::Hasher, chunk: &[u8])
    requires
        hashed_bytes(*old(h)).len() + chunk@.len() <= u64::MAX,
    ensures
        hashed_bytes(*final(h)) == hashed_bytes(*old(h)) + chunk@,
{
    h.update(chunk);
}

/// Ends a computation with `blake3::Hasher::finalize`: the digest of everything that
/// was taken in, whatever chunks it came in.
#[verifier::external_body]
fn hasher_finalize(h: &blake3::Hasher) -> (r: [u8; 32])
    ensures
        r@ == blake3_digest(hashed_bytes(*h)),
{
    *h.finalize().as_bytes()
}

/// A stream that is being read: how many bytes, and their digest so far.
pub struct StreamDigest {
    count: u64,
    hasher: blake3::Hasher,
}

impl StreamDigest {
    /// The count is that of the bytes taken in.
    pub closed spec fn wf(self) -> bool {
        self.count == hashed_bytes(self.hasher).len()
    }

    /// The bytes read so far.
    pub closed spec fn bytes(self) -> Seq<u8> {
        hashed_bytes(self.hasher)
    }

    /// A stream of which nothing has been read.
    pub fn new() -> (d: StreamDigest)
        ensures
            d.wf(),
            d.bytes() == Seq::<u8>::empty(),
    {
        StreamDigest { count: 0, hasher: hasher_new() }
    }

    /// How many bytes have been read.
    pub fn count(&self) -> (n: u64)
        requires
            self.wf(),
        ensures
            n == self.bytes().len(),
    {
        self.count
    }

    /// Takes in a chunk; refuses it where the count would not fit.
    pub fn absorb(&mut self, chunk: &Vec<u8>) -> (ok: bool)
        requires
            old(self).wf(),
        ensures
            final(self).wf(),
            ok == (old(self).bytes().len() + chunk@.len() <= u64::MAX),
            ok ==> final(self).bytes() == old(self).bytes() + chunk@,
            !ok ==> final(self).bytes() == old(self).bytes(),
    {
        let n = chunk.len() as u64;
        match self.count.checked_add(n) {
            Some(total) => {
                hasher_update(&mut self.hasher, chunk.as_slice());
                self.count = total;
                true
            },
            None => false,
        }
    }

    /// The digest of the bytes read.
    pub fn digest(&self) -> (r: [u8; 32])
        ensures
            r@ == blake3_digest(self.bytes()),
    {
        hasher_finalize(&self.hasher)
    }
}

/// The result of verifying a file.
#[derive(Debug, Clone, PartialEq, Eq)]
pub enum VerifyOutcome {
    Verified,
    ChecksumDisabled,
    AttributesOnly,
    CacheFileTimeout,
    SourceChanged,
    DestinationChanged,
    SizeMismatch,
    ChecksumMismatch,
    /// Reserved for access-layer classification; verification does not produce it.
    RateLimited,
    IoError(String),
    Cancelled,
}

/// The mathematical form of a result.
pub enum Outcome {
    Verified,
    ChecksumDisabled,
    AttributesOnly,
    CacheFileTimeout,
    SourceChanged,
    DestinationChanged,
    SizeMismatch,
    ChecksumMismatch,
    RateLimited,
    IoError(Seq<char>),
    Cancelled,
}

impl View for VerifyOutcome {
    type V = Outcome;

    open spec fn view(&self) -> Outcome {
        match self {
            VerifyOutcome::Verified => Outcome::Verified,
            VerifyOutcome::ChecksumDisabled => Outcome::ChecksumDisabled,
            VerifyOutcome::AttributesOnly => Outcome::AttributesOnly,
            VerifyOutcome::CacheFileTimeout => Outcome::CacheFileTimeout,
            VerifyOutcome::SourceChanged => Outcome::SourceChanged,
            VerifyOutcome::DestinationChanged => Outcome::DestinationChanged,
            VerifyOutcome::SizeMismatch => Outcome::SizeMismatch,
            VerifyOutcome::ChecksumMismatch => Outcome::ChecksumMismatch,
            VerifyOutcome::RateLimited => Outcome::RateLimited,
            VerifyOutcome::IoError(s) => Outcome::IoError(s@),
            VerifyOutcome::Cancelled => Outcome::Cancelled,
        }
    }
}

/// How to wait for a cache file.
#[derive(Debug, Clone, Copy, PartialEq, Eq, Structural)]
pub struct WaitOptions {
    pub interval_ms: u64,
    pub timeout_ms: u64,
    pub stable_observations: u8,
}

impl Default for WaitOptions {
    fn default() -> (r: Self)
        ensures
            r == (WaitOptions { interval_ms: 500, timeout_ms: 30000, stable_observations: 2 }),
    {
        WaitOptions { interval_ms: 500, timeout_ms: 30000, stable_observations: 2 }
    }
}

/// What the file system says of a file.
#[derive(Debug, Clone, Copy, PartialEq, Eq, Structural)]
pub struct FileFacts {
    pub is_file: bool,
    pub len: u64,
    /// The time of the last change in nanoseconds since the epoch, where it is known.
    pub modified: Option<i128>,
}

/// What identifies a state of a file: its length and the time of its last change.
pub open spec fn signature(f: FileFacts) -> (u64, Option<i128>) {
    (f.len, f.modified)
}

fn same_signature(a: &FileFacts, b: &FileFacts) -> (r: bool)
    ensures
        r == (signature(*a) == signature(*b)),
{
    if a.len != b.len {
        return false;
    }
    match (a.modified, b.modified) {
        (Some(x), Some(y)) => x == y,
        (None, None) => true,
        _ => false,
    }
}

/// Why the facts of a file could not be had.
#[derive(Debug)]
pub struct FactsFault {
    pub not_found: bool,
    pub text: String,
}

/// Why a file could not be opened or read.
#[derive(Debug)]
pub struct ReadFault {
    pub interrupted: bool,
    pub text: String,
}

/// What the caller reports.
#[derive(Debug)]
pub enum VerifyEvent {
    /// The facts of the file that was asked for.
    Facts(Result<FileFacts, FactsFault>),
    /// The file that was asked for is open.
    Opened,
    /// The next bytes of the stream; none at its end.
    Chunk(Vec<u8>),
    /// The file could not be opened, or a read failed.
    Failed(ReadFault),
    /// The pause is over.
    Woken,
}

/// What the caller is to do.
#[derive(Debug, Clone, Copy, PartialEq, Eq, Structural)]
pub enum VerifyAction {
    /// Ask for the facts of the mount file.
    StatSource,
    /// Open the mount file.
    OpenSource,
    /// Read the next bytes of the mount file.
    ReadSource,
    /// Ask for the facts of the cache file.
    StatCache,
    /// Pause for this many milliseconds.
    Pause(u64),
    /// Open the cache file.
    OpenCache,
    /// Read the next bytes of the cache file.
    ReadCache,
    /// Nothing more.
    Stop,
}

/// Where a verification stands, over the bytes that have been streamed.
pub enum Stage {
    SourceFacts,
    SourceOpen { before: FileFacts },
    SourceStream { before: FileFacts, source: Seq<u8> },
    SourceFactsAgain { before: FileFacts, source: Seq<u8> },
    CachePoll { source: Seq<u8>, last: Option<FileFacts>, stable: u8 },
    CachePause { source: Seq<u8>, last: Option<FileFacts>, stable: u8 },
    CacheOpen { source: Seq<u8>, seen: FileFacts },
    CacheStream { source: Seq<u8>, seen: FileFacts, cached: Seq<u8> },
    CacheFacts { source: Seq<u8>, seen: FileFacts, cached: Seq<u8> },
    Done { outcome: Outcome, source: Seq<u8>, cached: Seq<u8> },
}

/// What a verification is about.
pub struct Task {
    pub source: Seq<char>,
    pub dest: Seq<char>,
    pub checksum: bool,
    pub wait: WaitOptions,
}

/// An ended verification.
pub open spec fn ended(outcome: Outcome, source: Seq<u8>, cached: Seq<u8>) -> Stage {
    Stage::Done { outcome, source, cached }
}

/// The outcome of a failed open or read.
pub open spec fn read_outcome(what: Seq<char>, path: Seq<char>, fault: ReadFault) -> Outcome {
    if fault.interrupted {
        Outcome::Cancelled
    } else {
        Outcome::IoError(what + path + ": "@ + fault.text@)
    }
}

/// How many equal observations make a file stable.
pub open spec fn needed(wait: WaitOptions) -> int {
    if wait.stable_observations < 1 {
        1
    } else {
        wait.stable_observations as int
    }
}

/// The equal observations counted after one more.
pub open spec fn stable_after(last: Option<FileFacts>, stable: u8, facts: FileFacts) -> int {
    if last matches Some(l) && signature(l) == signature(facts) {
        stable + 1
    } else {
        1
    }
}

/// What is left to do once the cache file has been looked at without success.
pub open spec fn keep_waiting(
    task: Task,
    source: Seq<u8>,
    last: Option<FileFacts>,
    stable: u8,
    elapsed_ms: nat,
) -> Stage {
    if elapsed_ms >= task.wait.timeout_ms {
        ended(Outcome::CacheFileTimeout, source, Seq::empty())
    } else {
        Stage::CachePause { source, last, stable }
    }
}

/// The steps of a verification. `cancelled` tells whether a stop has been requested by
/// now, and `elapsed_ms` how long the cache file has been waited for.
pub open spec fn advanced(
    task: Task,
    stage: Stage,
    event: VerifyEvent,
    cancelled: bool,
    elapsed_ms: nat,
) -> Stage {
    match (stage, event) {
        (Stage::SourceFacts, VerifyEvent::Facts(Ok(before))) => Stage::SourceOpen { before },
        (Stage::SourceFacts, VerifyEvent::Facts(Err(fault))) => ended(
            Outcome::IoError("mount metadata "@ + task.source + ": "@ + fault.text@),
            Seq::empty(),
            Seq::empty(),
        ),
        (Stage::SourceOpen { before }, VerifyEvent::Opened) => if cancelled {
            ended(Outcome::Cancelled, Seq::empty(), Seq::empty())
        } else {
            Stage::SourceStream { before, source: Seq::empty() }
        },
        (Stage::SourceOpen { before: _ }, VerifyEvent::Failed(fault)) => ended(
            read_outcome("mount read "@, task.source, fault),
            Seq::empty(),
            Seq::empty(),
        ),
        (Stage::SourceStream { before, source }, VerifyEvent::Chunk(chunk)) => if chunk@.len()
            == 0 {
            Stage::SourceFactsAgain { before, source }
        } else if source.len() + chunk@.len() > u64::MAX {
            ended(
                Outcome::IoError("mount read "@ + task.source + ": byte count overflow"@),
                source,
                Seq::empty(),
            )
        } else if cancelled {
            ended(Outcome::Cancelled, source + chunk@, Seq::empty())
        } else {
            Stage::SourceStream { before, source: source + chunk@ }
        },
        (Stage::SourceStream { before: _, source }, VerifyEvent::Failed(fault)) => ended(
            read_outcome("mount read "@, task.source, fault),
            source,
            Seq::empty(),
        ),
        (Stage::SourceFactsAgain { before: _, source }, VerifyEvent::Facts(Err(fault))) => ended(
            Outcome::IoError("mount metadata "@ + task.source + ": "@ + fault.text@),
            source,
            Seq::empty(),
        ),
        (Stage::SourceFactsAgain { before, source }, VerifyEvent::Facts(Ok(after))) => {
            if source.len() == 0 {
                ended(Outcome::ChecksumDisabled, source, Seq::empty())
            } else if after.len != source.len() {
                ended(Outcome::SizeMismatch, source, Seq::empty())
            } else if before.len != 0 && before.len != source.len() {
                ended(Outcome::SourceChanged, source, Seq::empty())
            } else if cancelled {
                ended(Outcome::Cancelled, source, Seq::empty())
            } else {
                Stage::CachePoll { source, last: None, stable: 0 }
            }
        },
        (Stage::CachePoll { source, last, stable }, VerifyEvent::Facts(Ok(facts))) => if facts.is_file
            && facts.len == source.len() {
            let count = stable_after(last, stable, facts);
            if count >= needed(task.wait) {
                if task.checksum {
                    Stage::CacheOpen { source, seen: facts }
                } else {
                    ended(Outcome::ChecksumDisabled, source, Seq::empty())
                }
            } else {
                keep_waiting(task, source, Some(facts), count as u8, elapsed_ms)
            }
        } else {
            keep_waiting(task, source, last, stable, elapsed_ms)
        },
        (Stage::CachePoll { source, last, stable }, VerifyEvent::Facts(Err(fault))) => {
            if fault.not_found {
                keep_waiting(task, source, last, stable, elapsed_ms)
            } else {
                ended(
                    Outcome::IoError("cache metadata "@ + task.dest + ": "@ + fault.text@),
                    source,
                    Seq::empty(),
                )
            }
        },
        (Stage::CachePause { source, last, stable }, VerifyEvent::Woken) => if cancelled {
            ended(Outcome::Cancelled, source, Seq::empty())
        } else {
            Stage::CachePoll { source, last, stable }
        },
        (Stage::CacheOpen { source, seen }, VerifyEvent::Opened) => if cancelled {
            ended(Outcome::Cancelled, source, Seq::empty())
        } else {
            Stage::CacheStream { source, seen, cached: Seq::empty() }
        },
        (Stage::CacheOpen { source, seen: _ }, VerifyEvent::Failed(fault)) => ended(
            read_outcome("cache read "@, task.dest, fault),
            source,
            Seq::empty(),
        ),
        (Stage::CacheStream { source, seen, cached }, VerifyEvent::Chunk(chunk)) => {
            if chunk@.len() == 0 {
                Stage::CacheFacts { source, seen, cached }
            } else if cached.len() + chunk@.len() > u64::MAX {
                ended(
                    Outcome::IoError("cache read "@ + task.dest + ": byte count overflow"@),
                    source,
                    cached,
                )
            } else if cancelled {
                ended(Outcome::Cancelled, source, cached + chunk@)
            } else {
                Stage::CacheStream { source, seen, cached: cached + chunk@ }
            }
        },
        (Stage::CacheStream { source, seen: _, cached }, VerifyEvent::Failed(fault)) => ended(
            read_outcome("cache read "@, task.dest, fault),
            source,
            cached,
        ),
        (Stage::CacheFacts { source, seen: _, cached }, VerifyEvent::Facts(Err(fault))) => ended(
            Outcome::IoError("cache metadata "@ + task.dest + ": "@ + fault.text@),
            source,
            cached,
        ),
        (Stage::CacheFacts { source, seen, cached }, VerifyEvent::Facts(Ok(after))) => {
            if seen.len != cached.len() || cached.len() != source.len() {
                ended(Outcome::SizeMismatch, source, cached)
            } else if signature(seen) != signature(after) {
                ended(Outcome::DestinationChanged, source, cached)
            } else if blake3_digest(source) != blake3_digest(cached) {
                ended(Outcome::ChecksumMismatch, source, cached)
            } else {
                ended(Outcome::Verified, source, cached)
            }
        },
        _ => stage,
    }
}

/// The bytes of the mount file that have been streamed.
pub open spec fn source_bytes(stage: Stage) -> Seq<u8> {
    match stage {
        Stage::SourceFacts | Stage::SourceOpen { .. } => Seq::empty(),
        Stage::SourceStream { source, .. } => source,
        Stage::SourceFactsAgain { source, .. } => source,
        Stage::CachePoll { source, .. } => source,
        Stage::CachePause { source, .. } => source,
        Stage::CacheOpen { source, .. } => source,
        Stage::CacheStream { source, .. } => source,
        Stage::CacheFacts { source, .. } => source,
        Stage::Done { source, .. } => source,
    }
}

/// What the caller is to do at a stage.
pub open spec fn asked(task: Task, stage: Stage) -> VerifyAction {
    match stage {
        Stage::SourceFacts => VerifyAction::StatSource,
        Stage::SourceOpen { .. } => VerifyAction::OpenSource,
        Stage::SourceStream { .. } => VerifyAction::ReadSource,
        Stage::SourceFactsAgain { .. } => VerifyAction::StatSource,
        Stage::CachePoll { .. } => VerifyAction::StatCache,
        Stage::CachePause { .. } => VerifyAction::Pause(task.wait.interval_ms),
        Stage::CacheOpen { .. } => VerifyAction::OpenCache,
        Stage::CacheStream { .. } => VerifyAction::ReadCache,
        Stage::CacheFacts { .. } => VerifyAction::StatCache,
        Stage::Done { .. } => VerifyAction::Stop,
    }
}

/// A stream that has been read to its end: its length and its digest.
struct Streamed {
    count: u64,
    digest: [u8; 32],
    bytes: Ghost<Seq<u8>>,
}

impl Streamed {
    spec fn wf(self) -> bool {
        self.count == self.bytes@.len() && self.digest@ == blake3_digest(self.bytes@)
    }

    fn of(stream: &StreamDigest) -> (r: Streamed)
        requires
            stream.wf(),
        ensures
            r.wf(),
            r.bytes@ == stream.bytes(),
    {
        Streamed {
            count: stream.count(),
            digest: stream.digest(),
            bytes: Ghost(stream.bytes()),
        }
    }
}

enum Phase {
    SourceFacts,
    SourceOpen { before: FileFacts },
    SourceStream { before: FileFacts, stream: StreamDigest },
    SourceFactsAgain { before: FileFacts, source: Streamed },
    CachePoll { source: Streamed, last: Option<FileFacts>, stable: u8 },
    CachePause { source: Streamed, last: Option<FileFacts>, stable: u8 },
    CacheOpen { source: Streamed, seen: FileFacts },
    CacheStream { source: Streamed, seen: FileFacts, stream: StreamDigest },
    CacheFacts { source: Streamed, seen: FileFacts, cached: Streamed },
    Done {
        outcome: VerifyOutcome,
        count: u64,
        streamed: Ghost<Seq<u8>>,
        compared: Ghost<Seq<u8>>,
    },
}

spec fn stage_of(p: Phase) -> Stage {
    match p {
        Phase::SourceFacts => Stage::SourceFacts,
        Phase::SourceOpen { before } => Stage::SourceOpen { before },
        Phase::SourceStream { before, stream } => Stage::SourceStream {
            before,
            source: stream.bytes(),
        },
        Phase::SourceFactsAgain { before, source } => Stage::SourceFactsAgain {
            before,
            source: source.bytes@,
        },
        Phase::CachePoll { source, last, stable } => Stage::CachePoll {
            source: source.bytes@,
            last,
            stable,
        },
        Phase::CachePause { source, last, stable } => Stage::CachePause {
            source: source.bytes@,
            last,
            stable,
        },
        Phase::CacheOpen { source, seen } => Stage::CacheOpen { source: source.bytes@, seen },
        Phase::CacheStream { source, seen, stream } => Stage::CacheStream {
            source: source.bytes@,
            seen,
            cached: stream.bytes(),
        },
        Phase::CacheFacts { source, seen, cached } => Stage::CacheFacts {
            source: source.bytes@,
            seen,
            cached: cached.bytes@,
        },
        Phase::Done { outcome, streamed, compared, .. } => Stage::Done {
            outcome: outcome@,
            source: streamed@,
            cached: compared@,
        },
    }
}

spec fn phase_wf(p: Phase, wait: WaitOptions) -> bool {
    match p {
        Phase::SourceStream { stream, .. } => stream.wf(),
        Phase::SourceFactsAgain { source, .. } => source.wf(),
        Phase::CachePoll { source, stable, .. } => source.wf() && stable < needed(wait),
        Phase::CachePause { source, stable, .. } => source.wf() && stable < needed(wait),
        Phase::CacheOpen { source, .. } => source.wf(),
        Phase::CacheStream { source, stream, .. } => source.wf() && stream.wf(),
        Phase::CacheFacts { source, cached, .. } => source.wf() && cached.wf(),
        Phase::Done { count, streamed, .. } => count == streamed@.len(),
        _ => true,
    }
}

/// A verification under way.
pub struct Verification {
    source: String,
    dest: String,
    checksum: bool,
    wait: WaitOptions,
    phase: Phase,
}

fn done(
    outcome: VerifyOutcome,
    count: u64,
    source: Ghost<Seq<u8>>,
    cached: Ghost<Seq<u8>>,
) -> (p: Phase)
    requires
        count == source@.len(),
    ensures
        stage_of(p) == ended(outcome@, source@, cached@),
        forall|wait: WaitOptions| phase_wf(p, wait),
{
    Phase::Done { outcome, count, streamed: source, compared: cached }
}

fn io_error(what: &str, path: &str, cause: &str) -> (r: VerifyOutcome)
    ensures
        r@ == Outcome::IoError(what@ + path@ + ": "@ + cause@),
{
    let mut m = what.to_string();
    m.append(path);
    m.append(": ");
    m.append(cause);
    VerifyOutcome::IoError(m)
}

fn read_failure(what: &str, path: &str, fault: &ReadFault) -> (r: VerifyOutcome)
    ensures
        r@ == read_outcome(what@, path@, *fault),
{
    if fault.interrupted {
        VerifyOutcome::Cancelled
    } else {
        io_error(what, path, fault.text.as_str())
    }
}

fn overflow_failure(what: &str, path: &str) -> (r: VerifyOutcome)
    ensures
        r@ == Outcome::IoError(what@ + path@ + ": byte count overflow"@),
{
    let mut m = what.to_string();
    m.append(path);
    m.append(": byte count overflow");
    VerifyOutcome::IoError(m)
}

fn wait_on(
    timeout_ms: u64,
    source: Streamed,
    last: Option<FileFacts>,
    stable: u8,
    elapsed_ms: u64,
) -> (p: Phase)
    ensures
        p == if elapsed_ms >= timeout_ms {
            (Phase::Done {
                outcome: VerifyOutcome::CacheFileTimeout,
                count: source.count,
                streamed: source.bytes,
                compared: Ghost(Seq::empty()),
            })
        } else {
            (Phase::CachePause { source, last, stable })
        },
{
    if elapsed_ms >= timeout_ms {
        Phase::Done {
            outcome: VerifyOutcome::CacheFileTimeout,
            count: source.count,
            streamed: source.bytes,
            compared: Ghost(Seq::empty()),
        }
    } else {
        Phase::CachePause { source, last, stable }
    }
}

impl Verification {
    /// The recorded counts and digests are those of the bytes that were streamed.
    pub closed spec fn wf(self) -> bool {
        phase_wf(self.phase, self.wait)
    }

    /// What the verification is about.
    pub closed spec fn task(self) -> Task {
        Task {
            source: self.source@,
            dest: self.dest@,
            checksum: self.checksum,
            wait: self.wait,
        }
    }

    /// Where the verification stands.
    pub closed spec fn stage(self) -> Stage {
        stage_of(self.phase)
    }

    /// What the caller is to do next.
    pub fn action(&self) -> (r: VerifyAction)
        ensures
            r == asked(self.task(), self.stage()),
    {
        match &self.phase {
            Phase::SourceFacts => VerifyAction::StatSource,
            Phase::SourceOpen { .. } => VerifyAction::OpenSource,
            Phase::SourceStream { .. } => VerifyAction::ReadSource,
            Phase::SourceFactsAgain { .. } => VerifyAction::StatSource,
            Phase::CachePoll { .. } => VerifyAction::StatCache,
            Phase::CachePause { .. } => VerifyAction::Pause(self.wait.interval_ms),
            Phase::CacheOpen { .. } => VerifyAction::OpenCache,
            Phase::CacheStream { .. } => VerifyAction::ReadCache,
            Phase::CacheFacts { .. } => VerifyAction::StatCache,
            Phase::Done { .. } => VerifyAction::Stop,
        }
    }

    /// How many bytes of the mount file have been streamed.
    pub fn streamed(&self) -> (r: u64)
        requires
            self.wf(),
        ensures
            r == source_bytes(self.stage()).len(),
    {
        match &self.phase {
            Phase::SourceFacts => 0,
            Phase::SourceOpen { .. } => 0,
            Phase::SourceStream { stream, .. } => stream.count(),
            Phase::SourceFactsAgain { source, .. } => source.count,
            Phase::CachePoll { source, .. } => source.count,
            Phase::CachePause { source, .. } => source.count,
            Phase::CacheOpen { source, .. } => source.count,
            Phase::CacheStream { source, .. } => source.count,
            Phase::CacheFacts { source, .. } => source.count,
            Phase::Done { count, .. } => *count,
        }
    }

    /// The outcome, once there is one.
    pub fn outcome(&self) -> (r: Option<&VerifyOutcome>)
        ensures
            match self.stage() {
                Stage::Done { outcome, .. } => r matches Some(o) && o@ == outcome,
                _ => r is None,
            },
    {
        match &self.phase {
            Phase::Done { outcome, .. } => Some(outcome),
            _ => None,
        }
    }

    /// Takes in what the caller reports.
    pub fn advance(self, event: VerifyEvent, cancelled: bool, elapsed_ms: u64) -> (r: Verification)
        requires
            self.wf(),
        ensures
            r.wf(),
            r.task() == self.task(),
            r.stage() == advanced(
                self.task(),
                self.stage(),
                event,
                cancelled,
                elapsed_ms as nat,
            ),
    {
        let none: Ghost<Seq<u8>> = Ghost(Seq::empty());
        let Verification { source: src, dest: dst, checksum, wait, phase } = self;
        let next = match phase {
            Phase::SourceFacts => match event {
                VerifyEvent::Facts(Ok(before)) => Phase::SourceOpen { before },
                VerifyEvent::Facts(Err(fault)) => done(
                    io_error("mount metadata ", src.as_str(), fault.text.as_str()),
                    0,
                    none,
                    none,
                ),
                _ => Phase::SourceFacts,
            },
            Phase::SourceOpen { before } => match event {
                VerifyEvent::Opened => if cancelled {
                    done(VerifyOutcome::Cancelled, 0, none, none)
                } else {
                    Phase::SourceStream { before, stream: StreamDigest::new() }
                },
                VerifyEvent::Failed(fault) => done(
                    read_failure("mount read ", src.as_str(), &fault),
                    0,
                    none,
                    none,
                ),
                _ => Phase::SourceOpen { before },
            },
            Phase::SourceStream { before, stream } => match event {
                VerifyEvent::Chunk(chunk) => {
                    let mut stream = stream;
                    if chunk.len() == 0 {
                        Phase::SourceFactsAgain { before, source: Streamed::of(&stream) }
                    } else if !stream.absorb(&chunk) {
                        done(
                            overflow_failure("mount read ", src.as_str()),
                            stream.count(),
                            Ghost(stream.bytes()),
                            none,
                        )
                    } else if cancelled {
                        done(VerifyOutcome::Cancelled, stream.count(), Ghost(stream.bytes()), none)
                    } else {
                        Phase::SourceStream { before, stream }
                    }
                },
                VerifyEvent::Failed(fault) => done(
                    read_failure("mount read ", src.as_str(), &fault),
                    stream.count(),
                    Ghost(stream.bytes()),
                    none,
                ),
                _ => Phase::SourceStream { before, stream },
            },
            Phase::SourceFactsAgain { before, source } => match event {
                VerifyEvent::Facts(Err(fault)) => done(
                    io_error("mount metadata ", src.as_str(), fault.text.as_str()),
                    source.count,
                    source.bytes,
                    none,
                ),
                VerifyEvent::Facts(Ok(after)) => {
                    if source.count == 0 {
                        done(VerifyOutcome::ChecksumDisabled, source.count, source.bytes, none)
                    } else if after.len != source.count {
                        done(VerifyOutcome::SizeMismatch, source.count, source.bytes, none)
                    } else if before.len != 0 && before.len != source.count {
                        done(VerifyOutcome::SourceChanged, source.count, source.bytes, none)
                    } else if cancelled {
                        done(VerifyOutcome::Cancelled, source.count, source.bytes, none)
                    } else {
                        Phase::CachePoll { source, last: None, stable: 0 }
                    }
                },
                _ => Phase::SourceFactsAgain { before, source },
            },
            Phase::CachePoll { source, last, stable } => match event {
                VerifyEvent::Facts(Ok(facts)) => {
                    if facts.is_file && facts.len == source.count {
                        let same = match &last {
                            Some(l) => same_signature(l, &facts),
                            None => false,
                        };
                        let count: u8 = if same {
                            stable + 1
                        } else {
                            1
                        };
                        let enough: u8 = if wait.stable_observations < 1 {
                            1
                        } else {
                            wait.stable_observations
                        };
                        if count >= enough {
                            if checksum {
                                Phase::CacheOpen { source, seen: facts }
                            } else {
                                done(VerifyOutcome::ChecksumDisabled, source.count, source.bytes, none)
                            }
                        } else {
                            wait_on(wait.timeout_ms, source, Some(facts), count, elapsed_ms)
                        }
                    } else {
                        wait_on(wait.timeout_ms, source, last, stable, elapsed_ms)
                    }
                },
                VerifyEvent::Facts(Err(fault)) => {
                    if fault.not_found {
                        wait_on(wait.timeout_ms, source, last, stable, elapsed_ms)
                    } else {
                        done(
                            io_error("cache metadata ", dst.as_str(), fault.text.as_str()),
                            source.count,
                            source.bytes,
                            none,
                        )
                    }
                },
                _ => Phase::CachePoll { source, last, stable },
            },
            Phase::CachePause { source, last, stable } => match event {
                VerifyEvent::Woken => if cancelled {
                    done(VerifyOutcome::Cancelled, source.count, source.bytes, none)
                } else {
                    Phase::CachePoll { source, last, stable }
                },
                _ => Phase::CachePause { source, last, stable },
            },
            Phase::CacheOpen { source, seen } => match event {
                VerifyEvent::Opened => if cancelled {
                    done(VerifyOutcome::Cancelled, source.count, source.bytes, none)
                } else {
                    Phase::CacheStream { source, seen, stream: StreamDigest::new() }
                },
                VerifyEvent::Failed(fault) => done(
                    read_failure("cache read ", dst.as_str(), &fault),
                    source.count,
                    source.bytes,
                    none,
                ),
                _ => Phase::CacheOpen { source, seen },
            },
            Phase::CacheStream { source, seen, stream } => match event {
                VerifyEvent::Chunk(chunk) => {
                    let mut stream = stream;
                    if chunk.len() == 0 {
                        Phase::CacheFacts { source, seen, cached: Streamed::of(&stream) }
                    } else if !stream.absorb(&chunk) {
                        done(
                            overflow_failure("cache read ", dst.as_str()),
                            source.count,
                            source.bytes,
                            Ghost(stream.bytes()),
                        )
                    } else if cancelled {
                        done(
                            VerifyOutcome::Cancelled,
                            source.count,
                            source.bytes,
                            Ghost(stream.bytes()),
                        )
                    } else {
                        Phase::CacheStream { source, seen, stream }
                    }
                },
                VerifyEvent::Failed(fault) => done(
                    read_failure("cache read ", dst.as_str(), &fault),
                    source.count,
                    source.bytes,
                    Ghost(stream.bytes()),
                ),
                _ => Phase::CacheStream { source, seen, stream },
            },
            Phase::CacheFacts { source, seen, cached } => match event {
                VerifyEvent::Facts(Err(fault)) => done(
                    io_error("cache metadata ", dst.as_str(), fault.text.as_str()),
                    source.count,
                    source.bytes,
                    cached.bytes,
                ),
                VerifyEvent::Facts(Ok(after)) => {
                    let outcome = if seen.len != cached.count || cached.count != source.count {
                        VerifyOutcome::SizeMismatch
                    } else if !same_signature(&seen, &after) {
                        VerifyOutcome::DestinationChanged
                    } else if !bytes_eq(source.digest.as_slice(), cached.digest.as_slice()) {
                        VerifyOutcome::ChecksumMismatch
                    } else {
                        VerifyOutcome::Verified
                    };
                    done(outcome, source.count, source.bytes, cached.bytes)
                },
                _ => Phase::CacheFacts { source, seen, cached },
            },
            Phase::Done { outcome, count, streamed, compared } => Phase::Done {
                outcome,
                count,
                streamed,
                compared,
            },
        };
        Verification { source: src, dest: dst, checksum, wait, phase: next }
    }
}

/// Where a verification starts: files whose attributes alone are wanted are done.
pub open spec fn start(content: bool) -> Stage {
    if content {
        Stage::SourceFacts
    } else {
        ended(Outcome::AttributesOnly, Seq::empty(), Seq::empty())
    }
}

/// Begin the verification of a mount file against its cache file, both given as
/// displayed. Without `content` only attributes are wanted, and no file is opened.
pub fn verify(
    source: &str,
    dest: &str,
    checksum: bool,
    content: bool,
    wait: WaitOptions,
) -> (r: Verification)
    ensures
        r.wf(),
        r.task() == (Task { source: source@, dest: dest@, checksum, wait }),
        r.stage() == start(content),
{
    let phase = if content {
        Phase::SourceFacts
    } else {
        done(VerifyOutcome::AttributesOnly, 0, Ghost(Seq::empty()), Ghost(Seq::empty()))
    };
    Verification {
        source: source.to_string(),
        dest: dest.to_string(),
        checksum,
        wait,
        phase,
    }
}

/// One report of the caller: the event, whether a stop was requested, and the time
/// waited for the cache file.
pub struct Happening {
    pub event: VerifyEvent,
    pub cancelled: bool,
    pub elapsed_ms: nat,
}

/// Where a verification stands after a sequence of reports.
pub open spec fn after(task: Task, stage: Stage, history: Seq<Happening>) -> Stage
    decreases history.len(),
{
    if history.len() == 0 {
        stage
    } else {
        let h = history.last();
        advanced(
            task,
            after(task, stage, history.drop_last()),
            h.event,
            h.cancelled,
            h.elapsed_ms,
        )
    }
}

/// What holds of every stage that a verification of content reaches.
pub open spec fn sound(task: Task, stage: Stage) -> bool {
    match stage {
        Stage::CachePoll { source, .. } => source.len() > 0,
        Stage::CachePause { source, .. } => source.len() > 0,
        Stage::CacheOpen { source, seen } => task.checksum && source.len() > 0 && seen.len
            == source.len(),
        Stage::CacheStream { source, seen, .. } => task.checksum && source.len() > 0 && seen.len
            == source.len(),
        Stage::CacheFacts { source, seen, .. } => task.checksum && source.len() > 0 && seen.len
            == source.len(),
        Stage::Done { outcome, source, cached } => match outcome {
            Outcome::Verified => {
                &&& task.checksum
                &&& source.len() > 0
                &&& source.len() == cached.len()
                &&& blake3_digest(source) == blake3_digest(cached)
            },
            Outcome::ChecksumMismatch => {
                &&& task.checksum
                &&& source.len() == cached.len()
                &&& blake3_digest(source) != blake3_digest(cached)
            },
            Outcome::ChecksumDisabled => !task.checksum || source.len() == 0,
            Outcome::AttributesOnly => false,
            Outcome::RateLimited => false,
            _ => true,
        },
        _ => true,
    }
}

proof fn lemma_sound(task: Task, history: Seq<Happening>)
    ensures
        sound(task, after(task, start(true), history)),
    decreases history.len(),
{
    if history.len() > 0 {
        lemma_sound(task, history.drop_last());
    }
}

/// Whatever happens, a file counts as verified only if checksums are enabled, the mount
/// file was not empty, and the streamed mount file and the streamed cache file have the
/// same length and the same digest. It counts as mismatched only if the digests differ.
/// Checksums count as disabled only if they are, or if the mount file yielded no byte.
pub proof fn law_verified_means_equal(task: Task, history: Seq<Happening>)
    ensures
        match after(task, start(true), history) {
            Stage::Done { outcome, source, cached } => {
                &&& outcome is Verified ==> task.checksum && source.len() > 0 && source.len()
                    == cached.len() && blake3_digest(source) == blake3_digest(cached)
                &&& outcome is ChecksumMismatch ==> blake3_digest(source) != blake3_digest(cached)
                &&& outcome is ChecksumDisabled ==> !task.checksum || source.len() == 0
                &&& outcome !is AttributesOnly
                &&& outcome !is RateLimited
            },
            _ => true,
        },
{
    lemma_sound(task, history);
}

/// A file whose attributes alone are wanted is never opened: the verification is over
/// before it starts, and nothing that happens changes it.
pub proof fn law_attributes_only_opens_nothing(task: Task, history: Seq<Happening>)
    ensures
        after(task, start(false), history) == ended(
            Outcome::AttributesOnly,
            Seq::empty(),
            Seq::empty(),
        ),
        asked(task, after(task, start(false), history)) == VerifyAction::Stop,
    decreases history.len(),
{
    if history.len() > 0 {
        law_attributes_only_opens_nothing(task, history.drop_last());
    }
}

/// A mount file that yields no byte is not waited for: no cache file is looked at.
pub proof fn law_empty_stream_does_not_wait(
    task: Task,
    before: FileFacts,
    facts: FileFacts,
    cancelled: bool,
    elapsed_ms: nat,
)
    ensures
        advanced(
            task,
            Stage::SourceFactsAgain { before, source: Seq::empty() },
            VerifyEvent::Facts(Ok(facts)),
            cancelled,
            elapsed_ms,
        ) == ended(Outcome::ChecksumDisabled, Seq::empty(), Seq::empty()),
{
}

/// Once the time for the cache file is used up, no further pause is taken.
pub proof fn law_wait_is_finite(
    task: Task,
    stage: Stage,
    event: VerifyEvent,
    cancelled: bool,
    elapsed_ms: nat,
)
    requires
        stage is CachePoll,
        elapsed_ms >= task.wait.timeout_ms,
        event is Facts,
    ensures
        asked(task, advanced(task, stage, event, cancelled, elapsed_ms)) !is Pause,
{
}

/// The cache file counts as arrived, to be opened and compared or taken as it is where
/// checksums are disabled, only once it has been seen often enough in a row as a file of
/// the streamed length that did not change in between.
pub proof fn law_cache_must_be_stable(
    task: Task,
    stage: Stage,
    event: VerifyEvent,
    cancelled: bool,
    elapsed_ms: nat,
)
    requires
        stage !is CacheOpen,
        stage !is Done,
        match advanced(task, stage, event, cancelled, elapsed_ms) {
            Stage::CacheOpen { .. } => true,
            Stage::Done { outcome, source, .. } => outcome is ChecksumDisabled && source.len() > 0,
            _ => false,
        },
    ensures
        match (stage, event) {
            (Stage::CachePoll { source, last, stable }, VerifyEvent::Facts(Ok(facts))) => {
                &&& facts.is_file
                &&& facts.len == source.len()
                &&& stable_after(last, stable, facts) >= needed(task.wait)
                &&& needed(task.wait) >= 2 ==> last is Some && signature(last->0) == signature(
                    facts,
                )
            },
            _ => false,
        },
{
}

/// The digest of a stream does not depend on how it was cut into chunks: reading the
/// same bytes in one piece or in two leads to the same stage.
pub proof fn law_chunks_do_not_matter(
    task: Task,
    before: FileFacts,
    source: Seq<u8>,
    one: Vec<u8>,
    two: Vec<u8>,
    both: Vec<u8>,
    elapsed_ms: nat,
)
    requires
        one@.len() > 0,
        two@.len() > 0,
        both@ == one@ + two@,
        source.len() + both@.len() <= u64::MAX,
    ensures
        ({
            let s = Stage::SourceStream { before, source };
            advanced(
                task,
                advanced(task, s, VerifyEvent::Chunk(one), false, elapsed_ms),
                VerifyEvent::Chunk(two),
                false,
                elapsed_ms,
            ) == advanced(task, s, VerifyEvent::Chunk(both), false, elapsed_ms)
        }),
{
    assert(source + one@ + two@ == source + both@);
}

/// While there is time left, a look at the cache file that finds a file of whatever length
/// and time of change, or finds none, never ends the verification with a failure: it leads
/// to another pause, or the file is accepted as it was seen.
pub proof fn law_look_never_fails(
    task: Task,
    source: Seq<u8>,
    last: Option<FileFacts>,
    stable: u8,
    event: VerifyEvent,
    cancelled: bool,
    elapsed_ms: nat,
)
    requires
        elapsed_ms < task.wait.timeout_ms,
        match event {
            VerifyEvent::Facts(Ok(_)) => true,
            VerifyEvent::Facts(Err(fault)) => fault.not_found,
            _ => false,
        },
    ensures
        match advanced(
            task,
            Stage::CachePoll { source, last, stable },
            event,
            cancelled,
            elapsed_ms,
        ) {
            Stage::CachePause { source: kept, .. } => kept == source,
            Stage::CacheOpen { source: kept, seen } => kept == source && task.checksum && (event
                matches VerifyEvent::Facts(Ok(f)) && f == seen && f.is_file && f.len
                == source.len()),
            Stage::Done { outcome, source: kept, .. } => kept == source && !task.checksum && outcome
                is ChecksumDisabled && (event matches VerifyEvent::Facts(Ok(f)) && f.is_file
                && f.len == source.len()),
            _ => false,
        },
{
}

/// A look that finds no stable file once the time is used up ends the verification as timed
/// out.
pub proof fn law_time_runs_out(
    task: Task,
    source: Seq<u8>,
    last: Option<FileFacts>,
    stable: u8,
    facts: FileFacts,
    fault: FactsFault,
    cancelled: bool,
    elapsed_ms: nat,
)
    requires
        elapsed_ms >= task.wait.timeout_ms,
        !facts.is_file || facts.len != source.len() || (task.wait.stable_observations >= 2 && !(last
            matches Some(l) && l.len == facts.len && l.modified == facts.modified)),
        fault.not_found,
    ensures
        advanced(
            task,
            Stage::CachePoll { source, last, stable },
            VerifyEvent::Facts(Ok(facts)),
            cancelled,
            elapsed_ms,
        ) == (Stage::Done { outcome: Outcome::CacheFileTimeout, source, cached: Seq::empty() }),
        advanced(
            task,
            Stage::CachePoll { source, last, stable },
            VerifyEvent::Facts(Err(fault)),
            cancelled,
            elapsed_ms,
        ) == (Stage::Done { outcome: Outcome::CacheFileTimeout, source, cached: Seq::empty() }),
{
}

/// The reports of looks at a cache file that is the same each time, with a pause after
/// each; `times` says how long the file had been waited for.
pub open spec fn same_looks(facts: FileFacts, times: Seq<nat>) -> Seq<Happening>
    decreases times.len(),
{
    if times.len() == 0 {
        Seq::empty()
    } else {
        same_looks(facts, times.drop_last()).push(
            Happening {
                event: VerifyEvent::Facts(Ok(facts)),
                cancelled: false,
                elapsed_ms: times.last(),
            },
        ).push(
            Happening { event: VerifyEvent::Woken, cancelled: false, elapsed_ms: times.last() },
        )
    }
}

/// The observations that make a file stable, one at least.
pub open spec fn observations(wait: WaitOptions) -> nat {
    if wait.stable_observations == 0 {
        1
    } else {
        wait.stable_observations as nat
    }
}

proof fn lemma_same_looks(
    task: Task,
    source: Seq<u8>,
    last: Option<FileFacts>,
    stable: u8,
    facts: FileFacts,
    times: Seq<nat>,
)
    requires
        stable < observations(task.wait),
        facts.is_file,
        facts.len == source.len(),
        forall|i: int| 0 <= i < times.len() ==> #[trigger] times[i] < task.wait.timeout_ms,
    ensures
        match after(task, Stage::CachePoll { source, last, stable }, same_looks(facts, times)) {
            Stage::CachePoll { source: s, last: l, stable: k } => {
                &&& s == source
                &&& k < observations(task.wait)
                &&& times.len() > 0 ==> k >= times.len() && l == Some(facts)
            },
            Stage::CacheOpen { source: s, seen } => task.checksum && s == source && seen == facts,
            Stage::Done { outcome, source: s, cached } => !task.checksum && outcome
                is ChecksumDisabled && s == source,
            _ => false,
        },
    decreases times.len(),
{
    let begin = Stage::CachePoll { source, last, stable };
    if times.len() > 0 {
        let before = same_looks(facts, times.drop_last());
        lemma_same_looks(task, source, last, stable, facts, times.drop_last());
        let look = Happening {
            event: VerifyEvent::Facts(Ok(facts)),
            cancelled: false,
            elapsed_ms: times.last(),
        };
        let wake = Happening {
            event: VerifyEvent::Woken,
            cancelled: false,
            elapsed_ms: times.last(),
        };
        let all = same_looks(facts, times);
        assert(all == before.push(look).push(wake));
        assert(all.drop_last() == before.push(look));
        assert(before.push(look).drop_last() == before);
        assert(times.last() == times[times.len() - 1]);
        let at = after(task, begin, before);
        let looked = after(task, begin, before.push(look));
        assert(looked == advanced(task, at, look.event, false, times.last()));
        assert(after(task, begin, all) == advanced(task, looked, wake.event, false, times.last()));
    } else {
        assert(after(task, begin, same_looks(facts, times)) == begin);
    }
}

/// A cache file that is seen as a file of the streamed length, unchanged for as many looks
/// as are asked for and within the time, is accepted, whatever was seen before: it is opened
/// to be compared, or where checksums are disabled the file counts as read.
pub proof fn law_stable_file_is_accepted(
    task: Task,
    source: Seq<u8>,
    last: Option<FileFacts>,
    stable: u8,
    facts: FileFacts,
    times: Seq<nat>,
)
    requires
        stable < observations(task.wait),
        facts.is_file,
        facts.len == source.len(),
        times.len() >= observations(task.wait),
        forall|i: int| 0 <= i < times.len() ==> #[trigger] times[i] < task.wait.timeout_ms,
    ensures
        ({
            let end = after(
                task,
                Stage::CachePoll { source, last, stable },
                same_looks(facts, times),
            );
            &&& task.checksum ==> end == (Stage::CacheOpen { source, seen: facts })
            &&& !task.checksum ==> end is Done && end->outcome is ChecksumDisabled
        }),
{
    lemma_same_looks(task, source, last, stable, facts, times);
}

/// The reports of reading a file in these chunks up to its end.
pub open spec fn chunk_reports(chunks: Seq<Vec<u8>>) -> Seq<Happening> {
    Seq::new(
        chunks.len(),
        |i: int|
            Happening {
                event: VerifyEvent::Chunk(chunks[i]),
                cancelled: false,
                elapsed_ms: 0,
            },
    )
}

/// The bytes of these chunks, one after the other.
pub open spec fn chunk_bytes(chunks: Seq<Vec<u8>>) -> Seq<u8>
    decreases chunks.len(),
{
    if chunks.len() == 0 {
        Seq::empty()
    } else {
        chunk_bytes(chunks.drop_last()) + chunks.last()@
    }
}

proof fn lemma_cache_chunks(task: Task, source: Seq<u8>, seen: FileFacts, chunks: Seq<Vec<u8>>)
    requires
        forall|i: int| 0 <= i < chunks.len() ==> (#[trigger] chunks[i])@.len() > 0,
        chunk_bytes(chunks).len() <= u64::MAX,
    ensures
        after(
            task,
            Stage::CacheStream { source, seen, cached: Seq::empty() },
            chunk_reports(chunks),
        ) == (Stage::CacheStream { source, seen, cached: chunk_bytes(chunks) }),
    decreases chunks.len(),
{
    let all = chunk_reports(chunks);
    if chunks.len() > 0 {
        let before = chunks.drop_last();
        assert(all.drop_last() == chunk_reports(before));
        assert forall|i: int| 0 <= i < before.len() implies (#[trigger] before[i])@.len() > 0 by {
            assert(before[i] == chunks[i]);
        }
        assert(chunks[chunks.len() - 1]@.len() > 0);
        lemma_cache_chunks(task, source, seen, before);
    }
}

proof fn lemma_source_chunks(task: Task, before: FileFacts, chunks: Seq<Vec<u8>>)
    requires
        forall|i: int| 0 <= i < chunks.len() ==> (#[trigger] chunks[i])@.len() > 0,
        chunk_bytes(chunks).len() <= u64::MAX,
    ensures
        after(
            task,
            Stage::SourceStream { before, source: Seq::empty() },
            chunk_reports(chunks),
        ) == (Stage::SourceStream { before, source: chunk_bytes(chunks) }),
    decreases chunks.len(),
{
    let all = chunk_reports(chunks);
    if chunks.len() > 0 {
        let rest = chunks.drop_last();
        assert(all.drop_last() == chunk_reports(rest));
        assert forall|i: int| 0 <= i < rest.len() implies (#[trigger] rest[i])@.len() > 0 by {
            assert(rest[i] == chunks[i]);
        }
        assert(chunks[chunks.len() - 1]@.len() > 0);
        lemma_source_chunks(task, before, rest);
    }
}

/// A mount file that is streamed to its end in whatever chunks, and whose length agrees with
/// what was read, has its cache file waited for, with exactly the bytes that were read. Where
/// the lengths disagree it is a mismatch, or a changed source if only the earlier one does.
pub proof fn law_mount_file_is_streamed(
    task: Task,
    before: FileFacts,
    chunks: Seq<Vec<u8>>,
    facts: FileFacts,
)
    requires
        forall|i: int| 0 <= i < chunks.len() ==> (#[trigger] chunks[i])@.len() > 0,
        0 < chunk_bytes(chunks).len() <= u64::MAX,
    ensures
        ({
            let bytes = chunk_bytes(chunks);
            let streamed = after(
                task,
                Stage::SourceStream { before, source: Seq::empty() },
                chunk_reports(chunks),
            );
            let read = Stage::SourceFactsAgain { before, source: bytes };
            let end = advanced(task, read, VerifyEvent::Facts(Ok(facts)), false, 0);
            &&& streamed == (Stage::SourceStream { before, source: bytes })
            &&& forall|v: Vec<u8>|
                v@.len() == 0 ==> #[trigger] advanced(
                    task,
                    streamed,
                    VerifyEvent::Chunk(v),
                    false,
                    0,
                ) == read
            &&& facts.len == bytes.len() && (before.len == 0 || before.len == bytes.len()) ==> end
                == (Stage::CachePoll { source: bytes, last: None, stable: 0 })
            &&& facts.len != bytes.len() ==> end is Done && end->outcome is SizeMismatch
            &&& facts.len == bytes.len() && before.len != 0 && before.len != bytes.len() ==> end
                is Done && end->outcome is SourceChanged
        }),
{
    lemma_source_chunks(task, before, chunks);
}

/// A cache file that was accepted and is then read to its end, in whatever chunks, and that
/// is the same before and after: it is verified if its digest is that of the mount file, and
/// mismatched if not. One that changed meanwhile is neither, and one whose length is not that
/// of the mount file is a size mismatch.
pub proof fn law_copy_is_compared(
    task: Task,
    source: Seq<u8>,
    seen: FileFacts,
    chunks: Seq<Vec<u8>>,
    end: Vec<u8>,
    facts: FileFacts,
)
    requires
        forall|i: int| 0 <= i < chunks.len() ==> (#[trigger] chunks[i])@.len() > 0,
        chunk_bytes(chunks).len() <= u64::MAX,
        end@.len() == 0,
    ensures
        ({
            let cached = chunk_bytes(chunks);
            let opened = advanced(
                task,
                Stage::CacheOpen { source, seen },
                VerifyEvent::Opened,
                false,
                0,
            );
            let read = advanced(
                task,
                after(task, opened, chunk_reports(chunks)),
                VerifyEvent::Chunk(end),
                false,
                0,
            );
            let done = advanced(task, read, VerifyEvent::Facts(Ok(facts)), false, 0);
            &&& opened == (Stage::CacheStream { source, seen, cached: Seq::empty() })
            &&& read == (Stage::CacheFacts { source, seen, cached })
            &&& done is Done
            &&& cached.len() == source.len() && seen.len == source.len() && facts.len == seen.len
                && facts.modified == seen.modified ==> {
                &&& blake3_digest(cached) == blake3_digest(source) ==> done->outcome is Verified
                &&& blake3_digest(cached) != blake3_digest(source) ==> done->outcome
                    is ChecksumMismatch
            }
            &&& cached.len() == source.len() && seen.len == source.len() && (facts.len != seen.len
                || facts.modified != seen.modified) ==> done->outcome is DestinationChanged
            &&& cached.len() != source.len() || seen.len != cached.len() ==> done->outcome
                is SizeMismatch
        }),
{
    lemma_cache_chunks(task, source, seen, chunks);
}

/// An identical and complete copy is verified: seen unchanged often enough and in time,
/// whatever was seen of it before, and then read with the digest of the mount file.
pub proof fn law_complete_copy_is_verified(
    task: Task,
    source: Seq<u8>,
    last: Option<FileFacts>,
    stable: u8,
    facts: FileFacts,
    times: Seq<nat>,
    chunks: Seq<Vec<u8>>,
    end: Vec<u8>,
)
    requires
        task.checksum,
        stable < observations(task.wait),
        facts.is_file,
        facts.len == source.len(),
        times.len() >= observations(task.wait),
        forall|i: int| 0 <= i < times.len() ==> #[trigger] times[i] < task.wait.timeout_ms,
        forall|i: int| 0 <= i < chunks.len() ==> (#[trigger] chunks[i])@.len() > 0,
        chunk_bytes(chunks) == source,
        end@.len() == 0,
    ensures
        ({
            let accepted = after(
                task,
                Stage::CachePoll { source, last, stable },
                same_looks(facts, times),
            );
            let opened = advanced(task, accepted, VerifyEvent::Opened, false, 0);
            let read = advanced(
                task,
                after(task, opened, chunk_reports(chunks)),
                VerifyEvent::Chunk(end),
                false,
                0,
            );
            advanced(task, read, VerifyEvent::Facts(Ok(facts)), false, 0) matches Stage::Done {
                outcome,
                ..
            } && outcome is Verified
        }),
{
    law_stable_file_is_accepted(task, source, last, stable, facts, times);
    law_copy_is_compared(task, source, facts, chunks, end, facts);
}

/// How often the cache file was seen, while it was waited for, as a file of that length and
/// time of change.
pub open spec fn times_seen(task: Task, history: Seq<Happening>, facts: FileFacts) -> nat
    decreases history.len(),
{
    if history.len() == 0 {
        0
    } else {
        let before = history.drop_last();
        times_seen(task, before, facts) + if after(task, start(true), before) is CachePoll && (
        history.last().event matches VerifyEvent::Facts(Ok(f)) && f.is_file && f.len == facts.len
            && f.modified == facts.modified) {
            1nat
        } else {
            0
        }
    }
}

proof fn lemma_times_seen(task: Task, history: Seq<Happening>)
    ensures
        match after(task, start(true), history) {
            Stage::CachePoll { source, last, stable } => {
                &&& last is None ==> stable == 0
                &&& last matches Some(l) ==> l.is_file && l.len == source.len() && times_seen(
                    task,
                    history,
                    l,
                ) >= stable
            },
            Stage::CachePause { source, last, stable } => {
                &&& last is None ==> stable == 0
                &&& last matches Some(l) ==> l.is_file && l.len == source.len() && times_seen(
                    task,
                    history,
                    l,
                ) >= stable
            },
            Stage::CacheOpen { source, seen } => seen.is_file && seen.len == source.len()
                && times_seen(task, history, seen) >= observations(task.wait),
            Stage::CacheStream { source, seen, .. } => seen.is_file && seen.len == source.len()
                && times_seen(task, history, seen) >= observations(task.wait),
            Stage::CacheFacts { source, seen, .. } => seen.is_file && seen.len == source.len()
                && times_seen(task, history, seen) >= observations(task.wait),
            _ => true,
        },
    decreases history.len(),
{
    if history.len() > 0 {
        let before = history.drop_last();
        lemma_times_seen(task, before);
        lemma_seen_alike(task, before);
    }
}

/// Facts that agree in length and time of change have been seen equally often.
proof fn lemma_seen_alike(task: Task, history: Seq<Happening>)
    ensures
        forall|a: FileFacts, b: FileFacts|
            a.len == b.len && a.modified == b.modified ==> #[trigger] times_seen(task, history, a)
                == #[trigger] times_seen(task, history, b),
    decreases history.len(),
{
    if history.len() > 0 {
        let before = history.drop_last();
        lemma_seen_alike(task, before);
        assert forall|a: FileFacts, b: FileFacts|
            a.len == b.len && a.modified == b.modified implies #[trigger] times_seen(
            task,
            history,
            a,
        ) == #[trigger] times_seen(task, history, b) by {
            assert(times_seen(task, before, a) == times_seen(task, before, b));
        }
    }
}

/// Whatever happens, a cache file is compared only after it was seen, as a file of the
/// streamed length with one and the same time of change, as often as the options ask for.
pub proof fn law_compared_means_seen_often(task: Task, history: Seq<Happening>)
    ensures
        match after(task, start(true), history) {
            Stage::CacheOpen { source, seen } => seen.len == source.len() && times_seen(
                task,
                history,
                seen,
            ) >= task.wait.stable_observations,
            Stage::CacheStream { source, seen, .. } => seen.len == source.len() && times_seen(
                task,
                history,
                seen,
            ) >= task.wait.stable_observations,
            Stage::CacheFacts { source, seen, .. } => seen.len == source.len() && times_seen(
                task,
                history,
                seen,
            ) >= task.wait.stable_observations,
            _ => true,
        },
{
    lemma_times_seen(task, history);
}

/// The bytes of the cache file that have been streamed.
pub open spec fn cached_bytes(stage: Stage) -> Seq<u8> {
    match stage {
        Stage::CacheStream { cached, .. } => cached,
        Stage::CacheFacts { cached, .. } => cached,
        Stage::Done { cached, .. } => cached,
        _ => Seq::empty(),
    }
}

/// What counts as streamed is what the chunks held, and nothing is ever lost or made up: a
/// chunk of the mount file adds its bytes to those of the mount file, a chunk of the cache
/// file to those of the cache file, and no other report changes either.
pub proof fn law_bytes_are_the_chunks(
    task: Task,
    stage: Stage,
    event: VerifyEvent,
    cancelled: bool,
    elapsed_ms: nat,
)
    ensures
        ({
            let next = advanced(task, stage, event, cancelled, elapsed_ms);
            let chunk = match event {
                VerifyEvent::Chunk(c) => c@,
                _ => Seq::empty(),
            };
            &&& source_bytes(next) == source_bytes(stage) + if stage is SourceStream && source_bytes(
                stage,
            ).len() + chunk.len() <= u64::MAX {
                chunk
            } else {
                Seq::empty()
            }
            &&& cached_bytes(next) == cached_bytes(stage) + if stage is CacheStream && cached_bytes(
                stage,
            ).len() + chunk.len() <= u64::MAX {
                chunk
            } else {
                Seq::empty()
            }
        }),
{
    let none = Seq::<u8>::empty();
    assert(source_bytes(stage) + none == source_bytes(stage));
    assert(cached_bytes(stage) + none == cached_bytes(stage));
    if let VerifyEvent::Chunk(c) = event {
        if c@.len() == 0 {
            assert(c@ == none);
        }
    }
}

/// A stop ends a verification only if it was requested or a read was interrupted, and a
/// requested one ends it at the next open, pause or chunk.
pub proof fn law_stop_is_heeded(
    task: Task,
    stage: Stage,
    event: VerifyEvent,
    cancelled: bool,
    elapsed_ms: nat,
)
    requires
        stage !is Done,
    ensures
        ({
            let next = advanced(task, stage, event, cancelled, elapsed_ms);
            &&& next is Done && next->outcome is Cancelled ==> cancelled || (event matches
                VerifyEvent::Failed(fault) && fault.interrupted)
            &&& cancelled && (((stage is SourceOpen || stage is CacheOpen) && event is Opened) || (
            stage is CachePause && event is Woken)) ==> next is Done && next->outcome is Cancelled
            &&& cancelled && (stage is SourceStream || stage is CacheStream) && (event matches
                VerifyEvent::Chunk(c) && c@.len() > 0) ==> next is Done && !(next->outcome
                is Verified)
        }),
{
}

/// A file that cannot be looked at, opened or read ends the verification with an error whose
/// text ends in the cause; only a cache file that is not there yet is waited for.
pub proof fn law_errors_end_the_verification(
    task: Task,
    stage: Stage,
    fault: FactsFault,
    failure: ReadFault,
    cancelled: bool,
    elapsed_ms: nat,
)
    ensures
        stage is SourceFacts || stage is SourceFactsAgain || stage is CacheFacts || (stage
            is CachePoll && !fault.not_found) ==> ({
            let next = advanced(
                task,
                stage,
                VerifyEvent::Facts(Err(fault)),
                cancelled,
                elapsed_ms,
            );
            next is Done && (next->outcome matches Outcome::IoError(m) && m.len()
                >= fault.text@.len() && m.skip(m.len() - fault.text@.len()) == fault.text@)
        }),
        stage is SourceOpen || stage is SourceStream || stage is CacheOpen || stage is CacheStream
            ==> ({
            let next = advanced(task, stage, VerifyEvent::Failed(failure), cancelled, elapsed_ms);
            &&& next is Done
            &&& failure.interrupted ==> next->outcome is Cancelled
            &&& !failure.interrupted ==> (next->outcome matches Outcome::IoError(m) && m.len()
                >= failure.text@.len() && m.skip(m.len() - failure.text@.len()) == failure.text@)
        }),
{
    let a = advanced(task, stage, VerifyEvent::Facts(Err(fault)), cancelled, elapsed_ms);
    if let Stage::Done { outcome: Outcome::IoError(m), .. } = a {
        if stage is SourceFacts || stage is SourceFactsAgain || stage
            is CacheFacts || stage is CachePoll {
            assert(m.skip(m.len() - fault.text@.len()) =~= fault.text@);
        }
    }
    let b = advanced(task, stage, VerifyEvent::Failed(failure), cancelled, elapsed_ms);
    if let Stage::Done { outcome: Outcome::IoError(m), .. } = b {
        if stage is SourceOpen || stage is SourceStream || stage is CacheOpen || stage
            is CacheStream {
            assert(m.skip(m.len() - failure.text@.len()) =~= failure.text@);
        }
    }
}

/// The mount file is asked for until it has been streamed, and only the cache file after
/// that: what is compared is never the mount file with itself.
pub proof fn law_mount_then_cache(task: Task, stage: Stage)
    ensures
        stage is SourceFacts || stage is SourceFactsAgain ==> asked(task, stage)
            == VerifyAction::StatSource,
        stage is SourceOpen ==> asked(task, stage) == VerifyAction::OpenSource,
        stage is SourceStream ==> asked(task, stage) == VerifyAction::ReadSource,
        stage is CachePoll || stage is CacheFacts ==> asked(task, stage) == VerifyAction::StatCache,
        stage is CachePause ==> asked(task, stage) == VerifyAction::Pause(task.wait.interval_ms),
        stage is CacheOpen ==> asked(task, stage) == VerifyAction::OpenCache,
        stage is CacheStream ==> asked(task, stage) == VerifyAction::ReadCache,
        stage is Done ==> asked(task, stage) == VerifyAction::Stop,
        start(true) is SourceFacts,
        forall|facts: FileFacts, elapsed_ms: nat|
            stage is SourceFacts ==> #[trigger] advanced(
                task,
                stage,
                VerifyEvent::Facts(Ok(facts)),
                false,
                elapsed_ms,
            ) == (Stage::SourceOpen { before: facts }),
        forall|elapsed_ms: nat|
            stage is SourceOpen ==> #[trigger] advanced(
                task,
                stage,
                VerifyEvent::Opened,
                false,
                elapsed_ms,
            ) == (Stage::SourceStream { before: stage->SourceOpen_before, source: Seq::empty() }),
        forall|elapsed_ms: nat|
            stage is CachePause ==> (#[trigger] advanced(
                task,
                stage,
                VerifyEvent::Woken,
                false,
                elapsed_ms,
            )) is CachePoll,
{
}

/// A look at the cache file that finds nothing, no file, or a file of another length leaves
/// what was counted before as it is: the looks that count need not follow each other.
pub proof fn law_missed_look_keeps_the_count(
    task: Task,
    source: Seq<u8>,
    last: Option<FileFacts>,
    stable: u8,
    facts: FileFacts,
    fault: FactsFault,
    cancelled: bool,
    elapsed_ms: nat,
)
    requires
        elapsed_ms < task.wait.timeout_ms,
        !facts.is_file || facts.len != source.len(),
        fault.not_found,
    ensures
        advanced(
            task,
            Stage::CachePoll { source, last, stable },
            VerifyEvent::Facts(Ok(facts)),
            cancelled,
            elapsed_ms,
        ) == (Stage::CachePause { source, last, stable }),
        advanced(
            task,
            Stage::CachePoll { source, last, stable },
            VerifyEvent::Facts(Err(fault)),
            cancelled,
            elapsed_ms,
        ) == (Stage::CachePause { source, last, stable }),
        advanced(
            task,
            Stage::CachePause { source, last, stable },
            VerifyEvent::Woken,
            false,
            elapsed_ms,
        ) == (Stage::CachePoll { source, last, stable }),
{
}

/// A look that finds a file of the streamed length counts one more if the file has not
/// changed since it was last counted, and starts again at one if it has; the file that was
/// seen is what the next look is held against.
pub proof fn law_counting_of_looks(
    task: Task,
    source: Seq<u8>,
    last: Option<FileFacts>,
    stable: u8,
    facts: FileFacts,
    cancelled: bool,
    elapsed_ms: nat,
)
    requires
        elapsed_ms < task.wait.timeout_ms,
        facts.is_file,
        facts.len == source.len(),
        stable < task.wait.stable_observations,
    ensures
        ({
            let same = last is Some && last->0.len == facts.len && last->0.modified
                == facts.modified;
            let count = if same {
                stable + 1
            } else {
                1
            };
            let next = advanced(
                task,
                Stage::CachePoll { source, last, stable },
                VerifyEvent::Facts(Ok(facts)),
                cancelled,
                elapsed_ms,
            );
            &&& count < task.wait.stable_observations ==> next == (Stage::CachePause {
                source,
                last: Some(facts),
                stable: count as u8,
            })
            &&& count >= task.wait.stable_observations && task.checksum ==> next == (
            Stage::CacheOpen { source, seen: facts })
            &&& count >= task.wait.stable_observations && !task.checksum ==> next is Done
                && next->outcome is ChecksumDisabled
        }),
{
}

/// The time matters only while the cache file is looked for. A stop matters only when a file
/// was opened, when bytes came, when the mount file was looked at again, and behind a pause:
/// it does not change the verdict on a file that has been read.
pub proof fn law_when_time_and_stop_matter(
    task: Task,
    stage: Stage,
    event: VerifyEvent,
    cancelled: bool,
    one: nat,
    other: nat,
)
    ensures
        stage !is CachePoll ==> advanced(task, stage, event, cancelled, one) == advanced(
            task,
            stage,
            event,
            cancelled,
            other,
        ),
        !(event is Opened) && !(event is Woken) && !(event is Chunk && event->Chunk_0@.len() > 0)
            && stage !is SourceFactsAgain ==> advanced(task, stage, event, true, one) == advanced(
            task,
            stage,
            event,
            false,
            one,
        ),
{
}

/// What the second look at the mount file leads to: a mount file that yielded nothing is done
/// with; a length other than that of the stream is a mismatch; an earlier length that was
/// another one is a changed source; a stop comes only then; and else the cache file is waited
/// for.
pub proof fn law_second_look_at_the_mount(
    task: Task,
    before: FileFacts,
    source: Seq<u8>,
    facts: FileFacts,
    cancelled: bool,
    elapsed_ms: nat,
)
    requires
        source.len() > 0,
    ensures
        ({
            let next = advanced(
                task,
                Stage::SourceFactsAgain { before, source },
                VerifyEvent::Facts(Ok(facts)),
                cancelled,
                elapsed_ms,
            );
            let agrees = before.len == 0 || before.len == source.len();
            &&& facts.len != source.len() ==> next is Done && next->outcome is SizeMismatch
            &&& facts.len == source.len() && !agrees ==> next is Done && next->outcome
                is SourceChanged
            &&& facts.len == source.len() && agrees && cancelled ==> next is Done && next->outcome
                is Cancelled
            &&& facts.len == source.len() && agrees && !cancelled ==> next == (Stage::CachePoll {
                source,
                last: None,
                stable: 0,
            })
        }),
{
}

/// A chunk with bytes is added to the stream, at whatever time; with a stop requested it is
/// the last one; and a stream that no count can hold is an error.
pub proof fn law_chunks_are_taken(
    task: Task,
    before: FileFacts,
    source: Seq<u8>,
    seen: FileFacts,
    cached: Seq<u8>,
    chunk: Vec<u8>,
    cancelled: bool,
    elapsed_ms: nat,
)
    requires
        chunk@.len() > 0,
    ensures
        ({
            let next = advanced(
                task,
                Stage::SourceStream { before, source },
                VerifyEvent::Chunk(chunk),
                cancelled,
                elapsed_ms,
            );
            let fits = source.len() + chunk@.len() <= u64::MAX;
            &&& !fits ==> next is Done && next->outcome is IoError
            &&& fits && cancelled ==> next is Done && next->outcome is Cancelled
            &&& fits && !cancelled ==> next == (Stage::SourceStream {
                before,
                source: source + chunk@,
            })
        }),
        ({
            let next = advanced(
                task,
                Stage::CacheStream { source, seen, cached },
                VerifyEvent::Chunk(chunk),
                cancelled,
                elapsed_ms,
            );
            let fits = cached.len() + chunk@.len() <= u64::MAX;
            &&& !fits ==> next is Done && next->outcome is IoError
            &&& fits && cancelled ==> next is Done && next->outcome is Cancelled
            &&& fits && !cancelled ==> next == (Stage::CacheStream {
                source,
                seen,
                cached: cached + chunk@,
            })
        }),
{
}

/// A report answers what was asked for.
pub open spec fn answers(action: VerifyAction, event: VerifyEvent) -> bool {
    match action {
        VerifyAction::StatSource | VerifyAction::StatCache => event is Facts,
        VerifyAction::OpenSource | VerifyAction::OpenCache => event is Opened || event is Failed,
        VerifyAction::ReadSource | VerifyAction::ReadCache => event is Chunk || event is Failed,
        VerifyAction::Pause(_) => event is Woken,
        VerifyAction::Stop => false,
    }
}

/// A report of something that was not asked for changes nothing, and once a verification has
/// ended nothing does. A report that answers leads on, but that a stream goes on.
pub proof fn law_only_answers_count(
    task: Task,
    stage: Stage,
    event: VerifyEvent,
    cancelled: bool,
    elapsed_ms: nat,
)
    ensures
        !answers(asked(task, stage), event) ==> advanced(task, stage, event, cancelled, elapsed_ms)
            == stage,
        answers(asked(task, stage), event) && !(event is Chunk) ==> advanced(
            task,
            stage,
            event,
            cancelled,
            elapsed_ms,
        ) != stage,
{
}

/// The mathematical form of a result keeps what the result is.
pub proof fn law_forms_of_results(outcome: VerifyOutcome)
    ensures
        outcome@ is Verified <==> outcome is Verified,
        outcome@ is ChecksumDisabled <==> outcome is ChecksumDisabled,
        outcome@ is AttributesOnly <==> outcome is AttributesOnly,
        outcome@ is CacheFileTimeout <==> outcome is CacheFileTimeout,
        outcome@ is SourceChanged <==> outcome is SourceChanged,
        outcome@ is DestinationChanged <==> outcome is DestinationChanged,
        outcome@ is SizeMismatch <==> outcome is SizeMismatch,
        outcome@ is ChecksumMismatch <==> outcome is ChecksumMismatch,
        outcome@ is RateLimited <==> outcome is RateLimited,
        outcome@ is Cancelled <==> outcome is Cancelled,
        outcome matches VerifyOutcome::IoError(s) ==> outcome@ == Outcome::IoError(s@),
{
}

} // verus!

//! The bookkeeping of a tree walk with a pool of workers.
//!
//! The walker queues files and the workers take them. One record, which the caller
//! guards by a lock, holds the counters, the rows of the live table and the directories
//! whose listing failed. Every file that is begun ends in exactly one of the three
//! outcomes, and every error leaves exactly one row in the log.

use vstd::prelude::*;
use vstd::string::StringExecFns;

use crate::config;
use crate::native;
use crate::native::NativePath;
use crate::report::{glue, glue3};
use crate::status;
use crate::status::{ThreadSlotView, ThreadWorkMode, WalkStatus};
use crate::text;
use crate::warm_log;
use crate::warm_log::log_row;
use crate::worker::WarmSuccess;

verus! {

/// The kinds of log rows.
pub enum RowKind {
    Read,
    Attrib,
    Failure,
}

/// The counters of a walk.
pub struct Tally {
    pub dirs: nat,
    pub files: nat,
    pub errors: nat,
    pub active: nat,
    pub byte_reads: nat,
    pub metadata_only: nat,
    /// Files queued or being warmed.
    pub pending: nat,
    pub file_errors: nat,
    pub traversal_errors: nat,
    pub dispatch_errors: nat,
    /// Directories whose listing failed and which the walk has not reported yet.
    pub failed: Set<Seq<native::Part>>,
}

/// What can happen in a walk.
pub enum WalkOp {
    /// A directory was met.
    Directory,
    /// The listing of a directory failed.
    ListingFailed(Seq<native::Part>),
    /// A file is about to be queued.
    Queued,
    /// A queued file is given up.
    Unqueued,
    /// A worker begins a file.
    Begun,
    /// A worker ends a file.
    Ended(RowKind),
    /// The walk reports an error, on a path where it is known.
    WalkFailed(Option<Seq<native::Part>>),
    /// No worker is left to take a file.
    Disconnected,
}

/// One less, but not below zero.
pub open spec fn less(n: nat) -> nat {
    if n == 0 {
        0
    } else {
        (n - 1) as nat
    }
}

/// The walk reports a directory whose listing is already known to have failed.
pub open spec fn already_known(t: Tally, path: Option<Seq<native::Part>>) -> bool {
    path matches Some(p) && t.failed.contains(p)
}

/// The counters after an operation.
pub open spec fn effect(t: Tally, op: WalkOp) -> Tally {
    match op {
        WalkOp::Directory => Tally { dirs: t.dirs + 1, ..t },
        WalkOp::ListingFailed(p) => Tally {
            errors: t.errors + 1,
            traversal_errors: t.traversal_errors + 1,
            failed: t.failed.insert(p),
            ..t
        },
        WalkOp::Queued => Tally { pending: t.pending + 1, ..t },
        WalkOp::Unqueued => Tally { pending: less(t.pending), ..t },
        WalkOp::Begun => Tally { active: t.active + 1, files: t.files + 1, ..t },
        WalkOp::Ended(kind) => {
            let u = Tally { active: less(t.active), pending: less(t.pending), ..t };
            match kind {
                RowKind::Read => Tally { byte_reads: t.byte_reads + 1, ..u },
                RowKind::Attrib => Tally { metadata_only: t.metadata_only + 1, ..u },
                RowKind::Failure => Tally {
                    errors: t.errors + 1,
                    file_errors: t.file_errors + 1,
                    ..u
                },
            }
        },
        WalkOp::WalkFailed(path) => if already_known(t, path) {
            Tally { failed: t.failed.remove(path->0), ..t }
        } else {
            Tally { errors: t.errors + 1, traversal_errors: t.traversal_errors + 1, ..t }
        },
        WalkOp::Disconnected => Tally {
            pending: 0,
            errors: t.errors + 1,
            dispatch_errors: t.dispatch_errors + 1,
            ..t
        },
    }
}

/// The log rows that an operation leaves.
pub open spec fn rows_left(t: Tally, op: WalkOp) -> Seq<RowKind> {
    match op {
        WalkOp::ListingFailed(_) => seq![RowKind::Failure],
        WalkOp::Ended(kind) => seq![kind],
        WalkOp::WalkFailed(path) => if already_known(t, path) {
            Seq::empty()
        } else {
            seq![RowKind::Failure]
        },
        WalkOp::Disconnected => seq![RowKind::Failure],
        _ => Seq::empty(),
    }
}

/// An operation that can happen: a file is ended only by a worker that has begun one.
pub open spec fn possible(t: Tally, op: WalkOp) -> bool {
    op is Ended ==> t.active > 0
}

/// Nothing has happened.
pub open spec fn fresh() -> Tally {
    Tally {
        dirs: 0,
        files: 0,
        errors: 0,
        active: 0,
        byte_reads: 0,
        metadata_only: 0,
        pending: 0,
        file_errors: 0,
        traversal_errors: 0,
        dispatch_errors: 0,
        failed: Set::empty(),
    }
}

/// The counters after a sequence of operations.
pub open spec fn tally_after(ops: Seq<WalkOp>) -> Tally
    decreases ops.len(),
{
    if ops.len() == 0 {
        fresh()
    } else {
        effect(tally_after(ops.drop_last()), ops.last())
    }
}

/// The log rows of a sequence of operations.
pub open spec fn rows_after(ops: Seq<WalkOp>) -> Seq<RowKind>
    decreases ops.len(),
{
    if ops.len() == 0 {
        Seq::empty()
    } else {
        rows_after(ops.drop_last()) + rows_left(tally_after(ops.drop_last()), ops.last())
    }
}

/// Every operation of the sequence can happen where it stands.
pub open spec fn all_possible(ops: Seq<WalkOp>) -> bool
    decreases ops.len(),
{
    ops.len() == 0 || (all_possible(ops.drop_last()) && possible(
        tally_after(ops.drop_last()),
        ops.last(),
    ))
}

/// How often a kind of row occurs.
pub open spec fn occurrences(rows: Seq<RowKind>, kind: RowKind) -> nat
    decreases rows.len(),
{
    if rows.len() == 0 {
        0
    } else {
        occurrences(rows.drop_last(), kind) + if rows.last() == kind {
            1nat
        } else {
            0
        }
    }
}

/// Every file that was begun is being warmed or has ended in one of three ways, and
/// every error is that of a file, of the walk, or of the queue.
pub open spec fn balanced(t: Tally) -> bool {
    &&& t.files == t.byte_reads + t.metadata_only + t.file_errors + t.active
    &&& t.errors == t.file_errors + t.traversal_errors + t.dispatch_errors
}

proof fn lemma_occurrences_add(a: Seq<RowKind>, b: Seq<RowKind>, kind: RowKind)
    ensures
        occurrences(a + b, kind) == occurrences(a, kind) + occurrences(b, kind),
    decreases b.len(),
{
    if b.len() > 0 {
        assert((a + b).drop_last() == a + b.drop_last());
        lemma_occurrences_add(a, b.drop_last(), kind);
    } else {
        assert(a + b == a);
    }
}

proof fn lemma_occurrences_one(row: RowKind, kind: RowKind)
    ensures
        occurrences(seq![row], kind) == if row == kind {
            1nat
        } else {
            0
        },
        occurrences(Seq::<RowKind>::empty(), kind) == 0,
{
    assert(seq![row].drop_last() == Seq::<RowKind>::empty());
    reveal_with_fuel(occurrences, 2);
}

/// Whatever happens in a walk, its counters balance, and the log agrees with them: as
/// many failure rows as errors, as many read rows as files read, and as many attribute
/// rows as files whose metadata alone was fetched.
pub proof fn law_counters_balance(ops: Seq<WalkOp>)
    requires
        all_possible(ops),
    ensures
        balanced(tally_after(ops)),
        occurrences(rows_after(ops), RowKind::Failure) == tally_after(ops).errors,
        occurrences(rows_after(ops), RowKind::Read) == tally_after(ops).byte_reads,
        occurrences(rows_after(ops), RowKind::Attrib) == tally_after(ops).metadata_only,
    decreases ops.len(),
{
    if ops.len() > 0 {
        let before = ops.drop_last();
        law_counters_balance(before);
        let t = tally_after(before);
        let left = rows_left(t, ops.last());
        lemma_occurrences_add(rows_after(before), left, RowKind::Failure);
        lemma_occurrences_add(rows_after(before), left, RowKind::Read);
        lemma_occurrences_add(rows_after(before), left, RowKind::Attrib);
        lemma_occurrences_one(RowKind::Failure, RowKind::Failure);
        lemma_occurrences_one(RowKind::Failure, RowKind::Read);
        lemma_occurrences_one(RowKind::Failure, RowKind::Attrib);
        match ops.last() {
            WalkOp::Ended(kind) => {
                lemma_occurrences_one(kind, RowKind::Failure);
                lemma_occurrences_one(kind, RowKind::Read);
                lemma_occurrences_one(kind, RowKind::Attrib);
            },
            _ => {},
        }
    }
}

/// Once no worker is busy, every file that was begun has been counted in exactly one
/// way.
pub proof fn law_idle_walk_is_complete(ops: Seq<WalkOp>)
    requires
        all_possible(ops),
        tally_after(ops).active == 0,
    ensures
        tally_after(ops).files == tally_after(ops).byte_reads + tally_after(ops).metadata_only
            + tally_after(ops).file_errors,
{
    law_counters_balance(ops);
}

/// How many files were queued.
pub open spec fn queued(ops: Seq<WalkOp>) -> nat
    decreases ops.len(),
{
    if ops.len() == 0 {
        0
    } else {
        queued(ops.drop_last()) + if ops.last() is Queued {
            1nat
        } else {
            0
        }
    }
}

/// No file is given up and the workers last, and a worker begins only a file that is
/// queued and that no other worker has begun.
pub open spec fn undisturbed(ops: Seq<WalkOp>) -> bool
    decreases ops.len(),
{
    ops.len() == 0 || {
        let t = tally_after(ops.drop_last());
        &&& undisturbed(ops.drop_last())
        &&& !(ops.last() is Unqueued)
        &&& !(ops.last() is Disconnected)
        &&& ops.last() is Begun ==> t.active < t.pending
    }
}

/// An undisturbed walk that has drained has counted exactly the files that were queued,
/// each in exactly one way, and left no worker busy.
pub proof fn law_drained_walk_counts_every_file(ops: Seq<WalkOp>)
    requires
        all_possible(ops),
        undisturbed(ops),
        tally_after(ops).pending == 0,
    ensures
        tally_after(ops).files == queued(ops),
        tally_after(ops).byte_reads + tally_after(ops).metadata_only + tally_after(
            ops,
        ).file_errors == queued(ops),
        tally_after(ops).active == 0,
{
    lemma_undisturbed(ops);
    law_counters_balance(ops);
}

proof fn lemma_undisturbed(ops: Seq<WalkOp>)
    requires
        all_possible(ops),
        undisturbed(ops),
    ensures
        ({
            let t = tally_after(ops);
            &&& t.active <= t.pending
            &&& t.byte_reads + t.metadata_only + t.file_errors + t.pending == queued(ops)
        }),
    decreases ops.len(),
{
    if ops.len() > 0 {
        lemma_undisturbed(ops.drop_last());
    }
}

/// A directory whose listing failed and that the walk then reports again counts as one
/// error and leaves one row.
pub proof fn law_one_error_per_directory(t: Tally, path: Seq<native::Part>)
    ensures
        ({
            let first = effect(t, WalkOp::ListingFailed(path));
            let second = effect(first, WalkOp::WalkFailed(Some(path)));
            &&& second.errors == t.errors + 1
            &&& rows_left(t, WalkOp::ListingFailed(path)).len() == 1
            &&& rows_left(first, WalkOp::WalkFailed(Some(path))).len() == 0
        }),
{
}

/// The paths of a list.
pub open spec fn path_set(v: Seq<NativePath>) -> Set<Seq<native::Part>> {
    Set::new(|p: Seq<native::Part>| exists|i: int| 0 <= i < v.len() && #[trigger] v[i]@ == p)
}

/// No path occurs twice.
pub open spec fn unrepeated(v: Seq<NativePath>) -> bool {
    forall|i: int, j: int| 0 <= i < j < v.len() ==> #[trigger] v[i]@ != #[trigger] v[j]@
}

/// The record of a walk.
#[derive(Debug)]
pub struct TreeWalk {
    /// The counters and rows of the live display.
    pub status: WalkStatus,
    /// The service that the log names.
    pub service: String,
    /// Files queued or being warmed.
    pub pending: usize,
    pub file_errors: usize,
    pub traversal_errors: usize,
    pub dispatch_errors: usize,
    /// Directories whose listing failed and which the walk has not reported yet.
    pub failed: Vec<NativePath>,
}

/// What the record holds beside its counters.
pub struct Extras {
    pub service: Seq<char>,
    pub slots: Seq<status::Slot>,
    pub warnings: Seq<Seq<char>>,
    pub cancelled: bool,
    pub max_threads: nat,
    pub local_target: Seq<char>,
    pub path_max: nat,
    pub spin: int,
    pub occupied: nat,
    pub drawn_at: Option<u64>,
}

/// How a queue took a file.
#[derive(Debug, Clone, Copy, PartialEq, Eq, Structural)]
pub enum SendResult {
    /// The file is in the queue.
    Sent,
    /// The queue is full.
    Full,
    /// No worker is left.
    Disconnected,
}

/// What the walker does after an attempt to queue a file.
#[derive(Debug)]
pub enum SendNext {
    /// Go on with the walk.
    Continue,
    /// Show the status, pause and try again.
    Retry,
    /// End the walk; the row goes into the log.
    StopWalk(String),
}

/// What kind of entry the walk met.
#[derive(Debug, Clone, Copy, PartialEq, Eq, Structural)]
pub enum EntryKind {
    Directory,
    File,
    Other,
}

/// What the walker does with an entry.
#[derive(Debug, Clone, Copy, PartialEq, Eq, Structural)]
pub enum EntryAction {
    /// A stop was requested: end the walk.
    Stop,
    /// List the directory.
    List,
    /// Queue the file.
    Queue,
    /// Go on.
    Ignore,
}

/// What an error of the walk leads to.
#[derive(Debug)]
pub struct WalkFault {
    /// The row for the log.
    pub row: String,
    /// Draw the status even if the last frame is recent.
    pub force_render: bool,
    /// A warning to print, behind the erased status block.
    pub alert: Option<String>,
}

/// The row of a failed traversal: it names the path in place of a directory, and
/// neither a file nor a size.
pub open spec fn traversal_row(service: Seq<char>, path: Seq<char>, details: Seq<char>) -> Seq<
    char,
> {
    warm_log::row_text(service, path, ""@, None, "ERROR"@, details)
}

/// The room in the queue for a number of workers.
pub open spec fn queue_room(max_threads: nat) -> nat {
    let wanted = if max_threads < 1 {
        4
    } else {
        max_threads * 4
    };
    if wanted > usize::MAX {
        usize::MAX as nat
    } else {
        wanted
    }
}

/// The room in the queue between the walker and the workers.
pub fn channel_capacity(max_threads: usize) -> (r: usize)
    ensures
        r == queue_room(max_threads as nat),
        r == if max_threads < 1 {
            4int
        } else if max_threads * 4 > usize::MAX {
            usize::MAX as int
        } else {
            max_threads * 4
        },
{
    if max_threads < 1 {
        4
    } else {
        match max_threads.checked_mul(4) {
            Some(n) => n,
            None => usize::MAX,
        }
    }
}

/// What becomes of an entry.
pub open spec fn entry_step(shutdown: bool, kind: EntryKind) -> EntryAction {
    if shutdown {
        EntryAction::Stop
    } else if kind == EntryKind::Directory {
        EntryAction::List
    } else if kind == EntryKind::File {
        EntryAction::Queue
    } else {
        EntryAction::Ignore
    }
}

/// What the walker does with an entry, unless a stop was requested.
pub fn entry_action(shutdown: bool, kind: EntryKind) -> (r: EntryAction)
    ensures
        r == entry_step(shutdown, kind),
        r == if shutdown {
            EntryAction::Stop
        } else {
            match kind {
                EntryKind::Directory => EntryAction::List,
                EntryKind::File => EntryAction::Queue,
                EntryKind::Other => EntryAction::Ignore,
            }
        },
{
    if shutdown {
        return EntryAction::Stop;
    }
    match kind {
        EntryKind::Directory => EntryAction::List,
        EntryKind::File => EntryAction::Queue,
        EntryKind::Other => EntryAction::Ignore,
    }
}

/// The kind of row that a result leaves.
pub open spec fn row_kind(result: Result<WarmSuccess, String>) -> RowKind {
    match result {
        Ok(WarmSuccess::ByteRead(_)) => RowKind::Read,
        Ok(WarmSuccess::MetadataOnly(_)) => RowKind::Attrib,
        Err(_) => RowKind::Failure,
    }
}

/// The row that a result leaves.
pub open spec fn result_row(
    service: Seq<char>,
    dir: Seq<char>,
    filename: Seq<char>,
    result: Result<WarmSuccess, String>,
    seen_size: Option<u64>,
) -> Seq<char> {
    match result {
        Ok(WarmSuccess::ByteRead(n)) => warm_log::row_text(
            service,
            dir,
            filename,
            Some(n),
            "READ"@,
            ""@,
        ),
        Ok(WarmSuccess::MetadataOnly(n)) => warm_log::row_text(
            service,
            dir,
            filename,
            Some(n),
            "ATTRIB"@,
            ""@,
        ),
        Err(m) => warm_log::row_text(service, dir, filename, seen_size, "ERROR"@, m@),
    }
}

impl TreeWalk {
    /// The display is in order and no failed directory is recorded twice.
    pub open spec fn wf(self) -> bool {
        self.status.wf() && unrepeated(self.failed@)
    }

    /// The counters.
    pub open spec fn tally(self) -> Tally {
        Tally {
            dirs: self.status.dirs as nat,
            files: self.status.files as nat,
            errors: self.status.errors as nat,
            active: self.status.active_threads as nat,
            byte_reads: self.status.byte_reads as nat,
            metadata_only: self.status.metadata_only as nat,
            pending: self.pending as nat,
            file_errors: self.file_errors as nat,
            traversal_errors: self.traversal_errors as nat,
            dispatch_errors: self.dispatch_errors as nat,
            failed: path_set(self.failed@),
        }
    }

    /// Everything else.
    pub open spec fn extras(self) -> Extras {
        Extras {
            service: self.service@,
            slots: status::slot_views(self.status.slots@),
            warnings: text::texts(self.status.warnings@),
            cancelled: self.status.cancelled,
            max_threads: self.status.max_threads as nat,
            local_target: self.status.local_target@,
            path_max: self.status.path_max as nat,
            spin: self.status.frame as int,
            occupied: self.status.rendered_lines as nat,
            drawn_at: self.status.last_render_ms,
        }
    }

    /// No counter is at its machine limit.
    pub open spec fn room(self) -> bool {
        &&& self.status.dirs < usize::MAX
        &&& self.status.files < usize::MAX
        &&& self.status.errors < usize::MAX
        &&& self.status.active_threads < usize::MAX
        &&& self.status.byte_reads < usize::MAX
        &&& self.status.metadata_only < usize::MAX
        &&& self.pending < usize::MAX
        &&& self.file_errors < usize::MAX
        &&& self.traversal_errors < usize::MAX
        &&& self.dispatch_errors < usize::MAX
    }

    /// Tells whether every counter can still grow.
    pub fn has_room(&self) -> (r: bool)
        ensures
            r == self.room(),
    {
        self.status.dirs < usize::MAX && self.status.files < usize::MAX && self.status.errors
            < usize::MAX && self.status.active_threads < usize::MAX && self.status.byte_reads
            < usize::MAX && self.status.metadata_only < usize::MAX && self.pending < usize::MAX
            && self.file_errors < usize::MAX && self.traversal_errors < usize::MAX
            && self.dispatch_errors < usize::MAX
    }

    /// Begins a walk with idle workers, at least one of them.
    pub fn new(local_target: &str, max_threads: usize, width: usize, service: &str) -> (r: Self)
        ensures
            r.wf(),
            r.tally() == fresh(),
            r.extras().service == service@,
            r.extras().local_target == local_target@,
            r.extras().max_threads == if max_threads < 1 {
                1
            } else {
                max_threads as nat
            },
            r.extras().slots == Seq::new(r.extras().max_threads, |i: int| status::idle_slot()),
            r.extras().path_max == config::SOURCE_FILENAME_BASE_CHARS + (config::clamped_width(
                width as int,
            ) - config::DISPLAY_WIDTH_DEFAULT),
            r.extras().spin == status::SPINNER_FRAMES - 1,
            r.extras().warnings.len() == 0,
            !r.extras().cancelled,
            r.extras().occupied == 0,
            r.extras().drawn_at is None,
    {
        let threads: usize = if max_threads < 1 {
            1
        } else {
            max_threads
        };
        let status = WalkStatus::new(0, 0, 0, threads, local_target, width);
        let failed: Vec<NativePath> = Vec::new();
        let r = TreeWalk {
            status,
            service: service.to_string(),
            pending: 0,
            file_errors: 0,
            traversal_errors: 0,
            dispatch_errors: 0,
            failed,
        };
        assert(path_set(r.failed@) == Set::<Seq<native::Part>>::empty());
        assert(r.extras().slots == r.status.display().slots);
        r
    }

    /// Records whether a stop has been requested.
    pub fn note_shutdown(&mut self, shutdown: bool)
        requires
            old(self).wf(),
        ensures
            final(self).wf(),
            final(self).tally() == old(self).tally(),
            final(self).extras() == (Extras { cancelled: shutdown, ..old(self).extras() }),
    {
        self.status.cancelled = shutdown;
    }

    /// Counts a directory.
    pub fn directory(&mut self)
        requires
            old(self).wf(),
            old(self).room(),
        ensures
            final(self).wf(),
            final(self).tally() == effect(old(self).tally(), WalkOp::Directory),
            final(self).extras() == old(self).extras(),
    {
        self.status.record_dir();
    }

    /// Records that the listing of a directory failed: the row for the log, and at every
    /// hundredth error of the walk a warning.
    pub fn listing_failed(&mut self, path: NativePath, shown: &str, cause: &str) -> (r: (
        String,
        Option<String>,
    ))
        requires
            old(self).wf(),
            old(self).room(),
        ensures
            final(self).wf(),
            final(self).tally() == effect(old(self).tally(), WalkOp::ListingFailed(path@)),
            final(self).extras() == old(self).extras(),
            r.0@ == traversal_row(
                old(self).extras().service,
                shown@,
                "directory listing "@ + shown@ + ": "@ + cause@,
            ),
            match r.1 {
                Some(a) => final(self).tally().traversal_errors % 100 == 0 && a@
                    == "   ⚠️  Directory listing error at "@ + shown@ + ": "@ + cause@,
                None => final(self).tally().traversal_errors % 100 != 0,
            },
    {
        let ghost before = self.failed@;
        let mut present = false;
        let mut i: usize = 0;
        while i < self.failed.len()
            invariant
                i <= self.failed.len(),
                self.failed@ == before,
                *self == *old(self),
                present == exists|j: int| 0 <= j < i && #[trigger] before[j]@ == path@,
            decreases self.failed.len() - i,
        {
            if self.failed[i].same(&path) {
                assert(before[i as int]@ == path@);
                present = true;
            }
            i = i + 1;
        }
        let ghost target = path@;
        if !present {
            self.failed.push(path);
            proof {
                let after = self.failed@;
                assert(after[after.len() - 1]@ == target);
                assert forall|i: int| 0 <= i < before.len() implies #[trigger] after[i]
                    == before[i] by {}
                assert forall|p: Seq<native::Part>| #[trigger]
                    path_set(after).contains(p) <==> path_set(before).insert(target).contains(
                    p,
                ) by {
                    if path_set(before).contains(p) {
                        let i = choose|i: int| 0 <= i < before.len() && #[trigger] before[i]@ == p;
                        assert(after[i]@ == p);
                    }
                    if path_set(after).contains(p) && p != target {
                        let i = choose|i: int| 0 <= i < after.len() && #[trigger] after[i]@ == p;
                        assert(before[i]@ == p);
                    }
                }
                assert(path_set(after) == path_set(before).insert(target));
                assert(unrepeated(after)) by {
                    assert forall|i: int, j: int| 0 <= i < j < after.len() implies
                        #[trigger] after[i]@ != #[trigger] after[j]@ by {
                        assert(after[i]@ == before[i]@);
                        if j < before.len() {
                            assert(after[j]@ == before[j]@);
                        }
                    }
                }
            }
        } else {
            assert(path_set(before).insert(target) == path_set(before));
        }
        self.status.errors = self.status.errors + 1;
        self.traversal_errors = self.traversal_errors + 1;
        let mut details = glue3("directory listing ", shown, ": ");
        details.append(cause);
        let row = log_row(self.service.as_str(), shown, "", None, "ERROR", details.as_str());
        let mut alert: Option<String> = None;
        if self.traversal_errors % 100 == 0 {
            let mut a = glue3("   ⚠️  Directory listing error at ", shown, ": ");
            a.append(cause);
            alert = Some(a);
        }
        (row, alert)
    }

    /// Counts a file that is about to be queued.
    pub fn file_found(&mut self)
        requires
            old(self).wf(),
            old(self).room(),
        ensures
            final(self).wf(),
            final(self).tally() == effect(old(self).tally(), WalkOp::Queued),
            final(self).extras() == old(self).extras(),
    {
        self.pending = self.pending + 1;
    }

    /// Before each attempt to queue a file: a stop that was requested gives the file up
    /// and ends the walk.
    pub fn before_send(&mut self, shutdown: bool) -> (go: bool)
        requires
            old(self).wf(),
        ensures
            final(self).wf(),
            go == !shutdown,
            !shutdown ==> *final(self) == *old(self),
            shutdown ==> final(self).tally() == effect(old(self).tally(), WalkOp::Unqueued)
                && final(self).extras() == (Extras { cancelled: true, ..old(self).extras() }),
    {
        if shutdown {
            if self.pending > 0 {
                self.pending = self.pending - 1;
            }
            self.status.cancelled = true;
            return false;
        }
        true
    }

    /// After an attempt to queue a file.
    pub fn after_send(&mut self, result: SendResult, dir: &str, filename: &str) -> (r: SendNext)
        requires
            old(self).wf(),
            old(self).room(),
        ensures
            final(self).wf(),
            final(self).extras() == old(self).extras(),
            match result {
                SendResult::Sent => r is Continue && *final(self) == *old(self),
                SendResult::Full => r is Retry && *final(self) == *old(self),
                SendResult::Disconnected => {
                    &&& final(self).tally() == effect(old(self).tally(), WalkOp::Disconnected)
                    &&& r is StopWalk
                    &&& r->0@ == warm_log::row_text(
                        old(self).extras().service,
                        dir@,
                        filename@,
                        None,
                        "ERROR"@,
                        "worker queue disconnected before file dispatch"@,
                    )
                },
            },
    {
        match result {
            SendResult::Sent => SendNext::Continue,
            SendResult::Full => SendNext::Retry,
            SendResult::Disconnected => {
                self.pending = 0;
                self.status.errors = self.status.errors + 1;
                self.dispatch_errors = self.dispatch_errors + 1;
                SendNext::StopWalk(
                    log_row(
                        self.service.as_str(),
                        dir,
                        filename,
                        None,
                        "ERROR",
                        "worker queue disconnected before file dispatch",
                    ),
                )
            },
        }
    }

    /// A worker takes a file from the queue: it begins the file, or drops it if a stop
    /// was requested.
    pub fn take_file(&mut self, shutdown: bool) -> (warm: bool)
        requires
            old(self).wf(),
            old(self).room(),
        ensures
            final(self).wf(),
            final(self).extras() == old(self).extras(),
            warm == !shutdown,
            shutdown ==> final(self).tally() == effect(old(self).tally(), WalkOp::Unqueued),
            !shutdown ==> final(self).tally() == effect(old(self).tally(), WalkOp::Begun),
    {
        if shutdown {
            if self.pending > 0 {
                self.pending = self.pending - 1;
            }
            return false;
        }
        self.status.active_threads = self.status.active_threads + 1;
        self.status.files = self.status.files + 1;
        true
    }

    fn set_slot(&mut self, worker: usize, slot: ThreadSlotView)
        requires
            old(self).wf(),
        ensures
            final(self).wf(),
            final(self).tally() == old(self).tally(),
            final(self).extras() == (Extras {
                slots: if worker < old(self).extras().slots.len() {
                    old(self).extras().slots.update(worker as int, slot@)
                } else {
                    old(self).extras().slots
                },
                ..old(self).extras()
            }),
    {
        if worker < self.status.slots.len() {
            let ghost before = self.status.slots@;
            self.status.slots.set(worker, slot);
            assert(status::slot_views(self.status.slots@) == status::slot_views(before).update(
                worker as int,
                slot@,
            ));
        }
    }

    /// Shows in a worker's row the file it has begun.
    pub fn classified(&mut self, worker: usize, size: u64, mode: ThreadWorkMode, display: String)
        requires
            old(self).wf(),
        ensures
            final(self).wf(),
            final(self).tally() == old(self).tally(),
            final(self).extras() == (Extras {
                slots: if worker < old(self).extras().slots.len() {
                    old(self).extras().slots.update(
                        worker as int,
                        (status::Slot { mode, size, bytes_done: 0, path: display@ }),
                    )
                } else {
                    old(self).extras().slots
                },
                ..old(self).extras()
            }),
    {
        self.set_slot(worker, ThreadSlotView { mode, size, bytes_done: 0, path: display });
    }

    /// Shows in a worker's row how much it has read.
    pub fn progress(&mut self, worker: usize, bytes_done: u64)
        requires
            old(self).wf(),
        ensures
            final(self).wf(),
            final(self).tally() == old(self).tally(),
            final(self).extras() == (Extras {
                slots: if worker < old(self).extras().slots.len() {
                    old(self).extras().slots.update(
                        worker as int,
                        (status::Slot {
                            bytes_done,
                            ..old(self).extras().slots[worker as int]
                        }),
                    )
                } else {
                    old(self).extras().slots
                },
                ..old(self).extras()
            }),
    {
        if worker < self.status.slots.len() {
            let slot = ThreadSlotView {
                mode: self.status.slots[worker].mode,
                size: self.status.slots[worker].size,
                bytes_done,
                path: self.status.slots[worker].path.clone(),
            };
            self.set_slot(worker, slot);
        }
    }

    /// A worker ends a file: its row is cleared, the result is counted, a warning is held
    /// back, and the row for the log is handed out.
    pub fn finish_file(
        &mut self,
        worker: usize,
        result: Result<WarmSuccess, String>,
        warning: Option<String>,
        seen_size: Option<u64>,
        dir: &str,
        filename: &str,
    ) -> (row: String)
        requires
            old(self).wf(),
            old(self).room(),
            old(self).tally().active > 0,
        ensures
            final(self).wf(),
            final(self).tally() == effect(old(self).tally(), WalkOp::Ended(row_kind(result))),
            row@ == result_row(
                old(self).extras().service,
                dir@,
                filename@,
                result,
                seen_size,
            ),
            final(self).extras() == (Extras {
                slots: if worker < old(self).extras().slots.len() {
                    old(self).extras().slots.update(worker as int, status::idle_slot())
                } else {
                    old(self).extras().slots
                },
                warnings: match warning {
                    Some(w) => old(self).extras().warnings.push(w@),
                    None => old(self).extras().warnings,
                },
                ..old(self).extras()
            }),
    {
        self.set_slot(worker, ThreadSlotView::idle());
        if let Some(w) = warning {
            let ghost before = self.status.warnings@;
            self.status.warnings.push(w);
            assert(text::texts(self.status.warnings@) == text::texts(before).push(w@));
        }
        self.status.active_threads = self.status.active_threads - 1;
        if self.pending > 0 {
            self.pending = self.pending - 1;
        }
        let service = self.service.as_str();
        match result {
            Ok(WarmSuccess::ByteRead(n)) => {
                let row = log_row(service, dir, filename, Some(n), "READ", "");
                self.status.byte_reads = self.status.byte_reads + 1;
                row
            },
            Ok(WarmSuccess::MetadataOnly(n)) => {
                let row = log_row(service, dir, filename, Some(n), "ATTRIB", "");
                self.status.metadata_only = self.status.metadata_only + 1;
                row
            },
            Err(details) => {
                let row = log_row(service, dir, filename, seen_size, "ERROR", details.as_str());
                self.status.errors = self.status.errors + 1;
                self.file_errors = self.file_errors + 1;
                row
            },
        }
    }

    /// The walk reports an error. A directory whose listing is already known to have
    /// failed is not counted again.
    pub fn walk_failed(
        &mut self,
        path: Option<NativePath>,
        shown: Option<&str>,
        cause: &str,
    ) -> (r: Option<WalkFault>)
        requires
            old(self).wf(),
            old(self).room(),
        ensures
            final(self).wf(),
            final(self).extras() == old(self).extras(),
            ({
                let at = match path {
                    Some(p) => Some(p@),
                    None => None,
                };
                let n = final(self).tally().traversal_errors;
                &&& final(self).tally() == effect(old(self).tally(), WalkOp::WalkFailed(at))
                &&& r is None <==> already_known(old(self).tally(), at)
                &&& r matches Some(fault) ==> {
                    &&& fault.row@ == traversal_row(
                        old(self).extras().service,
                        match shown {
                            Some(s) => s@,
                            None => ""@,
                        },
                        "directory traversal: "@ + cause@,
                    )
                    &&& fault.force_render == (n % 10 == 0)
                    &&& fault.alert is Some <==> n % 100 == 0
                    &&& fault.alert matches Some(a) ==> a@ == "   ⚠️  Walk error at "@ + (
                    match shown {
                        Some(s) => s@,
                        None => "<unknown>"@,
                    }) + ": "@ + cause@
                }
            }),
    {
        let ghost before = self.failed@;
        let ghost set_before = path_set(before);
        if let Some(p) = &path {
            let mut i: usize = 0;
            while i < self.failed.len()
                invariant
                    i <= self.failed.len(),
                    self.failed@ == before,
                    set_before == path_set(before),
                    *self == *old(self),
                    old(self).wf(),
                    path == Some(*p),
                    forall|j: int| 0 <= j < i ==> #[trigger] before[j]@ != p@,
                decreases self.failed.len() - i,
            {
                if self.failed[i].same(p) {
                    self.failed.remove(i);
                    proof {
                        let after = self.failed@;
                        assert(before[i as int]@ == p@);
                        assert(set_before.contains(p@));
                        assert(after == before.remove(i as int));
                        assert forall|q: Seq<native::Part>| #[trigger]
                            path_set(after).contains(q) <==> set_before.remove(p@).contains(
                            q,
                        ) by {
                            if path_set(after).contains(q) {
                                let k = choose|k: int|
                                    0 <= k < after.len() && #[trigger] after[k]@ == q;
                                if k < i {
                                    assert(before[k]@ == q);
                                } else {
                                    assert(before[k + 1]@ == q);
                                }
                            }
                            if set_before.remove(p@).contains(q) {
                                let k = choose|k: int|
                                    0 <= k < before.len() && #[trigger] before[k]@ == q;
                                if k < i {
                                    assert(after[k]@ == q);
                                } else {
                                    assert(after[k - 1]@ == q);
                                }
                            }
                        }
                        assert(path_set(after) == set_before.remove(p@));
                        assert forall|a: int, b: int| 0 <= a < b < after.len() implies
                            #[trigger] after[a]@ != #[trigger] after[b]@ by {
                            let x = if a < i {
                                a
                            } else {
                                a + 1
                            };
                            let y = if b < i {
                                b
                            } else {
                                b + 1
                            };
                            assert(before[x]@ != before[y]@);
                        }
                    }
                    return None;
                }
                i = i + 1;
            }
            assert(!set_before.contains(p@));
        }
        self.status.errors = self.status.errors + 1;
        self.traversal_errors = self.traversal_errors + 1;
        let details = glue("directory traversal: ", cause);
        let dir = match shown {
            Some(s) => s,
            None => "",
        };
        let row = log_row(self.service.as_str(), dir, "", None, "ERROR", details.as_str());
        let mut alert: Option<String> = None;
        if self.traversal_errors % 100 == 0 {
            let place = match shown {
                Some(s) => s,
                None => "<unknown>",
            };
            let mut a = glue3("   ⚠️  Walk error at ", place, ": ");
            a.append(cause);
            alert = Some(a);
        }
        Some(WalkFault { row, force_render: self.traversal_errors % 10 == 0, alert })
    }
}

/// Where the walker stands.
#[derive(Debug, Clone, Copy, PartialEq, Eq, Structural)]
pub enum WalkerPhase {
    /// Waiting for the next entry of the walk.
    Walking,
    /// Waiting for the listing of a directory.
    Listing,
    /// Waiting for the queue to take a file.
    Sending,
    /// Pausing because the queue is full.
    Retrying,
    /// The walk is over; workers are still busy.
    Draining,
    /// Everything is done.
    Finished,
}

/// What the walker is to do.
#[derive(Debug, Clone, Copy, PartialEq, Eq, Structural)]
pub enum WalkerAction {
    /// Ask the walk for its next entry.
    NextEntry,
    /// List the directory that was met.
    List,
    /// Offer the file that was met to the queue, without waiting.
    TrySend,
    /// Pause for one refresh interval.
    Pause,
    /// Nothing more.
    Stop,
}

/// A directory that could not be listed.
#[derive(Debug)]
pub struct ListingFault {
    pub path: NativePath,
    pub shown: String,
    pub cause: String,
}

/// What the walker reports.
#[derive(Debug)]
pub enum WalkerEvent {
    /// The walk met an entry.
    Entry(EntryKind),
    /// The walk failed on a path, where it is known.
    Failed { path: Option<NativePath>, shown: Option<String>, cause: String },
    /// The walk has no more entries.
    End,
    /// The directory was listed, or why not.
    Listed(Option<ListingFault>),
    /// How the queue took a file: its directory and name, for the log.
    Sent { result: SendResult, dir: String, filename: String },
    /// The pause is over.
    Woken,
}

/// What one report leads to.
#[derive(Debug)]
pub struct WalkerNews {
    /// A row for the log.
    pub row: Option<String>,
    /// A warning to print behind the erased status block.
    pub alert: Option<String>,
    /// Draw the status; `true` even if the last frame is recent.
    pub render: Option<bool>,
    /// Close the queue: no more files will come.
    pub close_queue: bool,
}

/// The effect of one report, over the counters.
pub struct WalkerMove {
    pub op: Option<WalkOp>,
    pub cancelled: Option<bool>,
    pub render: Option<bool>,
    pub close_queue: bool,
    pub phase: WalkerPhase,
    pub action: WalkerAction,
}

/// The counters after at most one operation.
pub open spec fn maybe_effect(t: Tally, op: Option<WalkOp>) -> Tally {
    match op {
        Some(o) => effect(t, o),
        None => t,
    }
}

/// The walk is over: wait until the workers are done with what is queued.
pub open spec fn over(t: Tally, op: Option<WalkOp>, cancelled: bool, close_queue: bool) -> WalkerMove {
    let busy = maybe_effect(t, op).pending > 0;
    WalkerMove {
        op,
        cancelled: Some(cancelled),
        render: Some(true),
        close_queue,
        phase: if busy {
            WalkerPhase::Draining
        } else {
            WalkerPhase::Finished
        },
        action: if busy {
            WalkerAction::Pause
        } else {
            WalkerAction::Stop
        },
    }
}

/// On with the walk, drawing the status if it is due.
pub open spec fn onward(op: Option<WalkOp>, cancelled: Option<bool>, render: Option<bool>) -> WalkerMove {
    WalkerMove {
        op,
        cancelled,
        render,
        close_queue: false,
        phase: WalkerPhase::Walking,
        action: WalkerAction::NextEntry,
    }
}

/// Nothing to report, on to the given phase.
pub open spec fn turned(
    op: Option<WalkOp>,
    cancelled: Option<bool>,
    render: Option<bool>,
    phase: WalkerPhase,
    action: WalkerAction,
) -> WalkerMove {
    WalkerMove { op, cancelled, render, close_queue: false, phase, action }
}

/// What the walker is to do in a phase when nothing else is decided.
pub open spec fn usual_action(phase: WalkerPhase) -> WalkerAction {
    match phase {
        WalkerPhase::Walking => WalkerAction::NextEntry,
        WalkerPhase::Listing => WalkerAction::List,
        WalkerPhase::Sending => WalkerAction::TrySend,
        WalkerPhase::Retrying => WalkerAction::Pause,
        WalkerPhase::Draining => WalkerAction::Pause,
        WalkerPhase::Finished => WalkerAction::Stop,
    }
}

/// The view of an optional path.
pub open spec fn maybe_path(p: Option<NativePath>) -> Option<Seq<native::Part>> {
    match p {
        Some(q) => Some(q@),
        None => None,
    }
}

/// The steps of the walker. A stop that was requested ends the walk before the next
/// entry or the next attempt to queue a file.
pub open spec fn walker_move(
    t: Tally,
    phase: WalkerPhase,
    event: WalkerEvent,
    shutdown: bool,
) -> WalkerMove {
    match (phase, event) {
        (WalkerPhase::Walking, WalkerEvent::Entry(kind)) => if shutdown {
            over(t, None, true, true)
        } else {
            match kind {
                EntryKind::Directory => turned(
                    Some(WalkOp::Directory),
                    None,
                    None,
                    WalkerPhase::Listing,
                    WalkerAction::List,
                ),
                EntryKind::File => turned(
                    Some(WalkOp::Queued),
                    None,
                    None,
                    WalkerPhase::Sending,
                    WalkerAction::TrySend,
                ),
                EntryKind::Other => onward(None, Some(false), Some(false)),
            }
        },
        (WalkerPhase::Walking, WalkerEvent::Failed { path, .. }) => if shutdown {
            over(t, None, true, true)
        } else {
            let op = WalkOp::WalkFailed(maybe_path(path));
            if already_known(t, maybe_path(path)) {
                onward(Some(op), None, None)
            } else {
                onward(Some(op), None, Some(effect(t, op).traversal_errors % 10 == 0))
            }
        },
        (WalkerPhase::Walking, WalkerEvent::End) => over(t, None, shutdown, true),
        (WalkerPhase::Listing, WalkerEvent::Listed(fault)) => onward(
            match fault {
                Some(f) => Some(WalkOp::ListingFailed(f.path@)),
                None => None,
            },
            Some(shutdown),
            Some(false),
        ),
        (WalkerPhase::Sending, WalkerEvent::Sent { result, .. }) => match result {
            SendResult::Sent => onward(None, Some(shutdown), Some(false)),
            SendResult::Full => turned(
                None,
                Some(shutdown),
                Some(true),
                WalkerPhase::Retrying,
                WalkerAction::Pause,
            ),
            SendResult::Disconnected => over(t, Some(WalkOp::Disconnected), shutdown, true),
        },
        (WalkerPhase::Retrying, WalkerEvent::Woken) => if shutdown {
            over(t, Some(WalkOp::Unqueued), true, true)
        } else {
            turned(None, None, None, WalkerPhase::Sending, WalkerAction::TrySend)
        },
        (WalkerPhase::Draining, WalkerEvent::Woken) => over(t, None, shutdown, false),
        _ => turned(None, None, None, phase, usual_action(phase)),
    }
}

/// The row that a report of the walker leaves in the log.
pub open spec fn walker_row(
    t: Tally,
    service: Seq<char>,
    phase: WalkerPhase,
    event: WalkerEvent,
    shutdown: bool,
) -> Option<Seq<char>> {
    match (phase, event) {
        (WalkerPhase::Walking, WalkerEvent::Failed { path, shown, cause }) => if shutdown
            || already_known(t, maybe_path(path)) {
            None
        } else {
            Some(
                traversal_row(
                    service,
                    match shown {
                        Some(s) => s@,
                        None => ""@,
                    },
                    "directory traversal: "@ + cause@,
                ),
            )
        },
        (WalkerPhase::Listing, WalkerEvent::Listed(Some(f))) => Some(
            traversal_row(
                service,
                f.shown@,
                "directory listing "@ + f.shown@ + ": "@ + f.cause@,
            ),
        ),
        (WalkerPhase::Sending, WalkerEvent::Sent { result, dir, filename }) => {
            if result == SendResult::Disconnected {
                Some(
                    warm_log::row_text(
                        service,
                        dir@,
                        filename@,
                        None,
                        "ERROR"@,
                        "worker queue disconnected before file dispatch"@,
                    ),
                )
            } else {
                None
            }
        },
        _ => None,
    }
}

/// The warning at every hundredth error of the walk.
pub open spec fn walker_alert(
    t: Tally,
    phase: WalkerPhase,
    event: WalkerEvent,
    shutdown: bool,
) -> Option<Seq<char>> {
    let due = (t.traversal_errors + 1) % 100 == 0;
    match (phase, event) {
        (WalkerPhase::Walking, WalkerEvent::Failed { path, shown, cause }) => if shutdown
            || already_known(t, maybe_path(path)) || !due {
            None
        } else {
            Some(
                "   ⚠️  Walk error at "@ + (match shown {
                    Some(s) => s@,
                    None => "<unknown>"@,
                }) + ": "@ + cause@,
            )
        },
        (WalkerPhase::Listing, WalkerEvent::Listed(Some(f))) => if due {
            Some("   ⚠️  Directory listing error at "@ + f.shown@ + ": "@ + f.cause@)
        } else {
            None
        },
        _ => None,
    }
}

fn quiet(render: Option<bool>, close_queue: bool) -> (n: WalkerNews)
    ensures
        n.row is None,
        n.alert is None,
        n.render == render,
        n.close_queue == close_queue,
{
    WalkerNews { row: None, alert: None, render, close_queue }
}

fn wind_down(walk: &TreeWalk) -> (r: (WalkerPhase, WalkerAction))
    ensures
        walk.tally().pending > 0 ==> r == (WalkerPhase::Draining, WalkerAction::Pause),
        walk.tally().pending == 0 ==> r == (WalkerPhase::Finished, WalkerAction::Stop),
{
    if walk.pending > 0 {
        (WalkerPhase::Draining, WalkerAction::Pause)
    } else {
        (WalkerPhase::Finished, WalkerAction::Stop)
    }
}

/// One step of walking a tree and feeding the bounded worker pool.
///
/// Directory listings stay on the walker; files go through the queue to the workers. On
/// a stop request no further file is queued; what is in flight ends, and the walk is
/// finished once nothing is pending.
pub fn warm_tree(walk: &mut TreeWalk, phase: WalkerPhase, event: WalkerEvent, shutdown: bool) -> (r: (
    WalkerNews,
    WalkerPhase,
    WalkerAction,
))
    requires
        old(walk).wf(),
        old(walk).room(),
    ensures
        final(walk).wf(),
        ({
            let t = old(walk).tally();
            let service = old(walk).extras().service;
            let m = walker_move(t, phase, event, shutdown);
            &&& final(walk).tally() == maybe_effect(t, m.op)
            &&& final(walk).extras() == (Extras {
                cancelled: match m.cancelled {
                    Some(c) => c,
                    None => old(walk).extras().cancelled,
                },
                ..old(walk).extras()
            })
            &&& r.0.render == m.render
            &&& r.0.close_queue == m.close_queue
            &&& text::opt_view(r.0.row) == walker_row(t, service, phase, event, shutdown)
            &&& text::opt_view(r.0.alert) == walker_alert(t, phase, event, shutdown)
            &&& r.1 == m.phase
            &&& r.2 == m.action
        }),
{
    match phase {
        WalkerPhase::Walking => match event {
            WalkerEvent::Entry(kind) => match entry_action(shutdown, kind) {
                EntryAction::Stop => {
                    walk.note_shutdown(true);
                    let (p, a) = wind_down(walk);
                    (quiet(Some(true), true), p, a)
                },
                EntryAction::List => {
                    walk.directory();
                    (quiet(None, false), WalkerPhase::Listing, WalkerAction::List)
                },
                EntryAction::Queue => {
                    walk.file_found();
                    (quiet(None, false), WalkerPhase::Sending, WalkerAction::TrySend)
                },
                EntryAction::Ignore => {
                    walk.note_shutdown(false);
                    (quiet(Some(false), false), WalkerPhase::Walking, WalkerAction::NextEntry)
                },
            },
            WalkerEvent::Failed { path, shown, cause } => {
                if shutdown {
                    walk.note_shutdown(true);
                    let (p, a) = wind_down(walk);
                    return (quiet(Some(true), true), p, a);
                }
                let place = match &shown {
                    Some(s) => Some(s.as_str()),
                    None => None,
                };
                match walk.walk_failed(path, place, cause.as_str()) {
                    None => (quiet(None, false), WalkerPhase::Walking, WalkerAction::NextEntry),
                    Some(fault) => (
                        WalkerNews {
                            row: Some(fault.row),
                            alert: fault.alert,
                            render: Some(fault.force_render),
                            close_queue: false,
                        },
                        WalkerPhase::Walking,
                        WalkerAction::NextEntry,
                    ),
                }
            },
            WalkerEvent::End => {
                walk.note_shutdown(shutdown);
                let (p, a) = wind_down(walk);
                (quiet(Some(true), true), p, a)
            },
            _ => (quiet(None, false), WalkerPhase::Walking, WalkerAction::NextEntry),
        },
        WalkerPhase::Listing => match event {
            WalkerEvent::Listed(None) => {
                walk.note_shutdown(shutdown);
                (quiet(Some(false), false), WalkerPhase::Walking, WalkerAction::NextEntry)
            },
            WalkerEvent::Listed(Some(f)) => {
                let ListingFault { path, shown, cause } = f;
                let (row, alert) = walk.listing_failed(path, shown.as_str(), cause.as_str());
                walk.note_shutdown(shutdown);
                (
                    WalkerNews { row: Some(row), alert, render: Some(false), close_queue: false },
                    WalkerPhase::Walking,
                    WalkerAction::NextEntry,
                )
            },
            _ => (quiet(None, false), WalkerPhase::Listing, WalkerAction::List),
        },
        WalkerPhase::Sending => match event {
            WalkerEvent::Sent { result, dir, filename } => {
                match walk.after_send(result, dir.as_str(), filename.as_str()) {
                    SendNext::Continue => {
                        walk.note_shutdown(shutdown);
                        (quiet(Some(false), false), WalkerPhase::Walking, WalkerAction::NextEntry)
                    },
                    SendNext::Retry => {
                        walk.note_shutdown(shutdown);
                        (quiet(Some(true), false), WalkerPhase::Retrying, WalkerAction::Pause)
                    },
                    SendNext::StopWalk(row) => {
                        walk.note_shutdown(shutdown);
                        let (p, a) = wind_down(walk);
                        (
                            WalkerNews {
                                row: Some(row),
                                alert: None,
                                render: Some(true),
                                close_queue: true,
                            },
                            p,
                            a,
                        )
                    },
                }
            },
            _ => (quiet(None, false), WalkerPhase::Sending, WalkerAction::TrySend),
        },
        WalkerPhase::Retrying => match event {
            WalkerEvent::Woken => {
                if walk.before_send(shutdown) {
                    (quiet(None, false), WalkerPhase::Sending, WalkerAction::TrySend)
                } else {
                    let (p, a) = wind_down(walk);
                    (quiet(Some(true), true), p, a)
                }
            },
            _ => (quiet(None, false), WalkerPhase::Retrying, WalkerAction::Pause),
        },
        WalkerPhase::Draining => match event {
            WalkerEvent::Woken => {
                walk.note_shutdown(shutdown);
                let (p, a) = wind_down(walk);
                (quiet(Some(true), false), p, a)
            },
            _ => (quiet(None, false), WalkerPhase::Draining, WalkerAction::Pause),
        },
        WalkerPhase::Finished => (quiet(None, false), WalkerPhase::Finished, WalkerAction::Stop),
    }
}

/// After a stop request nothing new is started: no step of the walker then queues
/// another file, and no file that was met is offered again.
pub proof fn law_stop_queues_nothing(t: Tally, phase: WalkerPhase, event: WalkerEvent)
    requires
        phase == WalkerPhase::Walking || phase == WalkerPhase::Retrying || phase
            == WalkerPhase::Draining,
        phase == WalkerPhase::Walking ==> event is Entry || event is Failed || event is End,
        phase != WalkerPhase::Walking ==> event is Woken,
    ensures
        ({
            let m = walker_move(t, phase, event, true);
            &&& m.op != Some(WalkOp::Queued)
            &&& m.action == WalkerAction::Pause || m.action == WalkerAction::Stop
            &&& m.cancelled == Some(true)
        }),
{
}

/// The walk is finished only when nothing is queued or being warmed.
pub proof fn law_finished_means_drained(
    t: Tally,
    phase: WalkerPhase,
    event: WalkerEvent,
    shutdown: bool,
)
    requires
        phase != WalkerPhase::Finished,
        walker_move(t, phase, event, shutdown).phase == WalkerPhase::Finished,
    ensures
        maybe_effect(t, walker_move(t, phase, event, shutdown).op).pending == 0,
{
}

/// How many operations of a sequence are of the kind asked for.
pub open spec fn how_many(ops: Seq<WalkOp>, which: spec_fn(WalkOp) -> bool) -> nat
    decreases ops.len(),
{
    if ops.len() == 0 {
        0
    } else {
        how_many(ops.drop_last(), which) + if which(ops.last()) {
            1nat
        } else {
            0
        }
    }
}

/// Each counter counts one kind of thing: the directories met, the files begun, the files
/// that ended in each of the three ways, and the queues that broke. The errors of the walk
/// are the listings that failed and those reports that none of them explains.
pub proof fn law_counters_count(ops: Seq<WalkOp>)
    ensures
        ({
            let t = tally_after(ops);
            let listings = how_many(ops, |o: WalkOp| o is ListingFailed);
            let reports = how_many(ops, |o: WalkOp| o is WalkFailed);
            &&& t.dirs == how_many(ops, |o: WalkOp| o is Directory)
            &&& t.files == how_many(ops, |o: WalkOp| o is Begun)
            &&& t.byte_reads == how_many(ops, |o: WalkOp| o == WalkOp::Ended(RowKind::Read))
            &&& t.metadata_only == how_many(ops, |o: WalkOp| o == WalkOp::Ended(RowKind::Attrib))
            &&& t.file_errors == how_many(ops, |o: WalkOp| o == WalkOp::Ended(RowKind::Failure))
            &&& t.dispatch_errors == how_many(ops, |o: WalkOp| o is Disconnected)
            &&& listings <= t.traversal_errors <= listings + reports
            &&& t.errors == t.file_errors + t.traversal_errors + t.dispatch_errors
        }),
    decreases ops.len(),
{
    if ops.len() > 0 {
        law_counters_count(ops.drop_last());
    }
}

/// A file waits from when it is queued until it ends or is given up, and a worker is busy
/// from when it begins a file until it ends it. Nothing else changes either, but that a
/// broken queue leaves nothing waiting.
pub proof fn law_waiting_and_busy(t: Tally, op: WalkOp)
    ensures
        ({
            let u = effect(t, op);
            &&& op is Queued ==> u.pending == t.pending + 1
            &&& (op is Unqueued || op is Ended) && t.pending > 0 ==> u.pending == t.pending - 1
            &&& (op is Unqueued || op is Ended) && t.pending == 0 ==> u.pending == 0
            &&& op is Disconnected ==> u.pending == 0
            &&& op is Directory || op is ListingFailed || op is Begun || op is WalkFailed
                ==> u.pending == t.pending
            &&& op is Begun ==> u.active == t.active + 1
            &&& op is Ended && t.active > 0 ==> u.active == t.active - 1
            &&& !(op is Begun) && !(op is Ended) ==> u.active == t.active
        }),
{
}

/// A directory whose listing failed is remembered until the walk reports it, and the report
/// is then no new error. Any other report of the walk is one.
pub proof fn law_failed_listing_is_remembered(t: Tally, op: WalkOp, dir: Seq<native::Part>)
    ensures
        effect(t, WalkOp::ListingFailed(dir)).failed.contains(dir),
        effect(t, WalkOp::ListingFailed(dir)).errors == t.errors + 1,
        !effect(t, WalkOp::WalkFailed(Some(dir))).failed.contains(dir),
        t.failed.contains(dir) ==> effect(t, WalkOp::WalkFailed(Some(dir))).errors == t.errors,
        !t.failed.contains(dir) ==> effect(t, WalkOp::WalkFailed(Some(dir))).errors == t.errors + 1,
        effect(t, WalkOp::WalkFailed(None)).errors == t.errors + 1,
        t.failed.contains(dir) && op != WalkOp::WalkFailed(Some(dir)) ==> effect(
            t,
            op,
        ).failed.contains(dir),
        !t.failed.contains(dir) && op != WalkOp::ListingFailed(dir) ==> !effect(
            t,
            op,
        ).failed.contains(dir),
{
}

/// While no stop was requested, a directory that is met is counted and listed, a file is
/// queued, and anything else is passed over; the walk then goes on.
pub proof fn law_every_entry_is_dealt_with(t: Tally)
    ensures
        ({
            let dir = walker_move(
                t,
                WalkerPhase::Walking,
                WalkerEvent::Entry(EntryKind::Directory),
                false,
            );
            let listed = walker_move(
                t,
                WalkerPhase::Listing,
                WalkerEvent::Listed(None),
                false,
            );
            let file = walker_move(
                t,
                WalkerPhase::Walking,
                WalkerEvent::Entry(EntryKind::File),
                false,
            );
            let other = walker_move(
                t,
                WalkerPhase::Walking,
                WalkerEvent::Entry(EntryKind::Other),
                false,
            );
            &&& dir.op == Some(WalkOp::Directory) && dir.action == WalkerAction::List
                && dir.phase == WalkerPhase::Listing
            &&& listed.op is None && listed.action == WalkerAction::NextEntry && listed.phase
                == WalkerPhase::Walking
            &&& file.op == Some(WalkOp::Queued) && file.action == WalkerAction::TrySend
                && file.phase == WalkerPhase::Sending
            &&& other.op is None && other.action == WalkerAction::NextEntry && other.phase
                == WalkerPhase::Walking
        }),
{
}

/// A failure of the walk is counted, and the walk goes on behind it.
pub proof fn law_walk_goes_on_behind_failures(
    t: Tally,
    fault: ListingFault,
    path: Option<NativePath>,
    shown: Option<String>,
    cause: String,
    shutdown: bool,
)
    ensures
        ({
            let listing = walker_move(
                t,
                WalkerPhase::Listing,
                WalkerEvent::Listed(Some(fault)),
                shutdown,
            );
            let failed = walker_move(
                t,
                WalkerPhase::Walking,
                WalkerEvent::Failed { path, shown, cause },
                false,
            );
            &&& listing.op == Some(WalkOp::ListingFailed(fault.path@))
            &&& listing.action == WalkerAction::NextEntry
            &&& failed.op == Some(WalkOp::WalkFailed(maybe_path(path)))
            &&& failed.action == WalkerAction::NextEntry
        }),
{
}

/// A file that the queue took is done with for the walker, one that found the queue full is
/// offered again after a pause, and a broken queue ends the walk.
pub proof fn law_file_is_offered_until_taken(t: Tally, dir: String, filename: String, shutdown: bool)
    ensures
        ({
            let sent = walker_move(
                t,
                WalkerPhase::Sending,
                WalkerEvent::Sent { result: SendResult::Sent, dir, filename },
                shutdown,
            );
            let full = walker_move(
                t,
                WalkerPhase::Sending,
                WalkerEvent::Sent { result: SendResult::Full, dir, filename },
                shutdown,
            );
            let again = walker_move(t, full.phase, WalkerEvent::Woken, false);
            let given_up = walker_move(t, full.phase, WalkerEvent::Woken, true);
            let broken = walker_move(
                t,
                WalkerPhase::Sending,
                WalkerEvent::Sent { result: SendResult::Disconnected, dir, filename },
                shutdown,
            );
            &&& sent.op is None && sent.action == WalkerAction::NextEntry
            &&& full.op is None && full.action == WalkerAction::Pause
            &&& again.op is None && again.action == WalkerAction::TrySend
            &&& given_up.op == Some(WalkOp::Unqueued) && given_up.close_queue
            &&& broken.op == Some(WalkOp::Disconnected) && broken.action == WalkerAction::Stop
                && broken.close_queue
        }),
{
}

/// At the end of the walk the queue is closed, once, and the walker waits until nothing is
/// waiting or being warmed any more.
pub proof fn law_end_of_the_walk(t: Tally, shutdown: bool, phase: WalkerPhase, event: WalkerEvent)
    ensures
        ({
            let end = walker_move(t, WalkerPhase::Walking, WalkerEvent::End, shutdown);
            let woken = walker_move(t, WalkerPhase::Draining, WalkerEvent::Woken, shutdown);
            &&& end.close_queue && !woken.close_queue
            &&& end.op is None && woken.op is None
            &&& t.pending > 0 ==> end.action == WalkerAction::Pause && woken.action
                == WalkerAction::Pause
            &&& t.pending == 0 ==> end.action == WalkerAction::Stop && woken.action
                == WalkerAction::Stop
            &&& walker_move(t, WalkerPhase::Finished, event, shutdown).action == WalkerAction::Stop
        }),
        walker_move(t, phase, event, shutdown).close_queue <==> !(phase is Draining) && !(phase
            is Finished) && (walker_move(t, phase, event, shutdown).phase is Draining
            || walker_move(t, phase, event, shutdown).phase is Finished),
{
}

/// A report leaves a row in the log exactly when it counts as an error, and a warning at
/// every hundredth error of the walk.
pub proof fn law_rows_and_warnings_of_the_walk(
    t: Tally,
    service: Seq<char>,
    phase: WalkerPhase,
    event: WalkerEvent,
    shutdown: bool,
)
    ensures
        ({
            let m = walker_move(t, phase, event, shutdown);
            let u = maybe_effect(t, m.op);
            &&& walker_row(t, service, phase, event, shutdown) is Some <==> u.errors == t.errors + 1
            &&& walker_row(t, service, phase, event, shutdown) is None <==> u.errors == t.errors
            &&& walker_alert(t, phase, event, shutdown) is Some <==> u.traversal_errors
                == t.traversal_errors + 1 && u.traversal_errors % 100 == 0
        }),
{
}

/// The row of a file says how it ended, with its size; that of a failure says why.
pub proof fn law_rows_of_files(
    service: Seq<char>,
    dir: Seq<char>,
    filename: Seq<char>,
    n: u64,
    cause: String,
    seen: Option<u64>,
)
    ensures
        row_kind(Ok(WarmSuccess::ByteRead(n))) is Read,
        row_kind(Ok(WarmSuccess::MetadataOnly(n))) is Attrib,
        row_kind(Err(cause)) is Failure,
        result_row(service, dir, filename, Ok(WarmSuccess::ByteRead(n)), seen)
            == warm_log::row_text(
            service,
            dir,
            filename,
            Some(n),
            seq!['R', 'E', 'A', 'D'],
            Seq::empty(),
        ),
        result_row(service, dir, filename, Ok(WarmSuccess::MetadataOnly(n)), seen)
            == warm_log::row_text(
            service,
            dir,
            filename,
            Some(n),
            seq!['A', 'T', 'T', 'R', 'I', 'B'],
            Seq::empty(),
        ),
        result_row(service, dir, filename, Err(cause), seen) == warm_log::row_text(
            service,
            dir,
            filename,
            seen,
            seq!['E', 'R', 'R', 'O', 'R'],
            cause@,
        ),
        traversal_row(service, dir, filename) == warm_log::row_text(
            service,
            dir,
            Seq::empty(),
            None,
            seq!['E', 'R', 'R', 'O', 'R'],
            filename,
        ),
{
    reveal_strlit("READ");
    reveal_strlit("ATTRIB");
    reveal_strlit("ERROR");
    reveal_strlit("");
    assert("READ"@ =~= seq!['R', 'E', 'A', 'D']);
    assert("ATTRIB"@ =~= seq!['A', 'T', 'T', 'R', 'I', 'B']);
    assert("ERROR"@ =~= seq!['E', 'R', 'R', 'O', 'R']);
    assert(""@ =~= Seq::<char>::empty());
}

/// The queue has room for four files per worker, and for four at least, as far as a count
/// can say so; more workers never leave less room.
pub proof fn law_room_in_the_queue(n: nat, more: nat)
    requires
        n <= more,
    ensures
        4 * n <= usize::MAX && n > 0 ==> queue_room(n) == 4 * n,
        queue_room(0) == 4,
        queue_room(n) <= queue_room(more),
        queue_room(n) <= usize::MAX,
{
}

/// A stop that was requested ends the walk at any entry; else directories are listed, files
/// are queued, and nothing else is touched. This is what the walker does too.
pub proof fn law_steps_at_entries(t: Tally, kind: EntryKind, shutdown: bool)
    ensures
        entry_step(true, kind) == EntryAction::Stop,
        entry_step(false, kind) == EntryAction::List <==> kind is Directory,
        entry_step(false, kind) == EntryAction::Queue <==> kind is File,
        entry_step(false, kind) == EntryAction::Ignore <==> kind is Other,
        ({
            let m = walker_move(t, WalkerPhase::Walking, WalkerEvent::Entry(kind), shutdown);
            &&& entry_step(shutdown, kind) == EntryAction::List <==> m.action == WalkerAction::List
            &&& entry_step(shutdown, kind) == EntryAction::Queue <==> m.action
                == WalkerAction::TrySend
            &&& entry_step(shutdown, kind) == EntryAction::Stop <==> m.close_queue
        }),
{
}

} // verus!

//! Per-cache concurrency warning lock.
//!
//! An empty file named [`LOCK_NAME`] is created atomically in each configured cache
//! root. Its presence warns about another live instance or a stale lock left by an
//! unclean exit. An existing lock is replaced only on an explicit yes.

use vstd::prelude::*;
use vstd::string::StringExecFns;

use crate::native;
use crate::native::NativePath;
use crate::report::glue3;
use crate::text;
use crate::text::{chars_of, slice_is, slice_trim};

verus! {

/// The name of the lock file in a cache root.
pub const LOCK_NAME: &'static str = "warm-drive-cache.lock";

/// The question asked when a lock already exists.
pub const LOCK_PROMPT: &'static str =
    "Another instance of the application has been detected, do you wish to continue [y/N]? ";

/// Why the lock file could not be created.
#[derive(Debug)]
pub struct CreateFault {
    pub already_exists: bool,
    pub text: String,
}

/// What the caller reports.
#[derive(Debug)]
pub enum LockEvent {
    /// The file was created, or why not.
    Created(Result<(), CreateFault>),
    /// The question was displayed, or why not.
    Asked(Result<(), String>),
    /// The answer, or why none could be read.
    Answered(Result<String, String>),
    /// The stale lock was removed, or why not.
    Removed(Result<(), String>),
}

/// What the caller is to do.
#[derive(Debug, Clone, Copy, PartialEq, Eq, Structural)]
pub enum LockAction {
    /// Create the lock file; fail if it exists.
    Create,
    /// Display the question.
    Ask,
    /// Read the answer.
    ReadAnswer,
    /// Remove the existing lock file.
    Remove,
    /// Nothing more.
    Stop,
}

/// Where the acquisition stands.
pub enum LockStage {
    Creating,
    Asking,
    Answering,
    Removing,
    Recreating,
    Held,
    Refused(Seq<char>),
}

/// The only answers that continue: a single `y` or `Y`.
pub open spec fn accepts(answer: Seq<char>) -> bool {
    text::trim(answer) == "y"@ || text::trim(answer) == "Y"@
}

/// The message about a lock file that could not be created.
pub open spec fn create_text(shown: Seq<char>, cause: Seq<char>) -> Seq<char> {
    "cannot create lock "@ + shown + ": "@ + cause
}

/// The steps of an acquisition.
pub open spec fn lock_advanced(shown: Seq<char>, stage: LockStage, event: LockEvent) -> LockStage {
    match (stage, event) {
        (LockStage::Creating, LockEvent::Created(Ok(_))) => LockStage::Held,
        (LockStage::Creating, LockEvent::Created(Err(fault))) => if fault.already_exists {
            LockStage::Asking
        } else {
            LockStage::Refused(create_text(shown, fault.text@))
        },
        (LockStage::Asking, LockEvent::Asked(Ok(_))) => LockStage::Answering,
        (LockStage::Asking, LockEvent::Asked(Err(e))) => LockStage::Refused(
            "cannot display lock prompt: "@ + e@,
        ),
        (LockStage::Answering, LockEvent::Answered(Ok(answer))) => if accepts(answer@) {
            LockStage::Removing
        } else {
            LockStage::Refused(
                "continuation declined because warm-drive-cache.lock already exists"@,
            )
        },
        (LockStage::Answering, LockEvent::Answered(Err(e))) => LockStage::Refused(
            "cannot read lock prompt response: "@ + e@,
        ),
        (LockStage::Removing, LockEvent::Removed(Ok(_))) => LockStage::Recreating,
        (LockStage::Removing, LockEvent::Removed(Err(e))) => LockStage::Refused(
            "cannot replace stale lock "@ + shown + ": "@ + e@,
        ),
        (LockStage::Recreating, LockEvent::Created(Ok(_))) => LockStage::Held,
        (LockStage::Recreating, LockEvent::Created(Err(fault))) => LockStage::Refused(
            create_text(shown, fault.text@),
        ),
        _ => stage,
    }
}

/// What the caller is to do at a stage.
pub open spec fn lock_asked(stage: LockStage) -> LockAction {
    match stage {
        LockStage::Creating => LockAction::Create,
        LockStage::Asking => LockAction::Ask,
        LockStage::Answering => LockAction::ReadAnswer,
        LockStage::Removing => LockAction::Remove,
        LockStage::Recreating => LockAction::Create,
        LockStage::Held => LockAction::Stop,
        LockStage::Refused(_) => LockAction::Stop,
    }
}

enum LockPhase {
    Creating,
    Asking,
    Answering,
    Removing,
    Recreating,
    Held,
    Refused(String),
}

spec fn lock_stage_of(p: LockPhase) -> LockStage {
    match p {
        LockPhase::Creating => LockStage::Creating,
        LockPhase::Asking => LockStage::Asking,
        LockPhase::Answering => LockStage::Answering,
        LockPhase::Removing => LockStage::Removing,
        LockPhase::Recreating => LockStage::Recreating,
        LockPhase::Held => LockStage::Held,
        LockPhase::Refused(m) => LockStage::Refused(m@),
    }
}

/// The lock of one cache, held or being acquired.
pub struct CacheLock {
    path: NativePath,
    shown: String,
    phase: LockPhase,
}

fn create_failed(shown: &str, cause: &str) -> (p: LockPhase)
    ensures
        lock_stage_of(p) == LockStage::Refused(create_text(shown@, cause@)),
{
    let mut m = glue3("cannot create lock ", shown, ": ");
    m.append(cause);
    LockPhase::Refused(m)
}

impl CacheLock {
    /// Where the acquisition stands.
    pub closed spec fn stage(self) -> LockStage {
        lock_stage_of(self.phase)
    }

    /// The path of the lock file.
    pub closed spec fn file(self) -> Seq<native::Part> {
        self.path@
    }

    /// The path of the lock file as displayed.
    pub closed spec fn label(self) -> Seq<char> {
        self.shown@
    }

    /// Begins to acquire the lock of a cache, given the path of its lock file as displayed.
    pub fn acquire(cache: &NativePath, shown: &str) -> (r: CacheLock)
        ensures
            r.stage() is Creating,
            r.file() == native::joined(cache@, seq![native::named(LOCK_NAME@)]),
            r.label() == shown@,
    {
        CacheLock {
            path: cache.join(&NativePath::of_name(LOCK_NAME)),
            shown: shown.to_string(),
            phase: LockPhase::Creating,
        }
    }

    /// The path of the lock file.
    pub fn path(&self) -> (r: &NativePath)
        ensures
            r@ == self.file(),
    {
        &self.path
    }

    /// What the caller is to do next.
    pub fn action(&self) -> (r: LockAction)
        ensures
            r == lock_asked(self.stage()),
    {
        match &self.phase {
            LockPhase::Creating => LockAction::Create,
            LockPhase::Asking => LockAction::Ask,
            LockPhase::Answering => LockAction::ReadAnswer,
            LockPhase::Removing => LockAction::Remove,
            LockPhase::Recreating => LockAction::Create,
            LockPhase::Held => LockAction::Stop,
            LockPhase::Refused(_) => LockAction::Stop,
        }
    }

    /// Why the lock was refused, if it was.
    pub fn refusal(&self) -> (r: Option<&String>)
        ensures
            match self.stage() {
                LockStage::Refused(m) => r matches Some(s) && s@ == m,
                _ => r is None,
            },
    {
        match &self.phase {
            LockPhase::Refused(m) => Some(m),
            _ => None,
        }
    }

    /// Whether the lock is held.
    pub fn is_held(&self) -> (r: bool)
        ensures
            r == (self.stage() is Held),
    {
        match &self.phase {
            LockPhase::Held => true,
            _ => false,
        }
    }

    /// Takes in what the caller reports.
    pub fn advance(self, event: LockEvent) -> (r: CacheLock)
        ensures
            r.file() == self.file(),
            r.label() == self.label(),
            r.stage() == lock_advanced(self.label(), self.stage(), event),
    {
        let CacheLock { path, shown, phase } = self;
        let next = match phase {
            LockPhase::Creating => match event {
                LockEvent::Created(Ok(_)) => LockPhase::Held,
                LockEvent::Created(Err(fault)) => if fault.already_exists {
                    LockPhase::Asking
                } else {
                    create_failed(shown.as_str(), fault.text.as_str())
                },
                _ => LockPhase::Creating,
            },
            LockPhase::Asking => match event {
                LockEvent::Asked(Ok(_)) => LockPhase::Answering,
                LockEvent::Asked(Err(e)) => {
                    let mut m = "cannot display lock prompt: ".to_string();
                    m.append(e.as_str());
                    LockPhase::Refused(m)
                },
                _ => LockPhase::Asking,
            },
            LockPhase::Answering => match event {
                LockEvent::Answered(Ok(answer)) => {
                    let all = chars_of(answer.as_str());
                    let a = slice_trim(all.as_slice());
                    if slice_is(a, "y") || slice_is(a, "Y") {
                        LockPhase::Removing
                    } else {
                        LockPhase::Refused(
                            "continuation declined because warm-drive-cache.lock already exists".to_string(),
                        )
                    }
                },
                LockEvent::Answered(Err(e)) => {
                    let mut m = "cannot read lock prompt response: ".to_string();
                    m.append(e.as_str());
                    LockPhase::Refused(m)
                },
                _ => LockPhase::Answering,
            },
            LockPhase::Removing => match event {
                LockEvent::Removed(Ok(_)) => LockPhase::Recreating,
                LockEvent::Removed(Err(e)) => {
                    let mut m = glue3("cannot replace stale lock ", shown.as_str(), ": ");
                    m.append(e.as_str());
                    LockPhase::Refused(m)
                },
                _ => LockPhase::Removing,
            },
            LockPhase::Recreating => match event {
                LockEvent::Created(Ok(_)) => LockPhase::Held,
                LockEvent::Created(Err(fault)) => create_failed(
                    shown.as_str(),
                    fault.text.as_str(),
                ),
                _ => LockPhase::Recreating,
            },
            LockPhase::Held => LockPhase::Held,
            LockPhase::Refused(m) => LockPhase::Refused(m),
        };
        CacheLock { path, shown, phase: next }
    }
}

/// The warning when a lock could not be removed at the end; a lock that is gone already
/// needs none.
pub fn release_warning(shown: &str, not_found: bool, cause: &str) -> (r: Option<String>)
    ensures
        match r {
            Some(w) => !not_found && w@ == "⚠️  Failed to remove concurrency lock "@ + shown@
                + ": "@ + cause@,
            None => not_found,
        },
{
    if not_found {
        return None;
    }
    let mut w = glue3("⚠️  Failed to remove concurrency lock ", shown, ": ");
    w.append(cause);
    Some(w)
}

/// An existing lock is removed only on the answer `y` or `Y`; every other answer, and
/// every failure to ask, refuses.
pub proof fn law_existing_lock_needs_yes(shown: Seq<char>, stage: LockStage, event: LockEvent)
    requires
        stage !is Removing,
        lock_asked(lock_advanced(shown, stage, event)) == LockAction::Remove,
    ensures
        stage is Answering,
        event matches LockEvent::Answered(Ok(answer)) && accepts(answer@),
{
}

/// The lock is held only once the caller has created its file.
pub proof fn law_held_means_created(shown: Seq<char>, stage: LockStage, event: LockEvent)
    requires
        stage !is Held,
        lock_advanced(shown, stage, event) is Held,
    ensures
        stage is Creating || stage is Recreating,
        event matches LockEvent::Created(Ok(_)),
{
}

/// An answer continues exactly when nothing but a single `y` or `Y` is left of it without
/// the white space around it.
pub proof fn law_accepted_answers(before: Seq<char>, answer: Seq<char>, after: Seq<char>)
    requires
        forall|i: int| 0 <= i < before.len() ==> text::is_space(#[trigger] before[i]),
        forall|i: int| 0 <= i < after.len() ==> text::is_space(#[trigger] after[i]),
        answer.len() > 0 ==> !text::is_space(answer[0]) && !text::is_space(answer.last()),
    ensures
        accepts(before + answer + after) <==> answer.len() == 1 && (answer[0] == 'y' || answer[0]
            == 'Y'),
{
    text::law_strip(before, answer, after, text::CharClass::Space);
    reveal_strlit("y");
    reveal_strlit("Y");
    if answer.len() == 1 && answer[0] == 'y' {
        assert(answer =~= "y"@);
    }
    if answer.len() == 1 && answer[0] == 'Y' {
        assert(answer =~= "Y"@);
    }
}

/// A lock that nobody has is created and held at once, without a question.
pub proof fn law_free_lock_is_taken(shown: Seq<char>)
    ensures
        lock_asked(LockStage::Creating) == LockAction::Create,
        lock_advanced(shown, LockStage::Creating, LockEvent::Created(Ok(()))) is Held,
        lock_asked(LockStage::Held) == LockAction::Stop,
{
}

/// A lock that is there already is asked about. On a yes it is removed and created anew, and
/// is then held; on any other answer it is left alone and the run is refused.
pub proof fn law_existing_lock_is_asked_about(shown: Seq<char>, fault: CreateFault, answer: String)
    requires
        fault.already_exists,
    ensures
        ({
            let asking = lock_advanced(shown, LockStage::Creating, LockEvent::Created(Err(fault)));
            let answering = lock_advanced(shown, asking, LockEvent::Asked(Ok(())));
            let answered = lock_advanced(shown, answering, LockEvent::Answered(Ok(answer)));
            let removed = lock_advanced(shown, answered, LockEvent::Removed(Ok(())));
            let created = lock_advanced(shown, removed, LockEvent::Created(Ok(())));
            &&& lock_asked(asking) == LockAction::Ask
            &&& lock_asked(answering) == LockAction::ReadAnswer
            &&& accepts(answer@) ==> lock_asked(answered) == LockAction::Remove
            &&& accepts(answer@) ==> lock_asked(removed) == LockAction::Create
            &&& accepts(answer@) ==> created is Held
            &&& !accepts(answer@) ==> answered is Refused && lock_asked(answered)
                == LockAction::Stop
        }),
{
}

/// Every failure ends the acquisition with a reason that ends in the cause: a lock that
/// cannot be created for another reason than that it exists, a question that cannot be
/// displayed, an answer that cannot be read, a lock that cannot be removed, and one that
/// cannot be created after it was removed, whatever the reason.
pub proof fn law_failures_refuse_the_lock(shown: Seq<char>, fault: CreateFault, cause: String)
    ensures
        !fault.already_exists ==> ({
            let end = lock_advanced(shown, LockStage::Creating, LockEvent::Created(Err(fault)));
            end is Refused && exists|head: Seq<char>| end->0 == #[trigger] (head + fault.text@)
        }),
        ({
            let end = lock_advanced(shown, LockStage::Recreating, LockEvent::Created(Err(fault)));
            end is Refused && exists|head: Seq<char>| end->0 == #[trigger] (head + fault.text@)
        }),
        ({
            let end = lock_advanced(shown, LockStage::Asking, LockEvent::Asked(Err(cause)));
            end is Refused && exists|head: Seq<char>| end->0 == #[trigger] (head + cause@)
        }),
        ({
            let end = lock_advanced(shown, LockStage::Answering, LockEvent::Answered(Err(cause)));
            end is Refused && exists|head: Seq<char>| end->0 == #[trigger] (head + cause@)
        }),
        ({
            let end = lock_advanced(shown, LockStage::Removing, LockEvent::Removed(Err(cause)));
            end is Refused && exists|head: Seq<char>| end->0 == #[trigger] (head + cause@)
        }),
{
    let a = lock_advanced(shown, LockStage::Recreating, LockEvent::Created(Err(fault)));
    assert(a->0 == ("cannot create lock "@ + shown + ": "@) + fault.text@);
    let b = lock_advanced(shown, LockStage::Asking, LockEvent::Asked(Err(cause)));
    assert(b->0 == "cannot display lock prompt: "@ + cause@);
    let c = lock_advanced(shown, LockStage::Answering, LockEvent::Answered(Err(cause)));
    assert(c->0 == "cannot read lock prompt response: "@ + cause@);
    let d = lock_advanced(shown, LockStage::Removing, LockEvent::Removed(Err(cause)));
    assert(d->0 == ("cannot replace stale lock "@ + shown + ": "@) + cause@);
    if !fault.already_exists {
        let e = lock_advanced(shown, LockStage::Creating, LockEvent::Created(Err(fault)));
        assert(e->0 == ("cannot create lock "@ + shown + ": "@) + fault.text@);
    }
}

/// A lock that is held stays held, and one that was refused stays refused for its reason.
pub proof fn law_lock_decision_is_final(shown: Seq<char>, stage: LockStage, event: LockEvent)
    ensures
        lock_asked(stage) == LockAction::Stop ==> lock_advanced(shown, stage, event) == stage,
        lock_asked(stage) == LockAction::Stop <==> stage is Held || stage is Refused,
        lock_asked(stage) == LockAction::Remove <==> stage is Removing,
{
}

} // verus!

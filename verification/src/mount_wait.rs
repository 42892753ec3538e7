//! Waiting for a FUSE mount to populate.
//!
//! The wait alternates pauses and looks at the directory. Every pause is cut to what
//! is left of the time budget, so that a mount that stays empty delays a run by no
//! more than the configured maximum.

use vstd::prelude::*;
use vstd::string::StringExecFns;

use crate::config::MountWait;
use crate::report;
use crate::report::{alert, glue3, no_lines, out, Line, Shown};
use crate::text;
use crate::text::{u64_text, usize_text};

verus! {

/// Pause after the path exists, before looking for real mount content.
pub const INITIAL_WAIT_SECS: u64 = 3;

/// Hard ceiling on the total wait per path.
pub const MAX_WAIT_SECS: u64 = 30;

/// How long to pause when `requested` seconds are asked for and `elapsed` of `max_wait`
/// are gone; nothing if the budget is used up.
pub open spec fn capped(elapsed: nat, requested: nat, max_wait: nat) -> Option<nat> {
    if elapsed >= max_wait {
        None
    } else if requested <= max_wait - elapsed {
        Some(requested)
    } else {
        Some((max_wait - elapsed) as nat)
    }
}

/// Budget-aware pause: the seconds to sleep, or nothing once the budget is used up.
pub fn sleep_capped_with_budget(elapsed: u64, requested: u64, max_wait: u64) -> (r: Option<u64>)
    ensures
        match r {
            Some(n) => capped(elapsed as nat, requested as nat, max_wait as nat) == Some(n as nat),
            None => capped(elapsed as nat, requested as nat, max_wait as nat) is None,
        },
{
    if elapsed >= max_wait {
        return None;
    }
    let remaining = max_wait - elapsed;
    if requested <= remaining {
        Some(requested)
    } else {
        Some(remaining)
    }
}

/// The pause under the default ceiling.
pub fn sleep_capped(elapsed: u64, requested: u64) -> (r: Option<u64>)
    ensures
        match r {
            Some(n) => capped(elapsed as nat, requested as nat, MAX_WAIT_SECS as nat) == Some(
                n as nat,
            ),
            None => capped(elapsed as nat, requested as nat, MAX_WAIT_SECS as nat) is None,
        },
{
    sleep_capped_with_budget(elapsed, requested, MAX_WAIT_SECS)
}

/// A pause never runs past the budget, and is never longer than asked for.
pub proof fn law_pause_within_budget(elapsed: nat, requested: nat, max_wait: nat)
    ensures
        capped(elapsed, requested, max_wait) matches Some(n) ==> elapsed + n <= max_wait && n
            <= requested,
        capped(elapsed, requested, max_wait) is None <==> elapsed >= max_wait,
{
}

/// Where the wait for a mount stands.
#[derive(Debug, Clone, Copy, PartialEq, Eq, Structural)]
pub enum SettlePhase {
    /// Nothing has happened yet.
    Start,
    /// The first pause is over.
    FirstLook,
    /// About to pause for the retry of this index.
    BeforeRetry(usize),
    /// The pause for the retry of this index has been announced.
    Retry(usize),
    /// The pause for the retry of this index is over.
    RetryLook(usize),
    /// The budget is used up; one last look decides.
    LastLook,
    /// The wait is over, and whether the directory has content.
    Done(bool),
}

/// What to do next while waiting for a mount.
#[derive(Debug, Clone, Copy, PartialEq, Eq, Structural)]
pub enum SettleAction {
    /// Pause for this many seconds, then look whether the directory has content.
    Sleep(u64),
    /// Report the time.
    ReadClock,
    /// Look whether the directory has content.
    Look,
    /// Go on: whether the directory has content.
    Finish(bool),
}

/// One step of the wait: the lines to print, the next phase and what to do.
pub struct SettleStep {
    pub lines: Seq<Shown>,
    pub phase: SettlePhase,
    pub action: SettleAction,
}

/// The warning that the budget is used up.
pub open spec fn timeout_line(max_wait: nat) -> Shown {
    Shown::Alert(
        "   ⚠️  Max wait timeout ("@ + text::decimal(max_wait) + "s) reached — proceeding anyway."@,
    )
}

/// A line that only a verbose run prints.
pub open spec fn when(verbose: bool, line: Seq<char>) -> Seq<Shown> {
    if verbose {
        seq![Shown::Out(line)]
    } else {
        Seq::empty()
    }
}

/// The wait gives up pausing and takes one last look.
pub open spec fn out_of_time(lines: Seq<Shown>, max_wait: nat) -> SettleStep {
    SettleStep {
        lines: lines.push(timeout_line(max_wait)),
        phase: SettlePhase::LastLook,
        action: SettleAction::Look,
    }
}

/// The steps of the wait. `elapsed` is the time since its start and `content` what the
/// last look found.
pub open spec fn settle(
    wait: MountWait,
    verbose: bool,
    phase: SettlePhase,
    elapsed: nat,
    content: bool,
) -> SettleStep {
    let max_wait = wait.max_wait_secs as nat;
    let delays = wait.retry_delays_secs@;
    match phase {
        SettlePhase::Start => {
            let lines = when(
                verbose,
                "   ⏳ Path exists — waiting "@ + text::decimal(wait.initial_secs as nat)
                    + "s for mount to settle (max "@ + text::decimal(max_wait) + "s total)..."@,
            );
            match capped(elapsed, wait.initial_secs as nat, max_wait) {
                None => out_of_time(lines, max_wait),
                Some(n) => SettleStep {
                    lines,
                    phase: SettlePhase::FirstLook,
                    action: SettleAction::Sleep(n as u64),
                },
            }
        },
        SettlePhase::FirstLook => if content {
            SettleStep {
                lines: when(verbose, "   ✓ Directory has content, starting walk."@),
                phase: SettlePhase::Done(true),
                action: SettleAction::Finish(true),
            }
        } else {
            SettleStep {
                lines: when(
                    verbose,
                    "   ⏳ Directory looks empty (mount may still be populating)..."@,
                ),
                phase: SettlePhase::BeforeRetry(0),
                action: SettleAction::ReadClock,
            }
        },
        SettlePhase::BeforeRetry(k) => if k >= delays.len() {
            SettleStep {
                lines: seq![
                    Shown::Alert(
                        "   ⚠️  Still empty after retries — proceeding anyway (may be legitimately empty)."@,
                    ),
                ],
                phase: SettlePhase::Done(false),
                action: SettleAction::Finish(false),
            }
        } else if elapsed >= max_wait {
            out_of_time(Seq::empty(), max_wait)
        } else {
            SettleStep {
                lines: when(
                    verbose,
                    "   ⏳ Retry "@ + text::decimal((k + 1) as nat) + "/"@ + text::decimal(
                        delays.len(),
                    ) + ": waiting "@ + text::decimal(delays[k as int] as nat) + "s..."@,
                ),
                phase: SettlePhase::Retry(k),
                action: SettleAction::ReadClock,
            }
        },
        SettlePhase::Retry(k) => match capped(elapsed, delays[k as int] as nat, max_wait) {
            None => out_of_time(Seq::empty(), max_wait),
            Some(n) => SettleStep {
                lines: Seq::empty(),
                phase: SettlePhase::RetryLook(k),
                action: SettleAction::Sleep(n as u64),
            },
        },
        SettlePhase::RetryLook(k) => if content {
            SettleStep {
                lines: when(verbose, "   ✓ Directory now has content, starting walk."@),
                phase: SettlePhase::Done(true),
                action: SettleAction::Finish(true),
            }
        } else {
            SettleStep {
                lines: Seq::empty(),
                phase: SettlePhase::BeforeRetry((k + 1) as usize),
                action: SettleAction::ReadClock,
            }
        },
        SettlePhase::LastLook => SettleStep {
            lines: Seq::empty(),
            phase: SettlePhase::Done(content),
            action: SettleAction::Finish(content),
        },
        SettlePhase::Done(b) => SettleStep {
            lines: Seq::empty(),
            phase,
            action: SettleAction::Finish(b),
        },
    }
}

/// A phase that the wait can be in: retry indices stay below the number of delays.
pub open spec fn settle_reachable(wait: MountWait, phase: SettlePhase) -> bool {
    match phase {
        SettlePhase::BeforeRetry(k) => k <= wait.retry_delays_secs@.len(),
        SettlePhase::Retry(k) => k < wait.retry_delays_secs@.len(),
        SettlePhase::RetryLook(k) => k < wait.retry_delays_secs@.len(),
        _ => true,
    }
}

fn verbose_line(verbose: bool, line: &str) -> (v: Vec<Line>)
    ensures
        report::shown(v@) == when(verbose, line@),
{
    let mut v = no_lines();
    if verbose {
        out(&mut v, line);
    }
    v
}

fn push_timeout(v: &mut Vec<Line>, max_wait: u64)
    ensures
        report::shown(final(v)@) == report::shown(old(v)@).push(timeout_line(max_wait as nat)),
{
    alert(
        v,
        glue3(
            "   ⚠️  Max wait timeout (",
            u64_text(max_wait).as_str(),
            "s) reached — proceeding anyway.",
        ).as_str(),
    );
}

/// One step of the wait for a mount to populate before walking. Progress lines are for
/// verbose runs; warnings are always printed.
pub fn wait_for_mount_content(
    wait: &MountWait,
    verbose: bool,
    phase: SettlePhase,
    elapsed: u64,
    content: bool,
) -> (r: (Vec<Line>, SettlePhase, SettleAction))
    requires
        settle_reachable(*wait, phase),
    ensures
        ({
            let step = settle(*wait, verbose, phase, elapsed as nat, content);
            &&& report::shown(r.0@) == step.lines
            &&& r.1 == step.phase
            &&& r.2 == step.action
        }),
        settle_reachable(*wait, r.1),
{
    let max_wait = wait.max_wait_secs;
    match phase {
        SettlePhase::Start => {
            let mut line = "   ⏳ Path exists — waiting ".to_string();
            line.append(u64_text(wait.initial_secs).as_str());
            line.append("s for mount to settle (max ");
            line.append(u64_text(max_wait).as_str());
            line.append("s total)...");
            let mut v = verbose_line(verbose, line.as_str());
            match sleep_capped_with_budget(elapsed, wait.initial_secs, max_wait) {
                None => {
                    push_timeout(&mut v, max_wait);
                    (v, SettlePhase::LastLook, SettleAction::Look)
                },
                Some(n) => (v, SettlePhase::FirstLook, SettleAction::Sleep(n)),
            }
        },
        SettlePhase::FirstLook => if content {
            (
                verbose_line(verbose, "   ✓ Directory has content, starting walk."),
                SettlePhase::Done(true),
                SettleAction::Finish(true),
            )
        } else {
            (
                verbose_line(
                    verbose,
                    "   ⏳ Directory looks empty (mount may still be populating)...",
                ),
                SettlePhase::BeforeRetry(0),
                SettleAction::ReadClock,
            )
        },
        SettlePhase::BeforeRetry(k) => {
            let n = wait.retry_delays_secs.len();
            if k >= n {
                let mut v = no_lines();
                alert(
                    &mut v,
                    "   ⚠️  Still empty after retries — proceeding anyway (may be legitimately empty).",
                );
                return (v, SettlePhase::Done(false), SettleAction::Finish(false));
            }
            if elapsed >= max_wait {
                let mut v = no_lines();
                push_timeout(&mut v, max_wait);
                return (v, SettlePhase::LastLook, SettleAction::Look);
            }
            let mut line = "   ⏳ Retry ".to_string();
            line.append(usize_text(k + 1).as_str());
            line.append("/");
            line.append(usize_text(n).as_str());
            line.append(": waiting ");
            line.append(u64_text(wait.retry_delays_secs[k]).as_str());
            line.append("s...");
            (verbose_line(verbose, line.as_str()), SettlePhase::Retry(k), SettleAction::ReadClock)
        },
        SettlePhase::Retry(k) => {
            let mut v = no_lines();
            match sleep_capped_with_budget(elapsed, wait.retry_delays_secs[k], max_wait) {
                None => {
                    push_timeout(&mut v, max_wait);
                    (v, SettlePhase::LastLook, SettleAction::Look)
                },
                Some(n) => (v, SettlePhase::RetryLook(k), SettleAction::Sleep(n)),
            }
        },
        SettlePhase::RetryLook(k) => if content {
            (
                verbose_line(verbose, "   ✓ Directory now has content, starting walk."),
                SettlePhase::Done(true),
                SettleAction::Finish(true),
            )
        } else {
            let n = wait.retry_delays_secs.len();
            assert(k < n);
            (no_lines(), SettlePhase::BeforeRetry(k + 1), SettleAction::ReadClock)
        },
        SettlePhase::LastLook => (
            no_lines(),
            SettlePhase::Done(content),
            SettleAction::Finish(content),
        ),
        SettlePhase::Done(b) => (no_lines(), SettlePhase::Done(b), SettleAction::Finish(b)),
    }
}

/// How many steps the wait can still take from a phase.
pub open spec fn settle_left(wait: MountWait, phase: SettlePhase) -> int {
    let n = wait.retry_delays_secs@.len() as int;
    match phase {
        SettlePhase::Start => 3 * n + 6,
        SettlePhase::FirstLook => 3 * n + 5,
        SettlePhase::BeforeRetry(k) => 3 * (n - k) + 4,
        SettlePhase::Retry(k) => 3 * (n - k) + 3,
        SettlePhase::RetryLook(k) => 3 * (n - k) + 2,
        SettlePhase::LastLook => 1,
        SettlePhase::Done(_) => 0,
    }
}

/// The wait ends: every step that does not finish it leaves fewer steps to take,
/// whatever the clock and the directory say. Each pause stays within the budget.
pub proof fn law_wait_ends(
    wait: MountWait,
    verbose: bool,
    phase: SettlePhase,
    elapsed: nat,
    content: bool,
)
    requires
        settle_reachable(wait, phase),
    ensures
        ({
            let step = settle(wait, verbose, phase, elapsed, content);
            &&& settle_left(wait, step.phase) >= 0
            &&& phase !is Done ==> settle_left(wait, step.phase) < settle_left(wait, phase)
            &&& step.phase is Done <==> step.action is Finish
            &&& step.action matches SettleAction::Sleep(n) ==> elapsed + n <= wait.max_wait_secs
        }),
{
    assert(wait.retry_delays_secs.len() == wait.retry_delays_secs@.len());
}

/// A pause is as long as asked for, or takes all that is left of the budget.
pub proof fn law_pause_is_as_asked(elapsed: nat, requested: nat, max_wait: nat)
    ensures
        elapsed + requested <= max_wait && elapsed < max_wait ==> capped(
            elapsed,
            requested,
            max_wait,
        ) == Some(requested),
        elapsed < max_wait && elapsed + requested > max_wait ==> capped(
            elapsed,
            requested,
            max_wait,
        ) == Some((max_wait - elapsed) as nat),
        INITIAL_WAIT_SECS == 3,
        MAX_WAIT_SECS == 30,
{
}

/// A look that finds content ends the wait with content, after the first pause, after any
/// retry and at the last look.
pub proof fn law_content_ends_the_wait(
    wait: MountWait,
    verbose: bool,
    phase: SettlePhase,
    elapsed: nat,
)
    requires
        phase is FirstLook || phase is RetryLook || phase is LastLook,
    ensures
        settle(wait, verbose, phase, elapsed, true).phase == SettlePhase::Done(true),
        settle(wait, verbose, phase, elapsed, true).action == SettleAction::Finish(true),
        phase is LastLook ==> settle(wait, verbose, phase, elapsed, false).action
            == SettleAction::Finish(false),
{
}

/// While the directory stays empty and there is time, every configured delay is waited out
/// once, in order, and only then the wait ends without content.
pub proof fn law_every_delay_is_tried(wait: MountWait, verbose: bool, k: usize, elapsed: nat)
    requires
        k < wait.retry_delays_secs@.len(),
        elapsed < wait.max_wait_secs,
    ensures
        settle(wait, verbose, SettlePhase::FirstLook, elapsed, false).phase
            == SettlePhase::BeforeRetry(0),
        settle(wait, verbose, SettlePhase::BeforeRetry(k), elapsed, false).phase
            == SettlePhase::Retry(k),
        settle(wait, verbose, SettlePhase::Retry(k), elapsed, false).phase
            == SettlePhase::RetryLook(k),
        ({
            let asked = wait.retry_delays_secs@[k as int];
            let left = wait.max_wait_secs - elapsed;
            settle(wait, verbose, SettlePhase::Retry(k), elapsed, false).action
                == SettleAction::Sleep(
                (if asked <= left {
                    asked as int
                } else {
                    left
                }) as u64,
            )
        }),
        settle(wait, verbose, SettlePhase::RetryLook(k), elapsed, false).phase
            == SettlePhase::BeforeRetry((k + 1) as usize),
        forall|n: usize|
            n >= wait.retry_delays_secs@.len() ==> (#[trigger] settle(
                wait,
                verbose,
                SettlePhase::BeforeRetry(n),
                elapsed,
                false,
            )).action == SettleAction::Finish(false),
{
}

/// The wait begins with a pause of the configured length, or of what the budget allows.
pub proof fn law_wait_begins_with_a_pause(wait: MountWait, verbose: bool, content: bool)
    ensures
        wait.max_wait_secs > 0 ==> settle(wait, verbose, SettlePhase::Start, 0, content).action
            == SettleAction::Sleep(
            if wait.initial_secs <= wait.max_wait_secs {
                wait.initial_secs
            } else {
                wait.max_wait_secs
            },
        ),
        wait.max_wait_secs > 0 ==> settle(wait, verbose, SettlePhase::Start, 0, content).phase
            is FirstLook,
        wait.max_wait_secs == 0 ==> settle(wait, verbose, SettlePhase::Start, 0, content).action
            == SettleAction::Look,
{
}

/// Once the budget is used up nothing is slept any more: a warning is printed and one last
/// look is taken.
pub proof fn law_used_up_budget_ends_the_pauses(
    wait: MountWait,
    verbose: bool,
    phase: SettlePhase,
    elapsed: nat,
)
    requires
        settle_reachable(wait, phase),
        elapsed >= wait.max_wait_secs,
        phase is Start || phase is Retry || (phase is BeforeRetry && phase->BeforeRetry_0
            < wait.retry_delays_secs@.len()),
    ensures
        settle(wait, verbose, phase, elapsed, false).phase is LastLook,
        settle(wait, verbose, phase, elapsed, false).action == SettleAction::Look,
        settle(wait, verbose, phase, elapsed, false).lines.last() is Alert,
        settle(wait, verbose, phase, elapsed, false).lines.len() > 0,
{
}

/// Whether a run is verbose changes nothing but its progress lines: the warnings and the
/// steps are the same, and without it nothing goes to standard output.
pub proof fn law_verbosity_only_adds_lines(
    wait: MountWait,
    phase: SettlePhase,
    elapsed: nat,
    content: bool,
)
    ensures
        ({
            let loud = settle(wait, true, phase, elapsed, content);
            let quiet = settle(wait, false, phase, elapsed, content);
            &&& loud.phase == quiet.phase
            &&& loud.action == quiet.action
            &&& forall|i: int| 0 <= i < quiet.lines.len() ==> (#[trigger] quiet.lines[i]) is Alert
            &&& exists|progress: Seq<Shown>| loud.lines == #[trigger] (progress + quiet.lines)
        }),
{
    let loud = settle(wait, true, phase, elapsed, content);
    let quiet = settle(wait, false, phase, elapsed, content);
    let extra = loud.lines.take(loud.lines.len() - quiet.lines.len());
    assert(loud.lines == extra + quiet.lines);
}

} // verus!

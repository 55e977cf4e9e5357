//! Staying alive: turning a failure that would have ended the session into a
//! line in the transcript.

use crate::json::text_opt;
use crate::text::{decimal, number};
use vstd::prelude::*;

verus! {

/// What a panic carried.
#[derive(Debug, PartialEq, Eq)]
pub enum PanicPayload {
    /// A literal message.
    Literal(String),
    /// A formatted message.
    Formatted(String),
    /// Something without a printable form.
    Opaque,
}

/// The text of a panic.
pub open spec fn panic_text(p: PanicPayload) -> Seq<char> {
    match p {
        PanicPayload::Literal(m) => m@,
        PanicPayload::Formatted(m) => m@,
        PanicPayload::Opaque => "panicked with no message"@,
    }
}

/// Best-effort human-readable text out of a panic payload.
pub fn panic_message(payload: &PanicPayload) -> (r: String)
    ensures
        r@ == panic_text(*payload),
{
    match payload {
        PanicPayload::Literal(m) => m.clone(),
        PanicPayload::Formatted(m) => m.clone(),
        PanicPayload::Opaque => "panicked with no message".to_string(),
    }
}

/// How a turn's task ended.
#[derive(Debug, PartialEq, Eq)]
pub enum TurnOutcome {
    /// It returned, and said so itself.
    Finished,
    /// It reported a failure, with its whole chain of causes.
    Failed(String),
    /// It panicked.
    Crashed(PanicPayload),
}

/// What the transcript shows of a turn's end.
pub open spec fn failure_text(outcome: TurnOutcome) -> Option<Seq<char>> {
    match outcome {
        TurnOutcome::Finished => None,
        TurnOutcome::Failed(e) => Some("turn failed: "@ + e@),
        TurnOutcome::Crashed(p) => Some(
            "the turn crashed: "@ + panic_text(p)
                + " — the conversation is intact; send it again"@,
        ),
    }
}

/// Turn one finished turn task into the message the transcript should show,
/// or `None` when the turn has already said how it ended.
pub fn turn_failure(outcome: TurnOutcome) -> (r: Option<String>)
    ensures
        text_opt(r) == failure_text(outcome),
{
    match outcome {
        TurnOutcome::Finished => None,
        TurnOutcome::Failed(e) => {
            let mut m = "turn failed: ".to_string();
            m.append(&e);
            Some(m)
        },
        TurnOutcome::Crashed(p) => {
            let mut m = "the turn crashed: ".to_string();
            m.append(&panic_message(&p));
            m.append(" — the conversation is intact; send it again");
            Some(m)
        },
    }
}

/// The answer a background task gives the main loop.  `ran` is what the task
/// returned; `None` means that it panicked, and `fallback` releases the latch
/// it was holding.
pub fn answer_for<T>(ran: Option<Option<T>>, fallback: T) -> (r: Option<T>)
    ensures
        r == (match ran {
            Some(answer) => answer,
            None => Some(fallback),
        }),
{
    match ran {
        Some(answer) => answer,
        None => Some(fallback),
    }
}

/// How long a background task that holds the agent may run, in seconds.
pub const AGENT_REBUILD_DEADLINE: u64 = 180;

/// How long a compaction may run, in seconds.
pub const COMPACTION_DEADLINE: u64 = 600;

/// What is said of a task that ran past its limit.
pub open spec fn overdue_text(what: Seq<char>, limit: u64) -> Seq<char> {
    what + " did not finish within "@ + decimal(limit as nat) + "s — giving up on it"@
}

/// A task's result, or what is said when it did not finish within `limit`
/// seconds.
pub fn within<T>(what: &str, limit: u64, finished: Option<T>) -> (r: Result<T, String>)
    ensures
        match finished {
            Some(value) => r == Ok::<T, String>(value),
            None => r matches Err(m) && m@ == overdue_text(what@, limit),
        },
{
    match finished {
        Some(value) => Ok(value),
        None => {
            let mut m = what.to_string();
            m.append(" did not finish within ");
            m.append(&number(limit));
            m.append("s — giving up on it");
            Err(m)
        },
    }
}

/// How many consecutive failed frames are tolerated before the terminal is
/// taken to be gone.
pub const DRAW_FAULT_LIMIT: u32 = 30;

/// Consecutive-failure counter for drawing frames.
#[derive(Debug)]
pub struct DrawFaults {
    consecutive: u32,
}

impl View for DrawFaults {
    type V = u32;

    closed spec fn view(&self) -> u32 {
        self.consecutive
    }
}

/// One more failed frame.
pub open spec fn one_more_fault(n: u32) -> u32 {
    if n == u32::MAX {
        n
    } else {
        (n + 1) as u32
    }
}

impl DrawFaults {
    /// No failed frame yet.
    pub fn new() -> (r: DrawFaults)
        ensures
            r@ == 0,
    {
        DrawFaults { consecutive: 0 }
    }

    /// A frame landed: the terminal is fine, forget the history.
    pub fn succeeded(&mut self)
        ensures
            final(self)@ == 0,
    {
        self.consecutive = 0;
    }

    /// A frame failed.  Says whether the failures have gone on long enough to
    /// give up.
    pub fn failed(&mut self) -> (give_up: bool)
        ensures
            final(self)@ == one_more_fault(old(self)@),
            give_up == (final(self)@ >= DRAW_FAULT_LIMIT),
    {
        self.consecutive = self.consecutive.saturating_add(1);
        self.consecutive >= DRAW_FAULT_LIMIT
    }

    /// How many frames have failed in a row.
    pub fn consecutive(&self) -> (r: u32)
        ensures
            r == self@,
    {
        self.consecutive
    }
}

/// The count after `k` failed frames in a row.
pub open spec fn faults_after(k: nat) -> u32
    decreases k,
{
    if k == 0 {
        0
    } else {
        one_more_fault(faults_after((k - 1) as nat))
    }
}

proof fn lemma_faults_after(k: nat)
    ensures
        faults_after(k) == if k <= u32::MAX {
            k
        } else {
            u32::MAX as nat
        },
    decreases k,
{
    if k > 0 {
        lemma_faults_after((k - 1) as nat);
    }
}

/// The loop gives up on an unbroken streak of failed frames as long as the
/// limit, and on no shorter one.
pub proof fn law_only_an_unbroken_streak_is_believed(k: nat)
    ensures
        faults_after(k) >= DRAW_FAULT_LIMIT <==> k >= DRAW_FAULT_LIMIT,
{
    lemma_faults_after(k);
}

/// How long to wait between attempts to put the terminal back, in
/// milliseconds.
pub const REARM_COOLDOWN: u64 = 2_000;

/// Watches for the terminal being torn down while the application is still
/// running, and paces the attempts to put it back.  Times are in milliseconds.
#[derive(Debug)]
pub struct TerminalWatchdog {
    /// When the last attempt was made, while the terminal has not been in the
    /// expected state since.
    last_attempt: Option<u64>,
}

impl View for TerminalWatchdog {
    type V = Option<u64>;

    closed spec fn view(&self) -> Option<u64> {
        self.last_attempt
    }
}

/// Whether to attempt a re-arm at `now`, and the last attempt from then on.
pub open spec fn rearmed(last_attempt: Option<u64>, armed: bool, now: u64) -> (bool, Option<u64>) {
    if armed {
        (false, None)
    } else {
        match last_attempt {
            Some(at) => if now < at + REARM_COOLDOWN {
                (false, last_attempt)
            } else {
                (true, Some(now))
            },
            None => (true, Some(now)),
        }
    }
}

impl TerminalWatchdog {
    /// The terminal was in the expected state last time.
    pub fn new() -> (r: TerminalWatchdog)
        ensures
            r@ is None,
    {
        TerminalWatchdog { last_attempt: None }
    }

    /// Decide whether to attempt a re-arm now.  `armed` is whether the terminal
    /// is in the state the application set up.
    pub fn should_rearm(&mut self, armed: bool, now: u64) -> (r: bool)
        ensures
            (r, final(self)@) == rearmed(old(self)@, armed, now),
    {
        if armed {
            self.last_attempt = None;
            return false;
        }
        if let Some(at) = self.last_attempt {
            if now < at || now - at < REARM_COOLDOWN {
                return false;
            }
        }
        self.last_attempt = Some(now);
        true
    }
}

/// A terminal found disarmed is retaken at once; while it stays disarmed there
/// is no second attempt before the cooldown is over, and there is one then.
pub proof fn law_rearm_at_once_then_paced(first: u64, later: u64)
    requires
        first <= later,
    ensures
        rearmed(None, false, first).0,
        rearmed(rearmed(None, false, first).1, false, later).0 <==> later >= first
            + REARM_COOLDOWN,
        !rearmed(rearmed(None, false, first).1, true, later).0,
        rearmed(rearmed(rearmed(None, false, first).1, true, later).1, false, later).0,
{
}

/// What a fresh watchdog holds after calls, each with whether the terminal was
/// armed and the time.
pub open spec fn watched(calls: Seq<(bool, u64)>) -> Option<u64>
    decreases calls.len(),
{
    if calls.len() == 0 {
        None
    } else {
        rearmed(watched(calls.drop_last()), calls.last().0, calls.last().1).1
    }
}

/// The answer to the call at `i`.
pub open spec fn answer(calls: Seq<(bool, u64)>, i: int) -> bool {
    rearmed(watched(calls.take(i)), calls[i].0, calls[i].1).0
}

/// The call at `j` asked for the attempt that still counts at `i`: since it, none
/// was asked for and the terminal was not seen armed.
pub open spec fn is_latest_attempt(calls: Seq<(bool, u64)>, j: int, i: int) -> bool {
    &&& 0 <= j < i
    &&& answer(calls, j)
    &&& forall|k: int| j < k < i ==> !(#[trigger] calls[k]).0 && !answer(calls, k)
}

proof fn lemma_watched(calls: Seq<(bool, u64)>, i: int)
    requires
        0 <= i <= calls.len(),
    ensures
        match watched(calls.take(i)) {
            Some(at) => exists|j: int| #[trigger]
                is_latest_attempt(calls, j, i) && at == calls[j].1,
            None => forall|j: int| !#[trigger] is_latest_attempt(calls, j, i),
        },
    decreases i,
{
    if i > 0 {
        let last = i - 1;
        lemma_watched(calls, last);
        assert(calls.take(i).drop_last() =~= calls.take(last));
        assert(calls.take(i).last() == calls[last]);
        if answer(calls, last) {
            assert(is_latest_attempt(calls, last, i));
        } else if calls[last].0 {
            assert forall|j: int| !#[trigger] is_latest_attempt(calls, j, i) by {
                if j < last {
                    assert(calls[last].0);
                }
            }
        } else {
            let at = watched(calls.take(last));
            assert(at is Some);
            let j = choose|j: int| #[trigger]
                is_latest_attempt(calls, j, last) && at->0 == calls[j].1;
            assert(is_latest_attempt(calls, j, i));
        }
    }
}

/// Over any calls to one watchdog: an armed terminal is left alone, and a
/// disarmed one is retaken exactly when no attempt was made since it was last
/// seen armed, or the cooldown since the latest attempt is over.
pub proof fn law_every_attempt_is_paced(calls: Seq<(bool, u64)>, i: int)
    requires
        0 <= i < calls.len(),
    ensures
        calls[i].0 ==> !answer(calls, i),
        !calls[i].0 ==> (answer(calls, i) <==> forall|j: int| #[trigger]
            is_latest_attempt(calls, j, i) ==> calls[i].1 >= calls[j].1 + REARM_COOLDOWN),
{
    lemma_watched(calls, i);
    if let Some(at) = watched(calls.take(i)) {
        let j = choose|j: int| #[trigger]
            is_latest_attempt(calls, j, i) && at == calls[j].1;
        assert forall|m: int| #[trigger] is_latest_attempt(calls, m, i) implies m == j by {
            if m < j {
                assert(!calls[j].0 && !answer(calls, j));
            }
            if j < m {
                assert(!calls[m].0 && !answer(calls, m));
            }
        }
    }
}

/// How many times a lost agent is rebuilt from its session.
pub const MAX_REBUILD_RETRIES: u32 = 2;

/// What the event loop should do when a rebuild came back without an agent.
#[derive(Debug, Clone, Copy, PartialEq, Eq, Structural)]
pub enum RebuildRecovery {
    /// Nothing to do: an agent is in the slot.
    Idle,
    /// The slot is empty and it is worth trying again.
    Retry,
    /// The slot is empty and retrying has stopped being useful; say so once.
    GiveUp,
}

/// Decide how to respond to a rebuild that produced no agent.
pub fn rebuild_recovery(slot_filled: bool, consecutive_failures: u32) -> (r: RebuildRecovery)
    ensures
        r == (if slot_filled {
            RebuildRecovery::Idle
        } else if consecutive_failures <= MAX_REBUILD_RETRIES {
            RebuildRecovery::Retry
        } else {
            RebuildRecovery::GiveUp
        }),
{
    if slot_filled {
        RebuildRecovery::Idle
    } else if consecutive_failures <= MAX_REBUILD_RETRIES {
        RebuildRecovery::Retry
    } else {
        RebuildRecovery::GiveUp
    }
}

} // verus!

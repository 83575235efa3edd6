use vstd::prelude::*;
use crate::bytes::{contains, find_in};
use crate::case::CaseDescriptor;
use crate::kinds::OutcomeKind;
use crate::case::classes_of;
use crate::classify::{assertion_marker, is_match, verdict_of, ExecutionResult, VerdictKind};

verus! {

/// Per-run resource limits, fixed for the whole corpus run.
#[derive(Clone, Copy, Debug, PartialEq, Eq, Structural)]
pub struct RunLimits {
    pub timeout_ms: u64,
    /// How long a process may take to die after it was asked to.
    pub grace_ms: u64,
    pub memory_limit_bytes: u64,
    pub capture_limit: usize,
}

/// What the runner does with a case.
#[derive(Clone, Copy, Debug, PartialEq, Eq, Structural)]
pub enum RunPlan {
    /// Build and run the reproduction in a process of its own.
    Execute,
    /// Run nothing: the case carries no reproduction.
    Skip,
}

/// The runner's plan for a case: only cases with a reproduction are run.
pub fn plan(case: &CaseDescriptor) -> (p: RunPlan)
    ensures
        p == (if case.hint.no_poc { RunPlan::Skip } else { RunPlan::Execute }),
{
    if case.hint.no_poc {
        RunPlan::Skip
    } else {
        RunPlan::Execute
    }
}

/// The result that stands for a case that was not run.
pub fn skipped_result(case: &CaseDescriptor) -> (r: ExecutionResult)
    ensures
        r.case_id == case.id,
        r.outcome_kind == OutcomeKind::Completed,
        r.skipped,
        r.exit_signal_or_code.is_none(),
        r.captured_output@.len() == 0,
        !r.truncated,
        r.wall_time_ms == 0,
{
    ExecutionResult {
        case_id: case.id,
        outcome_kind: OutcomeKind::Completed,
        exit_signal_or_code: None,
        captured_output: Vec::new(),
        truncated: false,
        wall_time_ms: 0,
        skipped: true,
    }
}

/// What is kept of a stream under a capture limit: its first `limit` bytes.
pub open spec fn kept(all: Seq<u8>, limit: nat) -> Seq<u8> {
    if all.len() <= limit {
        all
    } else {
        all.take(limit as int)
    }
}

/// The output of a running case, kept up to a fixed number of bytes.
pub struct OutputCapture {
    pub data: Vec<u8>,
    pub limit: usize,
    pub truncated: bool,
}

impl OutputCapture {
    pub open spec fn well_formed(&self) -> bool {
        self.data@.len() <= self.limit
    }

    /// An empty capture with the given limit.
    pub fn new(limit: usize) -> (r: OutputCapture)
        ensures
            r.well_formed(),
            r.data@.len() == 0,
            r.limit == limit,
            !r.truncated,
    {
        OutputCapture { data: Vec::new(), limit, truncated: false }
    }

    /// Appends a chunk of output, dropping whatever goes past the limit.
    pub fn append(&mut self, chunk: &[u8])
        requires
            old(self).well_formed(),
        ensures
            final(self).well_formed(),
            final(self).limit == old(self).limit,
            final(self).data@ == kept(old(self).data@ + chunk@, old(self).limit as nat),
            final(self).truncated == (old(self).truncated || old(self).data@.len()
                + chunk@.len() > old(self).limit),
    {
        let ghost before = self.data@;
        let room: usize = self.limit - self.data.len();
        let n: usize = if chunk.len() <= room { chunk.len() } else { room };
        let mut i: usize = 0;
        while i < n
            invariant
                n <= chunk@.len(),
                n <= room,
                room == self.limit - before.len(),
                0 <= i <= n,
                self.data@ == before + chunk@.take(i as int),
                self.limit == old(self).limit,
                self.truncated == old(self).truncated,
                before == old(self).data@,
            decreases n - i,
        {
            self.data.push(chunk[i]);
            assert(chunk@.take(i + 1) =~= chunk@.take(i as int).push(chunk@[i as int]));
            i = i + 1;
        }
        if chunk.len() > room {
            self.truncated = true;
        }
        assert(kept(before + chunk@, self.limit as nat) =~= before + chunk@.take(n as int));
    }
}

/// Capturing a stream in pieces keeps what capturing it whole keeps.
pub proof fn lemma_capture_in_pieces(a: Seq<u8>, b: Seq<u8>, limit: nat)
    ensures
        kept(kept(a, limit) + b, limit) == kept(a + b, limit),
        kept(a + b, limit).len() <= limit,
        a.len() + b.len() > 0 && limit > 0 ==> kept(a + b, limit).len() > 0,
{
    if a.len() <= limit {
        assert(kept(a, limit) == a);
    } else {
        assert(kept(kept(a, limit) + b, limit) =~= kept(a + b, limit));
    }
}

/// Where the supervision of one running case stands.
#[derive(Clone, Copy, Debug, PartialEq, Eq, Structural)]
pub enum Supervision {
    /// The process runs within its limits.
    Running,
    /// The process was asked to stop at `since_ms`; `reason` is what its
    /// run will be reported as.
    Terminating { reason: OutcomeKind, since_ms: u64 },
    /// The run was cancelled at `since_ms` and its result will be dropped.
    Cancelling { since_ms: u64 },
    /// The process is gone.
    Finished,
}

/// What the supervisor learns about a running case.
#[derive(Clone, Copy, Debug, PartialEq, Eq, Structural)]
pub enum Event {
    /// The process is still alive at `elapsed_ms`, using `memory_bytes`.
    Alive { elapsed_ms: u64, memory_bytes: u64 },
    /// The process ended with an exit code or by a signal.
    Exited { code: Option<i32>, signal: Option<i32> },
    /// The whole run was cancelled; `elapsed_ms` is the time of the request.
    Cancel { elapsed_ms: u64 },
}

/// What the supervisor does next.
#[derive(Clone, Copy, Debug, PartialEq, Eq, Structural)]
pub enum Action {
    /// Keep waiting.
    Wait,
    /// Ask the process to stop.
    Terminate,
    /// Kill the process and everything it started, without asking.
    ForceKill,
    /// The run is over; report it with this outcome.
    Report(OutcomeKind),
    /// The run is over and its result is dropped.
    Discard,
}

/// The outcome of a process that ended on its own.  `sanitizer` says whether
/// its output holds a sanitizer report, `panicked` whether it holds a panic.
pub open spec fn exit_outcome(code: Option<i32>, signal: Option<i32>, sanitizer: bool, panicked: bool) -> OutcomeKind {
    if sanitizer {
        OutcomeKind::SanitizerFlagged
    } else if signal.is_some() {
        OutcomeKind::Crashed
    } else if panicked || code == Some(101i32) {
        OutcomeKind::Panicked
    } else {
        OutcomeKind::Completed
    }
}

/// One step of supervision: the next state and the action to take.
pub open spec fn next(limits: RunLimits, s: Supervision, e: Event, sanitizer: bool, panicked: bool) -> (Supervision, Action) {
    match (s, e) {
        (Supervision::Finished, _) => (Supervision::Finished, Action::Wait),
        (_, Event::Exited { code, signal }) => match s {
            Supervision::Terminating { reason, .. } => (Supervision::Finished, Action::Report(reason)),
            Supervision::Cancelling { .. } => (Supervision::Finished, Action::Discard),
            _ => (Supervision::Finished, Action::Report(exit_outcome(code, signal, sanitizer, panicked))),
        },
        (Supervision::Cancelling { since_ms }, Event::Cancel { elapsed_ms })
        | (Supervision::Cancelling { since_ms }, Event::Alive { elapsed_ms, .. }) =>
            if elapsed_ms as int >= since_ms as int + limits.grace_ms as int {
                (s, Action::ForceKill)
            } else {
                (s, Action::Wait)
            },
        (_, Event::Cancel { elapsed_ms }) => (Supervision::Cancelling { since_ms: elapsed_ms }, Action::Terminate),
        (Supervision::Terminating { since_ms, .. }, Event::Alive { elapsed_ms, .. }) =>
            if elapsed_ms as int >= since_ms as int + limits.grace_ms as int {
                (s, Action::ForceKill)
            } else {
                (s, Action::Wait)
            },
        (Supervision::Running, Event::Alive { elapsed_ms, memory_bytes }) =>
            if elapsed_ms >= limits.timeout_ms {
                (Supervision::Terminating { reason: OutcomeKind::TimedOut, since_ms: elapsed_ms }, Action::Terminate)
            } else if memory_bytes > limits.memory_limit_bytes {
                (Supervision::Terminating { reason: OutcomeKind::Crashed, since_ms: elapsed_ms }, Action::Terminate)
            } else {
                (Supervision::Running, Action::Wait)
            },
    }
}

/// The text that a sanitizer's report carries.
pub open spec fn sanitizer_marker() -> Seq<u8> {
    seq!['S' as u8, 'a' as u8, 'n' as u8, 'i' as u8, 't' as u8, 'i' as u8, 'z' as u8, 'e' as u8, 'r' as u8, ':' as u8]
}

/// The text with which a panic announces itself.
pub open spec fn panic_marker() -> Seq<u8> {
    seq!['p' as u8, 'a' as u8, 'n' as u8, 'i' as u8, 'c' as u8, 'k' as u8, 'e' as u8, 'd' as u8, ' ' as u8, 'a' as u8, 't' as u8]
}

fn sanitizer_marker_bytes() -> (r: Vec<u8>)
    ensures
        r@ == sanitizer_marker(),
{
    let r = vec!['S' as u8, 'a' as u8, 'n' as u8, 'i' as u8, 't' as u8, 'i' as u8, 'z' as u8, 'e' as u8, 'r' as u8, ':' as u8];
    assert(r@ =~= sanitizer_marker());
    r
}

fn panic_marker_bytes() -> (r: Vec<u8>)
    ensures
        r@ == panic_marker(),
{
    let r = vec!['p' as u8, 'a' as u8, 'n' as u8, 'i' as u8, 'c' as u8, 'k' as u8, 'e' as u8, 'd' as u8, ' ' as u8, 'a' as u8, 't' as u8];
    assert(r@ =~= panic_marker());
    r
}

/// One step of supervision on what the process has written so far.
pub fn step(limits: RunLimits, s: Supervision, e: Event, output: &[u8]) -> (r: (Supervision, Action))
    ensures
        r == next(limits, s, e, contains(output@, sanitizer_marker()), contains(output@, panic_marker())),
{
    let san_m = sanitizer_marker_bytes();
    let pan_m = panic_marker_bytes();
    let sanitizer = find_in(output, san_m.as_slice());
    let panicked = find_in(output, pan_m.as_slice());
    match (s, e) {
        (Supervision::Finished, _) => (Supervision::Finished, Action::Wait),
        (_, Event::Exited { code, signal }) => match s {
            Supervision::Terminating { reason, .. } => (Supervision::Finished, Action::Report(reason)),
            Supervision::Cancelling { .. } => (Supervision::Finished, Action::Discard),
            _ => {
                let kind = if sanitizer {
                    OutcomeKind::SanitizerFlagged
                } else if signal.is_some() {
                    OutcomeKind::Crashed
                } else if panicked || code == Some(101i32) {
                    OutcomeKind::Panicked
                } else {
                    OutcomeKind::Completed
                };
                (Supervision::Finished, Action::Report(kind))
            },
        },
        (Supervision::Cancelling { since_ms }, Event::Cancel { elapsed_ms })
        | (Supervision::Cancelling { since_ms }, Event::Alive { elapsed_ms, .. }) =>
            if elapsed_ms >= since_ms && elapsed_ms - since_ms >= limits.grace_ms {
                (s, Action::ForceKill)
            } else {
                (s, Action::Wait)
            },
        (_, Event::Cancel { elapsed_ms }) => (Supervision::Cancelling { since_ms: elapsed_ms }, Action::Terminate),
        (Supervision::Terminating { since_ms, .. }, Event::Alive { elapsed_ms, .. }) =>
            if elapsed_ms >= since_ms && elapsed_ms - since_ms >= limits.grace_ms {
                (s, Action::ForceKill)
            } else {
                (s, Action::Wait)
            },
        (Supervision::Running, Event::Alive { elapsed_ms, memory_bytes }) =>
            if elapsed_ms >= limits.timeout_ms {
                (Supervision::Terminating { reason: OutcomeKind::TimedOut, since_ms: elapsed_ms }, Action::Terminate)
            } else if memory_bytes > limits.memory_limit_bytes {
                (Supervision::Terminating { reason: OutcomeKind::Crashed, since_ms: elapsed_ms }, Action::Terminate)
            } else {
                (Supervision::Running, Action::Wait)
            },
    }
}

/// A case without a reproduction is never run: the runner's plan for it is
/// to skip it, and the result that stands for it, whatever its output, is
/// judged attested, hence matched, whatever findings the case declares.
pub proof fn lemma_no_poc_always_matched(case: CaseDescriptor, r: ExecutionResult)
    requires
        case.hint.no_poc,
        r.skipped,
    ensures
        (if case.hint.no_poc { RunPlan::Skip } else { RunPlan::Execute }) == RunPlan::Skip,
        verdict_of(r.skipped, classes_of(case.expected_bugs@), r.outcome_kind, contains(r.captured_output@, assertion_marker()))
            == VerdictKind::Attested,
        is_match(verdict_of(r.skipped, classes_of(case.expected_bugs@), r.outcome_kind, contains(r.captured_output@, assertion_marker()))),
{
}

/// A process still alive at the timeout is asked to stop and its run is
/// reported as timed out; if it is still alive a grace period later, it is
/// killed outright.
pub proof fn lemma_timeout_terminates(
    limits: RunLimits,
    at_ms: u64,
    memory_bytes: u64,
    later_ms: u64,
    later_memory: u64,
    code: Option<i32>,
    signal: Option<i32>,
    sanitizer: bool,
    panicked: bool,
)
    requires
        at_ms >= limits.timeout_ms,
        later_ms >= at_ms + limits.grace_ms,
    ensures
        next(limits, Supervision::Running, Event::Alive { elapsed_ms: at_ms, memory_bytes }, sanitizer, panicked)
            == (Supervision::Terminating { reason: OutcomeKind::TimedOut, since_ms: at_ms }, Action::Terminate),
        next(
            limits,
            Supervision::Terminating { reason: OutcomeKind::TimedOut, since_ms: at_ms },
            Event::Alive { elapsed_ms: later_ms, memory_bytes: later_memory },
            sanitizer,
            panicked,
        ).1 == Action::ForceKill,
        next(
            limits,
            Supervision::Terminating { reason: OutcomeKind::TimedOut, since_ms: at_ms },
            Event::Exited { code, signal },
            sanitizer,
            panicked,
        ) == (Supervision::Finished, Action::Report(OutcomeKind::TimedOut)),
{
}

/// Cancelling a live run asks its process to stop, kills it outright once
/// the grace period has passed, and drops its result when it is gone.
pub proof fn lemma_cancel_terminates(
    limits: RunLimits,
    s: Supervision,
    at_ms: u64,
    later: Event,
    code: Option<i32>,
    signal: Option<i32>,
    sanitizer: bool,
    panicked: bool,
)
    requires
        s != Supervision::Finished,
        !(s is Cancelling),
        match later {
            Event::Alive { elapsed_ms, .. } => elapsed_ms >= at_ms + limits.grace_ms,
            Event::Cancel { elapsed_ms } => elapsed_ms >= at_ms + limits.grace_ms,
            Event::Exited { .. } => false,
        },
    ensures
        next(limits, s, Event::Cancel { elapsed_ms: at_ms }, sanitizer, panicked)
            == (Supervision::Cancelling { since_ms: at_ms }, Action::Terminate),
        next(limits, Supervision::Cancelling { since_ms: at_ms }, later, sanitizer, panicked)
            == (Supervision::Cancelling { since_ms: at_ms }, Action::ForceKill),
        next(
            limits,
            Supervision::Cancelling { since_ms: at_ms },
            Event::Exited { code, signal },
            sanitizer,
            panicked,
        ) == (Supervision::Finished, Action::Discard),
{
}

} // verus!

//! The process-supervisor state machines. The decisions — when to send the
//! one graceful-terminate signal, how long to keep probing, when the
//! persisted process-id record is written and removed — live here, verified;
//! a thin driver performs the blocking work (spawning, waiting, sleeping
//! between probes) and feeds each outcome back in.
//!
//! No transition of either machine ever asks for a forced kill: no such
//! step so much as exists.

use vstd::prelude::*;

verus! {

/// How many liveness probes `stop` makes before giving up.
pub const POLL_LIMIT: u32 = 50;

/// How long the driver sleeps before each liveness probe, in milliseconds.
pub const POLL_INTERVAL_MS: u64 = 100;

/// Where the `stop` procedure stands.
#[derive(Debug, Clone, Copy, PartialEq, Eq)]
pub enum StopPhase {
    /// Nothing read yet.
    Start,
    /// The record named this process; the signal is about to be sent.
    Sending { pid: i32 },
    /// The signal went out; liveness is being probed.
    Polling { pid: i32 },
    /// Finished.
    Done,
}

/// What the driver is asked to do next.
#[derive(Debug, Clone, Copy, PartialEq, Eq)]
pub enum StopStep {
    /// Send the graceful-terminate signal (the machine's `do_send` does it).
    SendTerm,
    /// Sleep one poll interval, then probe liveness (`do_probe`).
    Poll,
    /// Done: act on the outcome and report.
    Finish(StopOutcome),
}

/// How a `stop` run ended.
#[derive(Debug, Clone, Copy, PartialEq, Eq)]
pub enum StopOutcome {
    /// No record existed: success, with nothing to do.
    NothingToStop,
    /// The process exited within the bound: success.
    Stopped,
    /// The signal could not be delivered (the process was already gone):
    /// benign success.
    AlreadyGone,
    /// The process outlived the bound: failure, reported to the operator;
    /// forced termination is never attempted.
    TimedOut,
}

/// Whether the driver must remove the persisted record for this outcome.
/// An absent record has nothing to remove; a timed-out process keeps its
/// record, since it is still running.
pub open spec fn removes_record(o: StopOutcome) -> bool {
    match o {
        StopOutcome::Stopped => true,
        StopOutcome::AlreadyGone => true,
        _ => false,
    }
}

/// Whether the outcome is reported as success.
pub open spec fn stop_success(o: StopOutcome) -> bool {
    !(o is TimedOut)
}

impl StopOutcome {
    /// Whether the driver must remove the persisted record.
    pub fn should_remove_record(&self) -> (r: bool)
        ensures
            r == removes_record(*self),
    {
        match self {
            StopOutcome::Stopped => true,
            StopOutcome::AlreadyGone => true,
            _ => false,
        }
    }

    /// Whether the outcome is reported as success.
    pub fn is_success(&self) -> (r: bool)
        ensures
            r == stop_success(*self),
    {
        !matches!(self, StopOutcome::TimedOut)
    }
}

/// The `stop` procedure's state: its phase, how many probes were made, and
/// how many terminate signals were requested (never more than one).
#[derive(Debug, Clone, Copy, PartialEq, Eq)]
pub struct StopMachine {
    pub phase: StopPhase,
    pub polls: u32,
    pub terms_sent: u32,
}

/// The machine before anything happened.
pub open spec fn stop_init() -> StopMachine {
    StopMachine { phase: StopPhase::Start, polls: 0, terms_sent: 0 }
}

/// The step on learning whether a record exists: no record finishes at
/// once with `NothingToStop` and no side effect; a record moves to sending
/// the one terminate signal.
pub open spec fn spec_on_record(m: StopMachine, rec: Option<i32>) -> (StopMachine, StopStep) {
    match rec {
        None => (
            StopMachine { phase: StopPhase::Done, ..m },
            StopStep::Finish(StopOutcome::NothingToStop),
        ),
        Some(pid) => (
            StopMachine {
                phase: StopPhase::Sending { pid },
                terms_sent: (m.terms_sent + 1) as u32,
                ..m
            },
            StopStep::SendTerm,
        ),
    }
}

/// The step on learning whether the signal was delivered: delivery starts
/// the bounded poll; a failed delivery means the process was already gone —
/// the record is removed and success reported.
pub open spec fn spec_on_send(m: StopMachine, ok: bool) -> (StopMachine, StopStep) {
    match m.phase {
        StopPhase::Sending { pid } => {
            if ok {
                (StopMachine { phase: StopPhase::Polling { pid }, polls: 0, ..m }, StopStep::Poll)
            } else {
                (
                    StopMachine { phase: StopPhase::Done, ..m },
                    StopStep::Finish(StopOutcome::AlreadyGone),
                )
            }
        },
        _ => (m, StopStep::Finish(StopOutcome::TimedOut)),
    }
}

/// The step on one liveness probe: a gone process finishes `Stopped`
/// (record removed, success); a live one is probed again until the bound,
/// then the run finishes `TimedOut` — never a forced kill.
pub open spec fn spec_on_probe(m: StopMachine, alive: bool) -> (StopMachine, StopStep) {
    match m.phase {
        StopPhase::Polling { pid } => {
            if !alive {
                (
                    StopMachine { phase: StopPhase::Done, ..m },
                    StopStep::Finish(StopOutcome::Stopped),
                )
            } else if m.polls + 1 < POLL_LIMIT {
                (StopMachine { polls: (m.polls + 1) as u32, ..m }, StopStep::Poll)
            } else {
                (
                    StopMachine { phase: StopPhase::Done, ..m },
                    StopStep::Finish(StopOutcome::TimedOut),
                )
            }
        },
        _ => (m, StopStep::Finish(StopOutcome::TimedOut)),
    }
}

/// Relies on nix::sys::signal::kill with SIGTERM: asks the kernel to
/// deliver the graceful-terminate signal to the process; true exactly when
/// the kernel accepted the delivery. Whether the process exists or ever
/// exits depends on the world, so nothing more is assumed.
#[verifier::external_body]
fn send_sigterm_sys(pid: i32) -> bool {
    nix::sys::signal::kill(nix::unistd::Pid::from_raw(pid), nix::sys::signal::Signal::SIGTERM)
        .is_ok()
}

/// Relies on nix::sys::signal::kill with no signal: the documented
/// existence probe that delivers nothing; true when the process still
/// exists. The result depends on the world, so nothing is assumed of it.
#[verifier::external_body]
fn probe_alive_sys(pid: i32) -> bool {
    nix::sys::signal::kill(nix::unistd::Pid::from_raw(pid), Option::<
        nix::sys::signal::Signal,
    >::None).is_ok()
}

impl StopMachine {
    /// The machine before anything happened.
    pub fn new() -> (r: StopMachine)
        ensures
            r == stop_init(),
    {
        StopMachine { phase: StopPhase::Start, polls: 0, terms_sent: 0 }
    }

    /// Feeds in what the record held (`None`: no record).
    pub fn on_record(&mut self, rec: Option<i32>) -> (step: StopStep)
        requires
            old(self).phase is Start,
            old(self).terms_sent == 0,
        ensures
            (*final(self), step) == spec_on_record(*old(self), rec),
    {
        match rec {
            None => {
                self.phase = StopPhase::Done;
                StopStep::Finish(StopOutcome::NothingToStop)
            },
            Some(pid) => {
                self.phase = StopPhase::Sending { pid };
                self.terms_sent = self.terms_sent + 1;
                StopStep::SendTerm
            },
        }
    }

    /// Feeds in the signal-delivery result.
    pub fn on_send_result(&mut self, ok: bool) -> (step: StopStep)
        requires
            old(self).phase is Sending,
        ensures
            (*final(self), step) == spec_on_send(*old(self), ok),
    {
        let pid = match self.phase {
            StopPhase::Sending { pid } => pid,
            _ => 0,
        };
        if ok {
            self.phase = StopPhase::Polling { pid };
            self.polls = 0;
            StopStep::Poll
        } else {
            self.phase = StopPhase::Done;
            StopStep::Finish(StopOutcome::AlreadyGone)
        }
    }

    /// Feeds in one liveness-probe result.
    pub fn on_probe(&mut self, alive: bool) -> (step: StopStep)
        requires
            old(self).phase is Polling,
        ensures
            (*final(self), step) == spec_on_probe(*old(self), alive),
    {
        if !alive {
            self.phase = StopPhase::Done;
            StopStep::Finish(StopOutcome::Stopped)
        } else if self.polls < POLL_LIMIT - 1 {
            self.polls = self.polls + 1;
            StopStep::Poll
        } else {
            self.phase = StopPhase::Done;
            StopStep::Finish(StopOutcome::TimedOut)
        }
    }

    /// Sends the one graceful-terminate signal and feeds the delivery
    /// result in. Whatever the kernel answered, the machine follows
    /// `spec_on_send` for that answer.
    pub fn do_send(&mut self) -> (step: StopStep)
        requires
            old(self).phase is Sending,
        ensures
            exists|ok: bool| (*final(self), step) == spec_on_send(*old(self), ok),
    {
        let pid = match self.phase {
            StopPhase::Sending { pid } => pid,
            _ => 0,
        };
        let ok = send_sigterm_sys(pid);
        let step = self.on_send_result(ok);
        proof {
            assert((*self, step) == spec_on_send(*old(self), ok));
        }
        step
    }

    /// Probes liveness (the driver has already slept one interval) and
    /// feeds the result in. Whatever the probe found, the machine follows
    /// `spec_on_probe` for that answer.
    pub fn do_probe(&mut self) -> (step: StopStep)
        requires
            old(self).phase is Polling,
        ensures
            exists|alive: bool| (*final(self), step) == spec_on_probe(*old(self), alive),
    {
        let pid = match self.phase {
            StopPhase::Polling { pid } => pid,
            _ => 0,
        };
        let alive = probe_alive_sys(pid);
        let step = self.on_probe(alive);
        proof {
            assert((*self, step) == spec_on_probe(*old(self), alive));
        }
        step
    }
}

/// The whole polling stage as one function of the probe answers: the fold
/// of `spec_on_probe` from probe `k` on, until a step finishes.
pub open spec fn machine_poll(m: StopMachine, probes: Seq<bool>, k: int) -> (
    StopMachine,
    StopOutcome,
)
    decreases probes.len() - k,
{
    if !(0 <= k < probes.len()) {
        (m, StopOutcome::TimedOut)
    } else {
        let next = spec_on_probe(m, probes[k]);
        match next.1 {
            StopStep::Finish(o) => (next.0, o),
            _ => machine_poll(next.0, probes, k + 1),
        }
    }
}

/// Law: `stop` against an absent record succeeds with no side effects —
/// the machine finishes at once with `NothingToStop`, no terminate signal
/// was requested, and the outcome asks for no record removal.
pub proof fn lemma_stop_absent_record()
    ensures
        spec_on_record(stop_init(), None).1 == StopStep::Finish(StopOutcome::NothingToStop),
        spec_on_record(stop_init(), None).0.terms_sent == 0,
        !removes_record(StopOutcome::NothingToStop),
        stop_success(StopOutcome::NothingToStop),
{
}

/// Law: only the step out of `Start` on a present record ever requests the
/// terminate signal. The send and probe steps never do and never change
/// the signal count, and no transition re-enters `Start` — so one `stop`
/// run sends at most one signal, and never escalates.
pub proof fn lemma_single_signal(m: StopMachine, rec: Option<i32>, ok: bool, alive: bool)
    ensures
        spec_on_send(m, ok).0.terms_sent == m.terms_sent,
        spec_on_send(m, ok).1 != StopStep::SendTerm,
        spec_on_probe(m, alive).0.terms_sent == m.terms_sent,
        spec_on_probe(m, alive).1 != StopStep::SendTerm,
        !(spec_on_record(m, rec).0.phase is Start),
{
}

proof fn lemma_poll_run(m: StopMachine, probes: Seq<bool>, k: int)
    requires
        m.phase is Polling,
        0 <= k < probes.len(),
        m.polls == k,
        k < POLL_LIMIT,
        probes.len() >= POLL_LIMIT,
    ensures
        machine_poll(m, probes, k).0.terms_sent == m.terms_sent,
        (exists|i: int| k <= i < POLL_LIMIT && !probes[i]) ==> machine_poll(m, probes, k).1
            == StopOutcome::Stopped,
        (forall|i: int| k <= i < POLL_LIMIT ==> probes[i]) ==> machine_poll(m, probes, k).1
            == StopOutcome::TimedOut,
    decreases POLL_LIMIT - k,
{
    let next = spec_on_probe(m, probes[k]);
    if probes[k] {
        if m.polls + 1 < POLL_LIMIT {
            lemma_poll_run(next.0, probes, k + 1);
            if exists|i: int| k <= i < POLL_LIMIT && !probes[i] {
                let i = choose|i: int| k <= i < POLL_LIMIT && !probes[i];
                assert(i != k);
                assert(k + 1 <= i < POLL_LIMIT && !probes[i]);
            }
        }
    }
}

/// Law: `stop` against a live tracked process sends exactly one terminate
/// signal and then only probes. If the process goes away within the
/// bounded poll, the run finishes `Stopped` — record removed, success
/// reported. If every probe within the bound finds it alive, the run
/// finishes `TimedOut` — failure reported, record kept, and no forced
/// termination: no step of the machine can kill.
pub proof fn lemma_stop_live_process(pid: i32, probes: Seq<bool>)
    requires
        probes.len() >= POLL_LIMIT,
    ensures
        ({
            let first = spec_on_record(stop_init(), Some(pid));
            let sent = spec_on_send(first.0, true);
            let polled = machine_poll(sent.0, probes, 0);
            &&& first.1 == StopStep::SendTerm
            &&& first.0.terms_sent == 1
            &&& polled.0.terms_sent == 1
            &&& ((exists|i: int| 0 <= i < POLL_LIMIT && !probes[i]) ==> polled.1
                == StopOutcome::Stopped && removes_record(polled.1) && stop_success(polled.1))
            &&& ((forall|i: int| 0 <= i < POLL_LIMIT ==> probes[i]) ==> polled.1
                == StopOutcome::TimedOut && !removes_record(polled.1) && !stop_success(
                polled.1,
            ))
        }),
{
    let first = spec_on_record(stop_init(), Some(pid));
    let sent = spec_on_send(first.0, true);
    lemma_poll_run(sent.0, probes, 0);
}

/// Where the `run` procedure stands.
#[derive(Debug, Clone, Copy, PartialEq, Eq)]
pub enum RunPhase {
    Idle,
    /// A template was given; the configuration is being rendered first.
    Rendering,
    /// About to spawn the managed process.
    Spawning,
    /// The child is running under supervision.
    Running { pid: i32 },
    Exited,
}

/// Why a `run` was aborted.
#[derive(Debug, Clone, Copy, PartialEq, Eq)]
pub enum RunFailure {
    /// The render pipeline failed; nothing was spawned, no record exists.
    RenderFailed,
    /// The spawn failed; no record exists.
    SpawnFailed,
}

/// What the `run` driver is asked to do next.
#[derive(Debug, Clone, Copy, PartialEq, Eq)]
pub enum RunStep {
    /// Render the configuration from the template.
    Render,
    /// Ensure the run directory exists (best-effort) and spawn the child.
    Spawn,
    /// Persist the process id (best-effort), then block until the child
    /// exits.
    WriteRecordAndWait(i32),
    /// Abort with a non-zero exit; no record was ever written.
    Fail(RunFailure),
    /// The child exited: remove the record unconditionally and report the
    /// child's status (`clean_exit` false is surfaced as an error).
    RemoveRecord { clean_exit: bool },
}

/// The `run` procedure's state; `wrote_record` says whether a
/// `WriteRecordAndWait` step was ever issued.
#[derive(Debug, Clone, Copy, PartialEq, Eq)]
pub struct RunMachine {
    pub phase: RunPhase,
    pub wrote_record: bool,
}

/// The first step: render first when a template was given, else spawn.
pub open spec fn spec_run_start(with_template: bool) -> (RunMachine, RunStep) {
    if with_template {
        (RunMachine { phase: RunPhase::Rendering, wrote_record: false }, RunStep::Render)
    } else {
        (RunMachine { phase: RunPhase::Spawning, wrote_record: false }, RunStep::Spawn)
    }
}

/// The step on the render result: failure aborts before any spawn — no
/// partial supervisor state exists.
pub open spec fn spec_on_render(m: RunMachine, ok: bool) -> (RunMachine, RunStep) {
    if ok {
        (RunMachine { phase: RunPhase::Spawning, ..m }, RunStep::Spawn)
    } else {
        (RunMachine { phase: RunPhase::Exited, ..m }, RunStep::Fail(RunFailure::RenderFailed))
    }
}

/// The step on the spawn result: success persists the record at once and
/// blocks for exit; failure aborts, with no record ever written.
pub open spec fn spec_on_spawn(m: RunMachine, pid: Option<i32>) -> (RunMachine, RunStep) {
    match pid {
        Some(p) => (
            RunMachine { phase: RunPhase::Running { pid: p }, wrote_record: true },
            RunStep::WriteRecordAndWait(p),
        ),
        None => (
            RunMachine { phase: RunPhase::Exited, ..m },
            RunStep::Fail(RunFailure::SpawnFailed),
        ),
    }
}

/// The step on the child's exit: the record is removed unconditionally on
/// the supervisor's exit path, whatever the child's outcome.
pub open spec fn spec_on_exit(m: RunMachine, clean: bool) -> (RunMachine, RunStep) {
    (RunMachine { phase: RunPhase::Exited, ..m }, RunStep::RemoveRecord { clean_exit: clean })
}

impl RunMachine {
    /// Starts a run; `with_template` says whether a render comes first.
    pub fn start(with_template: bool) -> (r: (RunMachine, RunStep))
        ensures
            r == spec_run_start(with_template),
    {
        if with_template {
            (RunMachine { phase: RunPhase::Rendering, wrote_record: false }, RunStep::Render)
        } else {
            (RunMachine { phase: RunPhase::Spawning, wrote_record: false }, RunStep::Spawn)
        }
    }

    /// Feeds in the render result.
    pub fn on_render_result(&mut self, ok: bool) -> (step: RunStep)
        requires
            old(self).phase is Rendering,
        ensures
            (*final(self), step) == spec_on_render(*old(self), ok),
    {
        if ok {
            self.phase = RunPhase::Spawning;
            RunStep::Spawn
        } else {
            self.phase = RunPhase::Exited;
            RunStep::Fail(RunFailure::RenderFailed)
        }
    }

    /// Feeds in the spawn result (`None`: the spawn failed).
    pub fn on_spawn_result(&mut self, pid: Option<i32>) -> (step: RunStep)
        requires
            old(self).phase is Spawning,
        ensures
            (*final(self), step) == spec_on_spawn(*old(self), pid),
    {
        match pid {
            Some(p) => {
                self.phase = RunPhase::Running { pid: p };
                self.wrote_record = true;
                RunStep::WriteRecordAndWait(p)
            },
            None => {
                self.phase = RunPhase::Exited;
                RunStep::Fail(RunFailure::SpawnFailed)
            },
        }
    }

    /// Feeds in the child's exit status.
    pub fn on_child_exit(&mut self, clean: bool) -> (step: RunStep)
        requires
            old(self).phase is Running,
        ensures
            (*final(self), step) == spec_on_exit(*old(self), clean),
    {
        self.phase = RunPhase::Exited;
        RunStep::RemoveRecord { clean_exit: clean }
    }
}

/// Law: a failing render or spawn aborts before any supervisor state
/// exists — no record-writing step was or will be issued on those paths —
/// and once the child has been seen to exit, the record-removal step comes
/// unconditionally, whatever the exit status was.
pub proof fn lemma_run_record_discipline(with_template: bool, m: RunMachine, clean: bool)
    ensures
        !spec_run_start(with_template).0.wrote_record,
        spec_on_render(m, false).1 == RunStep::Fail(RunFailure::RenderFailed),
        spec_on_render(m, false).0.wrote_record == m.wrote_record,
        spec_on_spawn(m, None).1 == RunStep::Fail(RunFailure::SpawnFailed),
        spec_on_spawn(m, None).0.wrote_record == m.wrote_record,
        spec_on_exit(m, clean).1 == (RunStep::RemoveRecord { clean_exit: clean }),
{
}

/// The one-shot termination forwarder: the first delivery of the
/// termination signal flips the flag and forwards one graceful-terminate
/// signal to the child; every later delivery is a no-op. It never
/// escalates and never blocks.
#[derive(Debug, PartialEq, Eq)]
pub struct TermForwarder {
    handled: bool,
}

impl TermForwarder {
    /// Whether a delivery was already handled.
    pub closed spec fn spec_handled(&self) -> bool {
        self.handled
    }

    /// A fresh forwarder: nothing handled yet.
    pub fn new() -> (r: TermForwarder)
        ensures
            !r.spec_handled(),
    {
        TermForwarder { handled: false }
    }

    /// One signal delivery: true exactly on the first call — forward the
    /// signal then, and only then. Afterwards the flag stays set, so any
    /// number of further deliveries forward nothing.
    pub fn on_signal(&mut self) -> (forward: bool)
        ensures
            forward == !old(self).spec_handled(),
            final(self).spec_handled(),
    {
        let forward = !self.handled;
        self.handled = true;
        forward
    }

    /// Forwards the graceful-terminate signal to the child if this is the
    /// first delivery; later deliveries send nothing.
    pub fn forward_once(&mut self, pid: i32) -> (forwarded: bool)
        ensures
            forwarded == !old(self).spec_handled(),
            final(self).spec_handled(),
    {
        if self.on_signal() {
            let _delivered = send_sigterm_sys(pid);
            true
        } else {
            false
        }
    }
}

} // verus!

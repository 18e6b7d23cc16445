//! The control loop's decisions: start-up, running, drain and stop, as a
//! state machine from a phase and an event to the next phase and an action.
use vstd::prelude::*;

verus! {

/// Liveness probes tried before start-up gives up.
pub const STARTUP_PROBE_ATTEMPTS: u32 = 5;

/// Seconds to wait before each liveness probe.
pub const PROBE_INTERVAL_SECS: u64 = 2;

/// Seconds between the end of one cycle and the start of the next.
pub const CYCLE_INTERVAL_SECS: u64 = 10;

/// Exit code of a failed start-up.
pub const STARTUP_FAILURE_EXIT_CODE: i32 = 1;

/// Where the governor is in its life.
#[derive(Clone, Copy, Debug, PartialEq, Eq, Structural)]
pub enum Phase {
    /// The sidecar's start command has been issued.
    Launching,
    /// The sidecar was started; `failed_probes` liveness probes failed so far.
    Starting { failed_probes: u32 },
    /// The sidecar is live; the metrics source is being checked.
    CheckingSource,
    /// Governing; `in_cycle` while a cycle is under way.
    Running { in_cycle: bool },
    /// Shutting down; `awaiting_report` until the final report request finished.
    Draining { awaiting_report: bool },
    /// Shut down; the process exits with code 0.
    Stopped,
    /// Start-up failed; the process exits with a non-zero code.
    Failed,
}

/// What the outside world reports back.
#[derive(Clone, Copy, Debug, PartialEq, Eq, Structural)]
pub enum Event {
    /// The sidecar's start command finished.
    Launched { ok: bool },
    /// A liveness probe finished.
    Probed { ok: bool },
    /// The metrics source was checked for reading.
    SourceChecked { ok: bool },
    /// The top of a loop iteration: the cancellation token was read.
    Boundary { cancelled: bool },
    /// A cycle's pipeline finished, whatever its outcome.
    CycleDone,
    /// The final report request finished.
    ReportDone { ok: bool },
    /// The sidecar's stop command finished.
    SidecarStopped { ok: bool },
}

/// What the governor asks the outside world to do next.
#[derive(Clone, Copy, Debug, PartialEq, Eq, Structural)]
pub enum Action {
    /// Wait `secs` seconds, then probe the sidecar's liveness.
    ProbeAfter { secs: u64 },
    /// Check that the metrics source can be read.
    CheckSource,
    /// Wait `secs` seconds, then read the cancellation token.
    AwaitBoundary { secs: u64 },
    /// Run one cycle: read, classify, enforce, report.
    RunCycle,
    /// Ask the sidecar for its final report.
    RequestReport,
    /// Stop the sidecar's container.
    StopSidecar,
    /// End the process with `code`.
    Exit { code: i32 },
    /// The event does not apply in this phase; nothing to do.
    Ignore,
}

/// The phase the governor starts in; its first action is to start the sidecar.
pub open spec fn initial_phase() -> Phase {
    Phase::Launching
}

/// The transition table.
pub open spec fn next(phase: Phase, event: Event) -> (Phase, Action) {
    match (phase, event) {
        (Phase::Launching, Event::Launched { ok }) => if ok {
            (Phase::Starting { failed_probes: 0 }, Action::ProbeAfter { secs: PROBE_INTERVAL_SECS })
        } else {
            (Phase::Failed, Action::Exit { code: STARTUP_FAILURE_EXIT_CODE })
        },
        (Phase::Starting { failed_probes }, Event::Probed { ok }) => if ok {
            (Phase::CheckingSource, Action::CheckSource)
        } else if failed_probes + 1 >= STARTUP_PROBE_ATTEMPTS {
            (Phase::Failed, Action::Exit { code: STARTUP_FAILURE_EXIT_CODE })
        } else {
            (
                Phase::Starting { failed_probes: (failed_probes + 1) as u32 },
                Action::ProbeAfter { secs: PROBE_INTERVAL_SECS },
            )
        },
        (Phase::CheckingSource, Event::SourceChecked { ok }) => if ok {
            (Phase::Running { in_cycle: false }, Action::AwaitBoundary { secs: 0 })
        } else {
            (Phase::Failed, Action::Exit { code: STARTUP_FAILURE_EXIT_CODE })
        },
        (Phase::Running { in_cycle: false }, Event::Boundary { cancelled }) => if cancelled {
            (Phase::Draining { awaiting_report: true }, Action::RequestReport)
        } else {
            (Phase::Running { in_cycle: true }, Action::RunCycle)
        },
        (Phase::Running { in_cycle: true }, Event::CycleDone) => (
            Phase::Running { in_cycle: false },
            Action::AwaitBoundary { secs: CYCLE_INTERVAL_SECS },
        ),
        (Phase::Draining { awaiting_report: true }, Event::ReportDone { .. }) => (
            Phase::Draining { awaiting_report: false },
            Action::StopSidecar,
        ),
        (Phase::Draining { awaiting_report: false }, Event::SidecarStopped { .. }) => (
            Phase::Stopped,
            Action::Exit { code: 0 },
        ),
        _ => (phase, Action::Ignore),
    }
}

/// Feeds `events` to the machine from `phase`: the phase reached and the
/// actions asked for, one per event.
pub open spec fn run(phase: Phase, events: Seq<Event>) -> (Phase, Seq<Action>)
    decreases events.len(),
{
    if events.len() == 0 {
        (phase, Seq::empty())
    } else {
        let (p, a) = next(phase, events[0]);
        let (last, actions) = run(p, events.drop_first());
        (last, seq![a] + actions)
    }
}

/// The phase the governor starts in.
pub fn start() -> (r: Phase)
    ensures
        r == initial_phase(),
{
    Phase::Launching
}

/// One transition.
pub fn step(phase: Phase, event: Event) -> (r: (Phase, Action))
    ensures
        r == next(phase, event),
{
    match (phase, event) {
        (Phase::Launching, Event::Launched { ok }) => if ok {
            (Phase::Starting { failed_probes: 0 }, Action::ProbeAfter { secs: PROBE_INTERVAL_SECS })
        } else {
            (Phase::Failed, Action::Exit { code: STARTUP_FAILURE_EXIT_CODE })
        },
        (Phase::Starting { failed_probes }, Event::Probed { ok }) => if ok {
            (Phase::CheckingSource, Action::CheckSource)
        } else if failed_probes >= STARTUP_PROBE_ATTEMPTS - 1 {
            (Phase::Failed, Action::Exit { code: STARTUP_FAILURE_EXIT_CODE })
        } else {
            (
                Phase::Starting { failed_probes: failed_probes + 1 },
                Action::ProbeAfter { secs: PROBE_INTERVAL_SECS },
            )
        },
        (Phase::CheckingSource, Event::SourceChecked { ok }) => if ok {
            (Phase::Running { in_cycle: false }, Action::AwaitBoundary { secs: 0 })
        } else {
            (Phase::Failed, Action::Exit { code: STARTUP_FAILURE_EXIT_CODE })
        },
        (Phase::Running { in_cycle: false }, Event::Boundary { cancelled }) => if cancelled {
            (Phase::Draining { awaiting_report: true }, Action::RequestReport)
        } else {
            (Phase::Running { in_cycle: true }, Action::RunCycle)
        },
        (Phase::Running { in_cycle: true }, Event::CycleDone) => (
            Phase::Running { in_cycle: false },
            Action::AwaitBoundary { secs: CYCLE_INTERVAL_SECS },
        ),
        (Phase::Draining { awaiting_report: true }, Event::ReportDone { .. }) => (
            Phase::Draining { awaiting_report: false },
            Action::StopSidecar,
        ),
        (Phase::Draining { awaiting_report: false }, Event::SidecarStopped { .. }) => (
            Phase::Stopped,
            Action::Exit { code: 0 },
        ),
        _ => (phase, Action::Ignore),
    }
}

/// A failed start-up is final: whatever happens afterwards, the governor stays
/// failed and asks for nothing, so no cycle ever runs.
pub proof fn lemma_failed_is_final(events: Seq<Event>)
    ensures
        run(Phase::Failed, events).0 == Phase::Failed,
        run(Phase::Failed, events).1 == Seq::new(events.len(), |i: int| Action::Ignore),
    decreases events.len(),
{
    if events.len() > 0 {
        lemma_failed_is_final(events.drop_first());
        assert(run(Phase::Failed, events).1 =~= Seq::new(events.len(), |i: int| Action::Ignore));
    }
}

/// Probes that fail `STARTUP_PROBE_ATTEMPTS` times in a row, each after a wait
/// of `PROBE_INTERVAL_SECS`, end start-up with a non-zero exit; no cycle runs,
/// whatever events come afterwards.
pub proof fn lemma_startup_gives_up(later: Seq<Event>)
    ensures
        ({
            let failed = Event::Probed { ok: false };
            let events = seq![Event::Launched { ok: true }, failed, failed, failed, failed, failed]
                + later;
            let probe = Action::ProbeAfter { secs: PROBE_INTERVAL_SECS };
            let (last, actions) = run(initial_phase(), events);
            &&& last == Phase::Failed
            &&& actions.take(6) == seq![probe, probe, probe, probe, probe, Action::Exit { code: STARTUP_FAILURE_EXIT_CODE }]
            &&& STARTUP_FAILURE_EXIT_CODE != 0
            &&& forall|i: int| 0 <= i < actions.len() ==> #[trigger] actions[i] != Action::RunCycle
        }),
{
    let failed = Event::Probed { ok: false };
    let events = seq![Event::Launched { ok: true }, failed, failed, failed, failed, failed] + later;
    lemma_failed_is_final(later);
    let probe = Action::ProbeAfter { secs: PROBE_INTERVAL_SECS };
    let tail = run(Phase::Failed, later).1;
    assert(events.drop_first().drop_first().drop_first().drop_first().drop_first().drop_first() =~= later);
    let e5 = events.drop_first().drop_first().drop_first().drop_first().drop_first();
    let e4 = events.drop_first().drop_first().drop_first().drop_first();
    let e3 = events.drop_first().drop_first().drop_first();
    let e2 = events.drop_first().drop_first();
    let e1 = events.drop_first();
    assert(run(Phase::Starting { failed_probes: 4 }, e5) == (Phase::Failed, seq![Action::Exit { code: STARTUP_FAILURE_EXIT_CODE }] + tail));
    assert(run(Phase::Starting { failed_probes: 3 }, e4).0 == Phase::Failed);
    assert(run(Phase::Starting { failed_probes: 2 }, e3).0 == Phase::Failed);
    assert(run(Phase::Starting { failed_probes: 1 }, e2).0 == Phase::Failed);
    assert(run(Phase::Starting { failed_probes: 0 }, e1).0 == Phase::Failed);
    let actions = run(initial_phase(), events).1;
    assert(actions =~= seq![probe, probe, probe, probe, probe, Action::Exit { code: STARTUP_FAILURE_EXIT_CODE }] + tail);
    assert(actions.take(6) =~= seq![probe, probe, probe, probe, probe, Action::Exit { code: STARTUP_FAILURE_EXIT_CODE }]);
}

/// A cycle under way is never cut short: until it reports that it is done,
/// no event moves the governor, a cancellation included.
pub proof fn lemma_cycle_runs_to_completion(event: Event)
    requires
        event != Event::CycleDone,
    ensures
        next(Phase::Running { in_cycle: true }, event) == (Phase::Running { in_cycle: true }, Action::Ignore),
{
}

/// Once cancellation is seen at a cycle boundary, the drain asks for the final
/// report and then stops the sidecar, whether or not either succeeds, and
/// the process then exits with code 0.
pub proof fn lemma_drain_always_completes(report_ok: bool, stop_ok: bool)
    ensures
        run(
            Phase::Running { in_cycle: false },
            seq![
                Event::Boundary { cancelled: true },
                Event::ReportDone { ok: report_ok },
                Event::SidecarStopped { ok: stop_ok },
            ],
        ) == (Phase::Stopped, seq![Action::RequestReport, Action::StopSidecar, Action::Exit { code: 0 }]),
{
    let events = seq![
        Event::Boundary { cancelled: true },
        Event::ReportDone { ok: report_ok },
        Event::SidecarStopped { ok: stop_ok },
    ];
    let e1 = events.drop_first();
    let e2 = e1.drop_first();
    let e3 = e2.drop_first();
    assert(e3 =~= Seq::<Event>::empty());
    assert(e2[0] == Event::SidecarStopped { ok: stop_ok });
    assert(e1[0] == Event::ReportDone { ok: report_ok });
    assert(run(Phase::Stopped, e3) == (Phase::Stopped, Seq::<Action>::empty()));
    assert(run(Phase::Draining { awaiting_report: false }, e2).1 =~= seq![Action::Exit { code: 0 }]);
    assert(run(Phase::Draining { awaiting_report: true }, e1).1 =~= seq![Action::StopSidecar, Action::Exit { code: 0 }]);
    assert(run(Phase::Running { in_cycle: false }, events).1 =~= seq![Action::RequestReport, Action::StopSidecar, Action::Exit { code: 0 }]);
}

} // verus!

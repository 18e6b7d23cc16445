use police::{
    log_url, report_url, sidecar_result, start, step, stop_result, Action, Event, GovernorError,
    Phase,
};

fn feed(events: &[Event]) -> (Phase, Vec<Action>) {
    let mut phase = start();
    let mut actions = Vec::new();
    for e in events {
        let (p, a) = step(phase, *e);
        phase = p;
        actions.push(a);
    }
    (phase, actions)
}

#[test]
fn governor_starts_by_launching() {
    assert_eq!(start(), Phase::Launching);
}

#[test]
fn five_failed_probes_fail_startup() {
    let failed = Event::Probed { ok: false };
    let (phase, actions) =
        feed(&[Event::Launched { ok: true }, failed, failed, failed, failed, failed]);
    assert_eq!(phase, Phase::Failed);
    let probe = Action::ProbeAfter { secs: 2 };
    assert_eq!(actions, vec![probe, probe, probe, probe, probe, Action::Exit { code: 1 }]);
}

#[test]
fn failed_startup_never_runs_a_cycle() {
    let failed = Event::Probed { ok: false };
    let (phase, actions) = feed(&[
        Event::Launched { ok: true },
        failed,
        failed,
        failed,
        failed,
        failed,
        Event::Probed { ok: true },
        Event::SourceChecked { ok: true },
        Event::Boundary { cancelled: false },
        Event::CycleDone,
    ]);
    assert_eq!(phase, Phase::Failed);
    assert!(!actions.contains(&Action::RunCycle));
    assert_eq!(actions[6..], [Action::Ignore, Action::Ignore, Action::Ignore, Action::Ignore]);
}

#[test]
fn failed_launch_fails_startup() {
    let (phase, actions) = feed(&[Event::Launched { ok: false }]);
    assert_eq!(phase, Phase::Failed);
    assert_eq!(actions, vec![Action::Exit { code: 1 }]);
}

#[test]
fn fifth_probe_may_still_succeed() {
    let failed = Event::Probed { ok: false };
    let (phase, actions) = feed(&[
        Event::Launched { ok: true },
        failed,
        failed,
        failed,
        failed,
        Event::Probed { ok: true },
    ]);
    assert_eq!(phase, Phase::CheckingSource);
    assert_eq!(actions[5], Action::CheckSource);
}

#[test]
fn unreadable_source_at_startup_is_fatal() {
    let (phase, actions) = feed(&[
        Event::Launched { ok: true },
        Event::Probed { ok: true },
        Event::SourceChecked { ok: false },
    ]);
    assert_eq!(phase, Phase::Failed);
    assert_eq!(actions[2], Action::Exit { code: 1 });
}

#[test]
fn running_cycles_are_spaced_ten_seconds() {
    let (phase, actions) = feed(&[
        Event::Launched { ok: true },
        Event::Probed { ok: true },
        Event::SourceChecked { ok: true },
        Event::Boundary { cancelled: false },
        Event::CycleDone,
        Event::Boundary { cancelled: false },
    ]);
    assert_eq!(phase, Phase::Running { in_cycle: true });
    assert_eq!(
        actions[2..],
        [
            Action::AwaitBoundary { secs: 0 },
            Action::RunCycle,
            Action::AwaitBoundary { secs: 10 },
            Action::RunCycle
        ]
    );
}

#[test]
fn cancellation_mid_cycle_waits_for_the_cycle() {
    let mut phase = Phase::Running { in_cycle: true };
    let (p, a) = step(phase, Event::Boundary { cancelled: true });
    assert_eq!(p, Phase::Running { in_cycle: true });
    assert_eq!(a, Action::Ignore);
    phase = p;
    let (p, a) = step(phase, Event::CycleDone);
    assert_eq!(a, Action::AwaitBoundary { secs: 10 });
    let (p, a) = step(p, Event::Boundary { cancelled: true });
    assert_eq!(a, Action::RequestReport);
    assert_eq!(p, Phase::Draining { awaiting_report: true });
}

#[test]
fn drain_completes_even_when_both_steps_fail() {
    let phase = Phase::Running { in_cycle: false };
    let (p, a1) = step(phase, Event::Boundary { cancelled: true });
    let (p, a2) = step(p, Event::ReportDone { ok: false });
    let (p, a3) = step(p, Event::SidecarStopped { ok: false });
    assert_eq!(p, Phase::Stopped);
    assert_eq!(vec![a1, a2, a3], vec![Action::RequestReport, Action::StopSidecar, Action::Exit { code: 0 }]);
}

#[test]
fn drain_completes_when_both_steps_succeed() {
    let phase = Phase::Running { in_cycle: false };
    let (p, _) = step(phase, Event::Boundary { cancelled: true });
    let (p, a2) = step(p, Event::ReportDone { ok: true });
    let (p, a3) = step(p, Event::SidecarStopped { ok: true });
    assert_eq!(p, Phase::Stopped);
    assert_eq!(a2, Action::StopSidecar);
    assert_eq!(a3, Action::Exit { code: 0 });
}

#[test]
fn stopped_ignores_further_events() {
    assert_eq!(step(Phase::Stopped, Event::Boundary { cancelled: false }), (Phase::Stopped, Action::Ignore));
}

#[test]
fn stop_outcomes() {
    assert_eq!(stop_result(true, String::new()), Ok(()));
    assert_eq!(
        stop_result(false, "No such container: abc".to_string()),
        Err(GovernorError::RuntimeCommandFailed { stderr: "No such container: abc".to_string() })
    );
}

#[test]
fn sidecar_outcomes() {
    assert_eq!(sidecar_result(200), Ok(()));
    assert_eq!(sidecar_result(204), Ok(()));
    assert_eq!(sidecar_result(299), Ok(()));
    assert_eq!(sidecar_result(199), Err(GovernorError::SidecarRejected { status: 199 }));
    assert_eq!(sidecar_result(300), Err(GovernorError::SidecarRejected { status: 300 }));
    assert_eq!(sidecar_result(500), Err(GovernorError::SidecarRejected { status: 500 }));
}

#[test]
fn sidecar_addresses() {
    assert_eq!(log_url("http://localhost:8000"), "http://localhost:8000/log");
    assert_eq!(report_url("http://localhost:8000"), "http://localhost:8000/generate-graphs");
}

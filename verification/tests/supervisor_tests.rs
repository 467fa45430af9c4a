use sbc::supervisor::{
    RunFailure, RunMachine, RunStep, StopMachine, StopOutcome, StopPhase, StopStep,
    TermForwarder, POLL_LIMIT,
};

#[test]
fn stop_with_absent_record_is_a_no_op() {
    let mut m = StopMachine::new();
    let step = m.on_record(None);
    assert_eq!(step, StopStep::Finish(StopOutcome::NothingToStop));
    assert_eq!(m.terms_sent, 0);
    assert!(StopOutcome::NothingToStop.is_success());
    assert!(!StopOutcome::NothingToStop.should_remove_record());
}

#[test]
fn stop_sends_exactly_one_signal_then_polls() {
    let mut m = StopMachine::new();
    assert_eq!(m.on_record(Some(4321)), StopStep::SendTerm);
    assert_eq!(m.terms_sent, 1);
    assert_eq!(m.on_send_result(true), StopStep::Poll);
    assert_eq!(m.on_probe(true), StopStep::Poll);
    assert_eq!(m.on_probe(false), StopStep::Finish(StopOutcome::Stopped));
    assert_eq!(m.terms_sent, 1);
    assert!(StopOutcome::Stopped.is_success());
    assert!(StopOutcome::Stopped.should_remove_record());
}

#[test]
fn stop_times_out_after_bounded_polls_without_escalation() {
    let mut m = StopMachine::new();
    m.on_record(Some(4321));
    m.on_send_result(true);
    let mut finishes = 0;
    let mut last = None;
    for _ in 0..POLL_LIMIT {
        match m.on_probe(true) {
            StopStep::Poll => {},
            StopStep::Finish(o) => {
                finishes += 1;
                last = Some(o);
                break;
            },
            StopStep::SendTerm => panic!("a second signal was requested"),
        }
    }
    assert_eq!(finishes, 1);
    assert_eq!(last, Some(StopOutcome::TimedOut));
    assert_eq!(m.terms_sent, 1);
    assert!(!StopOutcome::TimedOut.is_success());
    assert!(!StopOutcome::TimedOut.should_remove_record());
}

#[test]
fn stop_send_failure_is_benign_and_removes_record() {
    let mut m = StopMachine::new();
    m.on_record(Some(4321));
    let step = m.on_send_result(false);
    assert_eq!(step, StopStep::Finish(StopOutcome::AlreadyGone));
    assert!(StopOutcome::AlreadyGone.is_success());
    assert!(StopOutcome::AlreadyGone.should_remove_record());
}

#[test]
fn do_send_to_nonexistent_process_reports_already_gone() {
    // A pid far above any real pid range: the kernel refuses delivery.
    let mut m = StopMachine::new();
    assert_eq!(m.on_record(Some(999_999_999)), StopStep::SendTerm);
    let step = m.do_send();
    assert_eq!(step, StopStep::Finish(StopOutcome::AlreadyGone));
}

#[test]
fn do_probe_finds_this_process_alive() {
    let own = nix::unistd::getpid().as_raw();
    let mut m = StopMachine {
        phase: StopPhase::Polling { pid: own },
        polls: 0,
        terms_sent: 1,
    };
    assert_eq!(m.do_probe(), StopStep::Poll);
    assert_eq!(m.polls, 1);
}

#[test]
fn run_renders_before_spawning_when_template_given() {
    let (mut m, step) = RunMachine::start(true);
    assert_eq!(step, RunStep::Render);
    assert_eq!(m.on_render_result(true), RunStep::Spawn);
    assert_eq!(m.on_spawn_result(Some(77)), RunStep::WriteRecordAndWait(77));
    assert!(m.wrote_record);
    assert_eq!(
        m.on_child_exit(true),
        RunStep::RemoveRecord { clean_exit: true }
    );
}

#[test]
fn run_skips_render_without_template() {
    let (_m, step) = RunMachine::start(false);
    assert_eq!(step, RunStep::Spawn);
}

#[test]
fn run_aborts_before_spawn_when_render_fails() {
    let (mut m, _) = RunMachine::start(true);
    let step = m.on_render_result(false);
    assert_eq!(step, RunStep::Fail(RunFailure::RenderFailed));
    assert!(!m.wrote_record);
}

#[test]
fn run_aborts_without_record_when_spawn_fails() {
    let (mut m, _) = RunMachine::start(false);
    let step = m.on_spawn_result(None);
    assert_eq!(step, RunStep::Fail(RunFailure::SpawnFailed));
    assert!(!m.wrote_record);
}

#[test]
fn run_removes_record_even_on_unclean_exit() {
    let (mut m, _) = RunMachine::start(false);
    m.on_spawn_result(Some(9));
    assert_eq!(
        m.on_child_exit(false),
        RunStep::RemoveRecord { clean_exit: false }
    );
}

#[test]
fn termination_forwarder_fires_once() {
    let mut f = TermForwarder::new();
    assert!(f.on_signal());
    assert!(!f.on_signal());
    assert!(!f.on_signal());
}

#[test]
fn forward_once_to_nonexistent_child_still_flips_the_flag() {
    let mut f = TermForwarder::new();
    assert!(f.forward_once(999_999_999));
    assert!(!f.forward_once(999_999_999));
}

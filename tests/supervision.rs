use carta_launcher::error::LaunchError;
use carta_launcher::supervisor::{Phase, PollAction, ProcessStatus, ReadinessPoll, Supervisor, CONNECT_RETRY_MS};

#[test]
fn exited_backend_is_reported_at_once() {
    let mut poll = ReadinessPoll::new(3003, 20000);
    assert!(matches!(poll.begin_round(0, ProcessStatus::Running), PollAction::Probe));
    assert!(matches!(poll.record_probe(Err("refused".to_string())), PollAction::Sleep(100)));
    match poll.begin_round(350, ProcessStatus::Exited(Some(2))) {
        PollAction::Fail(e @ LaunchError::BackendExitedEarly(Some(2))) => {
            assert_eq!(e.message(), "Backend exited before it was ready (exit status 2)");
        }
        other => panic!("unexpected {:?}", other),
    }
}

#[test]
fn exit_beats_timeout() {
    let poll = ReadinessPoll::new(1, 10);
    assert!(matches!(
        poll.begin_round(99999, ProcessStatus::Exited(None)),
        PollAction::Fail(LaunchError::BackendExitedEarly(None))
    ));
}

#[test]
fn timeout_reports_elapsed_time_and_last_error() {
    let mut poll = ReadinessPoll::new(3003, 20000);
    poll.record_probe(Err("Connection refused (os error 111)".to_string()));
    match poll.begin_round(20150, ProcessStatus::Running) {
        PollAction::Fail(e) => assert_eq!(
            e.message(),
            "Backend not ready on port 3003 after 20s (Connection refused (os error 111))"
        ),
        other => panic!("unexpected {:?}", other),
    }
    let fresh = ReadinessPoll::new(8, 1000);
    match fresh.begin_round(1000, ProcessStatus::Running) {
        PollAction::Fail(e) => assert_eq!(e.message(), "Backend not ready on port 8 after 1s"),
        other => panic!("unexpected {:?}", other),
    }
}

#[test]
fn successful_probe_is_ready() {
    let mut poll = ReadinessPoll::new(3003, 20000);
    assert!(matches!(poll.record_probe(Ok(())), PollAction::Ready));
    assert_eq!(poll.last_error, None);
    assert_eq!(CONNECT_RETRY_MS, 100);
}

#[test]
fn shutdown_without_spawn_is_a_no_op() {
    let mut s: Supervisor<u32> = Supervisor::new();
    assert!(s.begin_shutdown().is_none());
    s.finish_shutdown();
    assert_eq!(s.phase(), Phase::NotStarted);
    assert!(s.begin_shutdown().is_none());
    assert_eq!(s.phase(), Phase::NotStarted);
}

#[test]
fn second_shutdown_is_a_no_op() {
    let mut s: Supervisor<u32> = Supervisor::new();
    assert!(s.start_spawn());
    assert!(s.attach(7).is_none());
    assert!(s.mark_ready());
    assert!(s.is_ready());
    assert_eq!(s.begin_shutdown(), Some(7));
    assert_eq!(s.phase(), Phase::ShuttingDown);
    s.finish_shutdown();
    assert_eq!(s.phase(), Phase::Terminated);
    assert_eq!(s.begin_shutdown(), None);
    s.finish_shutdown();
    assert_eq!(s.phase(), Phase::Terminated);
    assert!(!s.has_process());
}

#[test]
fn only_one_backend_per_supervisor() {
    let mut s: Supervisor<u32> = Supervisor::new();
    assert!(s.start_spawn());
    assert!(!s.start_spawn());
    assert!(s.attach(1).is_none());
    assert_eq!(s.attach(2), Some(2));
    assert_eq!(s.phase(), Phase::AwaitingReady);
    assert!(!s.is_ready());
}

#[test]
fn failed_spawn_terminates() {
    let mut s: Supervisor<u32> = Supervisor::new();
    assert!(!s.spawn_failed());
    assert!(s.start_spawn());
    assert!(s.spawn_failed());
    assert_eq!(s.phase(), Phase::Terminated);
    assert!(!s.start_spawn());
    assert_eq!(s.attach(3), Some(3));
}

#[test]
fn early_exit_goes_straight_to_terminated() {
    let mut s: Supervisor<u32> = Supervisor::new();
    assert!(s.start_spawn());
    assert!(s.attach(9).is_none());
    assert_eq!(s.record_early_exit(), Some(9));
    assert_eq!(s.phase(), Phase::Terminated);
    assert_eq!(s.begin_shutdown(), None);
    assert_eq!(s.phase(), Phase::Terminated);
    let mut r: Supervisor<u32> = Supervisor::new();
    assert_eq!(r.record_early_exit(), None);
    assert_eq!(r.phase(), Phase::NotStarted);
}

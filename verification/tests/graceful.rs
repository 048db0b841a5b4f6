use nyanpasu_utils::graceful::{
    GracefulAction, GracefulKill, GracefulReport, GracefulStage, GRACEFUL_KILL_POLLS,
};

#[test]
fn a_graceful_kill_polls_thirty_times() {
    assert_eq!(GRACEFUL_KILL_POLLS, 30);
}

#[test]
fn a_child_that_has_ended_needs_no_signal() {
    let mut kill = GracefulKill::new(9);
    assert_eq!(kill.stage(), GracefulStage::Probe);
    assert_eq!(kill.action(), GracefulAction::Probe { pid: 9 });
    assert_eq!(kill.advance(GracefulReport::Exited), Some(Ok(())));
    assert_eq!(kill.action(), GracefulAction::Nothing);
}

#[test]
fn a_running_child_is_asked_and_polled() {
    let mut kill = GracefulKill::new(9);
    assert_eq!(kill.advance(GracefulReport::StillRunning), None);
    assert_eq!(kill.action(), GracefulAction::Terminate { pid: 9 });
    assert_eq!(kill.advance(GracefulReport::Signalled), None);
    assert_eq!(kill.stage(), GracefulStage::Wait { polls_left: 30 });
    assert_eq!(kill.action(), GracefulAction::Poll { pid: 9, after_millis: 100 });
    assert_eq!(kill.advance(GracefulReport::StillRunning), None);
    assert_eq!(kill.stage(), GracefulStage::Wait { polls_left: 29 });
    assert_eq!(kill.advance(GracefulReport::Exited), Some(Ok(())));
    assert_eq!(kill.stage(), GracefulStage::Done);
}

#[test]
fn a_signal_that_cannot_be_sent_fails_the_graceful_kill() {
    let mut kill = GracefulKill::new(9);
    kill.advance(GracefulReport::StillRunning);
    assert_eq!(
        kill.advance(GracefulReport::SignalFailed("kill failed: ESRCH".to_string())),
        Some(Err("kill failed: ESRCH".to_string()))
    );
    assert_eq!(kill.stage(), GracefulStage::Done);
}

#[test]
fn a_child_that_ignores_the_signal_fails_the_graceful_kill() {
    let mut kill = GracefulKill::new(31337);
    kill.advance(GracefulReport::StillRunning);
    kill.advance(GracefulReport::Signalled);
    let mut paused: u64 = 0;
    for _ in 0..29 {
        match kill.action() {
            GracefulAction::Poll { after_millis, .. } => paused += after_millis,
            other => panic!("expected a poll, got {:?}", other),
        }
        assert_eq!(kill.advance(GracefulReport::StillRunning), None);
    }
    assert_eq!(
        kill.advance(GracefulReport::StillRunning),
        Some(Err("Failed to gracefully kill child process 31337".to_string()))
    );
    assert_eq!(paused + 100, 3000);
    assert_eq!(kill.action(), GracefulAction::Nothing);
}

#[test]
fn a_graceful_kill_ignores_reports_that_answer_nothing() {
    let mut kill = GracefulKill::new(9);
    assert_eq!(kill.advance(GracefulReport::Signalled), None);
    assert_eq!(kill.stage(), GracefulStage::Probe);
    kill.advance(GracefulReport::StillRunning);
    assert_eq!(kill.advance(GracefulReport::Exited), None);
    assert_eq!(kill.stage(), GracefulStage::Signal);
    kill.advance(GracefulReport::Signalled);
    kill.advance(GracefulReport::Exited);
    assert_eq!(kill.advance(GracefulReport::StillRunning), None);
    assert_eq!(kill.stage(), GracefulStage::Done);
}

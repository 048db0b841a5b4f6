use nyanpasu_utils::definition::{ClashCoreType, CommandEvent, CoreType, TerminatedPayload};
use nyanpasu_utils::instance::{
    CoreInstance, CoreInstanceBuilder, CoreInstanceError, CoreInstanceState, PathProbe,
};
use nyanpasu_utils::kill::{
    KillAction, KillProtocol, KillReport, KillStage, FORCEFUL_POLLS, GRACEFUL_POLLS,
    POLL_INTERVAL_MILLIS,
};
use nyanpasu_utils::watch::WaitOutcome;

fn fresh() -> CoreInstance {
    CoreInstanceBuilder::default()
        .core_type(CoreType::Clash(ClashCoreType::Mihomo))
        .binary_path("/opt/core/mihomo".to_string())
        .app_dir("/var/lib/app".to_string())
        .config_path("/var/lib/app/config.yaml".to_string())
        .pid_path("/run/app/core.pid".to_string())
        .build(&PathProbe { binary_exists: true, app_dir_exists: true, config_exists: true })
        .unwrap()
}

fn running(pid: u32) -> CoreInstance {
    let mut supervisor = fresh();
    let mut guard = supervisor.record_spawn(pid);
    assert_eq!(supervisor.on_checkpoint(&mut guard, true), Some(CommandEvent::DelayCheckpointPass));
    supervisor
}

fn open(supervisor: &CoreInstance) -> KillProtocol {
    supervisor.kill().expect("a held child can be killed")
}

#[test]
fn the_windows_are_two_and_three_seconds() {
    assert_eq!(GRACEFUL_POLLS, 20);
    assert_eq!(FORCEFUL_POLLS, 30);
    assert_eq!(POLL_INTERVAL_MILLIS, 100);
    assert_eq!(GRACEFUL_POLLS as u64 * POLL_INTERVAL_MILLIS, 2000);
    assert_eq!(FORCEFUL_POLLS as u64 * POLL_INTERVAL_MILLIS, 3000);
}

#[test]
fn kill_without_a_child_is_refused() {
    let supervisor = fresh();
    assert!(matches!(supervisor.kill(), Err(CoreInstanceError::StateCheckFailed)));
    assert_eq!(supervisor.state(), CoreInstanceState::Stopped);
    assert_eq!(supervisor.child(), None);
}

#[test]
fn kill_begins_by_asking() {
    let supervisor = running(55);
    let protocol = open(&supervisor);
    assert_eq!(protocol.stage(), KillStage::Signal);
    assert_eq!(protocol.action(), KillAction::Terminate { pid: 55 });
}

#[test]
fn a_child_that_obeys_is_killed_gracefully() {
    let mut supervisor = running(55);
    let mut protocol = open(&supervisor);
    assert_eq!(supervisor.advance_kill(&mut protocol, KillReport::Signalled { delivered: true }), None);
    assert_eq!(protocol.stage(), KillStage::GracefulWait { polls_left: 20 });
    assert_eq!(protocol.action(), KillAction::Poll { pid: 55, after_millis: 100 });
    assert_eq!(supervisor.advance_kill(&mut protocol, KillReport::StillRunning), None);
    assert_eq!(protocol.stage(), KillStage::GracefulWait { polls_left: 19 });
    assert_eq!(supervisor.state(), CoreInstanceState::Running);
    assert_eq!(supervisor.advance_kill(&mut protocol, KillReport::Exited), Some(Ok(())));
    assert_eq!(protocol.stage(), KillStage::Done);
    assert_eq!(protocol.action(), KillAction::Nothing);
    assert_eq!(supervisor.state(), CoreInstanceState::Stopped);
    assert_eq!(supervisor.child(), None);
}

#[test]
fn kill_twice_succeeds_then_is_refused() {
    let mut supervisor = running(55);
    let mut protocol = open(&supervisor);
    supervisor.advance_kill(&mut protocol, KillReport::Signalled { delivered: true });
    assert_eq!(supervisor.advance_kill(&mut protocol, KillReport::Exited), Some(Ok(())));
    assert_eq!(supervisor.state(), CoreInstanceState::Stopped);
    assert!(matches!(supervisor.kill(), Err(CoreInstanceError::StateCheckFailed)));
}

#[test]
fn a_child_that_ignores_the_signal_is_killed_by_force() {
    let mut supervisor = running(55);
    let mut protocol = open(&supervisor);
    assert_eq!(supervisor.advance_kill(&mut protocol, KillReport::Signalled { delivered: true }), None);
    let mut paused: u64 = 0;
    for _ in 0..20 {
        match protocol.action() {
            KillAction::Poll { pid, after_millis } => {
                assert_eq!(pid, 55);
                paused += after_millis;
            }
            other => panic!("expected a poll, got {:?}", other),
        }
        assert_eq!(supervisor.advance_kill(&mut protocol, KillReport::StillRunning), None);
    }
    // The graceful window of two seconds is over.
    assert_eq!(paused, 2000);
    assert_eq!(protocol.stage(), KillStage::Force);
    assert_eq!(protocol.action(), KillAction::Force { pid: 55 });
    assert_eq!(supervisor.advance_kill(&mut protocol, KillReport::Forced), None);
    assert_eq!(protocol.stage(), KillStage::ForcefulWait { polls_left: 30 });
    assert_eq!(supervisor.advance_kill(&mut protocol, KillReport::StillRunning), None);
    assert_eq!(supervisor.advance_kill(&mut protocol, KillReport::Exited), Some(Ok(())));
    assert_eq!(supervisor.state(), CoreInstanceState::Stopped);
    assert_eq!(supervisor.child(), None);
}

#[test]
fn a_signal_that_cannot_be_sent_leads_to_force_at_once() {
    let mut supervisor = running(55);
    let mut protocol = open(&supervisor);
    assert_eq!(supervisor.advance_kill(&mut protocol, KillReport::Signalled { delivered: false }), None);
    assert_eq!(protocol.action(), KillAction::Force { pid: 55 });
}

#[test]
fn a_child_that_survives_force_times_out_and_is_kept() {
    let mut supervisor = running(55);
    let mut protocol = open(&supervisor);
    supervisor.advance_kill(&mut protocol, KillReport::Signalled { delivered: true });
    for _ in 0..20 {
        assert_eq!(supervisor.advance_kill(&mut protocol, KillReport::StillRunning), None);
    }
    assert_eq!(supervisor.advance_kill(&mut protocol, KillReport::Forced), None);
    let mut paused: u64 = 0;
    for _ in 0..29 {
        match protocol.action() {
            KillAction::Poll { after_millis, .. } => paused += after_millis,
            other => panic!("expected a poll, got {:?}", other),
        }
        assert_eq!(supervisor.advance_kill(&mut protocol, KillReport::StillRunning), None);
    }
    match protocol.action() {
        KillAction::Poll { after_millis, .. } => paused += after_millis,
        other => panic!("expected a poll, got {:?}", other),
    }
    let verdict = supervisor.advance_kill(&mut protocol, KillReport::StillRunning);
    assert_eq!(paused, 3000);
    assert_eq!(
        verdict,
        Some(Err(CoreInstanceError::Io("Failed to kill instance: force kill timeout".to_string())))
    );
    assert_eq!(protocol.stage(), KillStage::Done);
    // The supervisor is as before, so that the kill can be tried again.
    assert_eq!(supervisor.state(), CoreInstanceState::Running);
    assert_eq!(supervisor.child(), Some(55));
    let retry = open(&supervisor);
    assert_eq!(retry.action(), KillAction::Terminate { pid: 55 });
}

#[test]
fn a_kill_takes_fifty_two_answers_at_most() {
    let mut supervisor = running(55);
    let mut protocol = open(&supervisor);
    let mut answers = 0;
    let mut paused: u64 = 0;
    loop {
        let report = match protocol.action() {
            KillAction::Terminate { .. } => KillReport::Signalled { delivered: true },
            KillAction::Poll { after_millis, .. } => {
                paused += after_millis;
                KillReport::StillRunning
            }
            KillAction::Force { .. } => KillReport::Forced,
            KillAction::Nothing => break,
        };
        answers += 1;
        supervisor.advance_kill(&mut protocol, report);
    }
    assert_eq!(answers, 52);
    assert_eq!(paused, 5000);
}

#[test]
fn a_failed_poll_ends_the_kill_with_its_error() {
    let mut supervisor = running(55);
    let mut protocol = open(&supervisor);
    supervisor.advance_kill(&mut protocol, KillReport::Signalled { delivered: true });
    assert_eq!(
        supervisor.advance_kill(&mut protocol, KillReport::PollFailed("EPERM".to_string())),
        Some(Err(CoreInstanceError::Io("EPERM".to_string())))
    );
    assert_eq!(supervisor.child(), Some(55));
    assert_eq!(supervisor.state(), CoreInstanceState::Running);
}

#[test]
fn a_failed_force_ends_the_kill_with_its_error() {
    let mut supervisor = running(55);
    let mut protocol = open(&supervisor);
    supervisor.advance_kill(&mut protocol, KillReport::Signalled { delivered: false });
    assert_eq!(
        supervisor.advance_kill(&mut protocol, KillReport::ForceFailed("ESRCH".to_string())),
        Some(Err(CoreInstanceError::Io("ESRCH".to_string())))
    );
    assert_eq!(supervisor.child(), Some(55));
}

#[test]
fn a_report_that_answers_nothing_is_ignored() {
    let mut supervisor = running(55);
    let mut protocol = open(&supervisor);
    assert_eq!(supervisor.advance_kill(&mut protocol, KillReport::Exited), None);
    assert_eq!(supervisor.advance_kill(&mut protocol, KillReport::Forced), None);
    assert_eq!(protocol.stage(), KillStage::Signal);
    assert_eq!(supervisor.child(), Some(55));
    supervisor.advance_kill(&mut protocol, KillReport::Signalled { delivered: true });
    assert_eq!(supervisor.advance_kill(&mut protocol, KillReport::Signalled { delivered: false }), None);
    assert_eq!(protocol.stage(), KillStage::GracefulWait { polls_left: 20 });
    supervisor.advance_kill(&mut protocol, KillReport::Exited);
    assert_eq!(supervisor.advance_kill(&mut protocol, KillReport::Exited), None);
    assert_eq!(protocol.stage(), KillStage::Done);
}

#[test]
fn a_bad_exit_code_still_counts_as_killed() {
    // The exit watcher sees the abnormal end; the kill succeeds all the same.
    let mut supervisor = fresh();
    let mut guard = supervisor.record_spawn(55);
    supervisor.on_checkpoint(&mut guard, true);
    let mut protocol = open(&supervisor);
    supervisor.advance_kill(&mut protocol, KillReport::Signalled { delivered: true });
    assert_eq!(supervisor.advance_kill(&mut protocol, KillReport::Exited), Some(Ok(())));
    let end = TerminatedPayload { code: None, signal: Some(15) };
    assert_eq!(
        supervisor.on_wait_finished(&mut guard, WaitOutcome::Exited(end)),
        Some(CommandEvent::Terminated(end))
    );
    assert_eq!(supervisor.state(), CoreInstanceState::Stopped);
    assert_eq!(supervisor.child(), None);
}

#[test]
fn a_kill_in_the_startup_window_is_allowed() {
    let mut supervisor = fresh();
    let _guard = supervisor.record_spawn(55);
    assert_eq!(supervisor.state(), CoreInstanceState::Stopped);
    let mut protocol = open(&supervisor);
    supervisor.advance_kill(&mut protocol, KillReport::Signalled { delivered: true });
    assert_eq!(supervisor.advance_kill(&mut protocol, KillReport::Exited), Some(Ok(())));
    assert_eq!(supervisor.child(), None);
}

#[test]
fn a_finished_kill_of_an_earlier_child_leaves_a_later_one_alone() {
    let mut supervisor = fresh();
    let _first = supervisor.record_spawn(55);
    let mut protocol = open(&supervisor);
    supervisor.advance_kill(&mut protocol, KillReport::Signalled { delivered: true });
    let _second = supervisor.record_spawn(56);
    assert_eq!(supervisor.advance_kill(&mut protocol, KillReport::Exited), Some(Ok(())));
    assert_eq!(supervisor.child(), Some(56));
}

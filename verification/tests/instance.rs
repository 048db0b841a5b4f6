use nyanpasu_utils::definition::{ClashCoreType, CommandEvent, CoreType, TerminatedPayload};
use nyanpasu_utils::instance::{
    CheckOutput, CoreInstance, CoreInstanceBuilder, CoreInstanceBuilderError, CoreInstanceError,
    CoreInstanceState, PathProbe,
};
use nyanpasu_utils::watch::WaitOutcome;

const ALL_EXIST: PathProbe =
    PathProbe { binary_exists: true, app_dir_exists: true, config_exists: true };

fn builder(core: CoreType) -> CoreInstanceBuilder {
    CoreInstanceBuilder::default()
        .core_type(core)
        .binary_path("/opt/core/mihomo".to_string())
        .app_dir("/var/lib/app".to_string())
        .config_path("/var/lib/app/config.yaml".to_string())
        .pid_path("/run/app/core.pid".to_string())
}

fn supervisor(core: ClashCoreType) -> CoreInstance {
    builder(CoreType::Clash(core)).build(&ALL_EXIST).unwrap()
}

fn validation_error(builder: CoreInstanceBuilder, probe: PathProbe) -> String {
    match builder.build(&probe) {
        Err(CoreInstanceBuilderError::ValidationError(message)) => message,
        Ok(_) => panic!("the builder should have been refused"),
    }
}

#[test]
fn default_state_is_stopped() {
    assert_eq!(CoreInstanceState::default(), CoreInstanceState::Stopped);
}

#[test]
fn a_new_supervisor_is_stopped_and_holds_no_child() {
    let supervisor = supervisor(ClashCoreType::Mihomo);
    assert_eq!(supervisor.state(), CoreInstanceState::Stopped);
    assert_eq!(supervisor.child(), None);
    assert_eq!(supervisor.core_type, CoreType::Clash(ClashCoreType::Mihomo));
    assert_eq!(supervisor.binary_path, "/opt/core/mihomo");
    assert_eq!(supervisor.app_dir, "/var/lib/app");
    assert_eq!(supervisor.config_path, "/var/lib/app/config.yaml");
}

#[test]
fn every_required_field_is_asked_for() {
    let full = || builder(CoreType::Clash(ClashCoreType::Mihomo));
    let empty = CoreInstanceBuilder::default();
    assert_eq!(empty.validate(&ALL_EXIST), Err("binary_path is required".to_string()));
    let b = CoreInstanceBuilder::default().binary_path("/b".to_string());
    assert_eq!(b.validate(&ALL_EXIST), Err("app_dir is required".to_string()));
    let b = CoreInstanceBuilder::default().binary_path("/b".to_string()).app_dir("/a".to_string());
    assert_eq!(b.validate(&ALL_EXIST), Err("config_path is required".to_string()));
    let b = CoreInstanceBuilder::default()
        .binary_path("/b".to_string())
        .app_dir("/a".to_string())
        .config_path("/c".to_string());
    assert_eq!(b.validate(&ALL_EXIST), Err("pid_path is required".to_string()));
    let b = CoreInstanceBuilder::default()
        .binary_path("/b".to_string())
        .app_dir("/a".to_string())
        .config_path("/c".to_string())
        .pid_path("/p".to_string());
    assert_eq!(b.validate(&ALL_EXIST), Err("core_type is required".to_string()));
    assert_eq!(full().validate(&ALL_EXIST), Ok(()));
}

#[test]
fn a_missing_path_fails_construction() {
    let full = || builder(CoreType::Clash(ClashCoreType::Mihomo));
    assert_eq!(
        validation_error(full(), PathProbe { binary_exists: false, ..ALL_EXIST }),
        "binary_path \"/opt/core/mihomo\" does not exist"
    );
    assert_eq!(
        validation_error(full(), PathProbe { app_dir_exists: false, ..ALL_EXIST }),
        "app_dir \"/var/lib/app\" does not exist"
    );
    assert_eq!(
        validation_error(full(), PathProbe { config_exists: false, ..ALL_EXIST }),
        "config_path \"/var/lib/app/config.yaml\" does not exist"
    );
    // The first complaint wins.
    assert_eq!(
        validation_error(
            full(),
            PathProbe { binary_exists: false, app_dir_exists: false, config_exists: false }
        ),
        "binary_path \"/opt/core/mihomo\" does not exist"
    );
}

#[test]
fn a_missing_path_is_quoted_with_escapes() {
    let b = builder(CoreType::Clash(ClashCoreType::Mihomo)).binary_path("/opt/a\"b\\c".to_string());
    assert_eq!(
        validation_error(b, PathProbe { binary_exists: false, ..ALL_EXIST }),
        "binary_path \"/opt/a\\\"b\\\\c\" does not exist"
    );
}

#[test]
fn a_missing_field_is_reported_before_a_missing_path() {
    let b = CoreInstanceBuilder::default().app_dir("/a".to_string());
    assert_eq!(
        validation_error(b, PathProbe { binary_exists: false, app_dir_exists: false, config_exists: false }),
        "binary_path is required"
    );
}

#[test]
fn run_on_a_fresh_supervisor_plans_the_spawn() {
    let supervisor = supervisor(ClashCoreType::Mihomo);
    let plan = supervisor.run().unwrap();
    assert_eq!(plan.pid_file, "/run/app/core.pid");
    assert_eq!(plan.program, "/opt/core/mihomo");
    assert_eq!(plan.args, vec!["-m", "-d", "/var/lib/app", "-f", "/var/lib/app/config.yaml"]);
    assert_eq!(plan.current_dir, "/var/lib/app");
    // Asking changes nothing.
    assert_eq!(supervisor.state(), CoreInstanceState::Stopped);
    assert_eq!(supervisor.child(), None);
}

#[test]
fn run_uses_the_template_of_the_core() {
    let plan = supervisor(ClashCoreType::ClashRust).run().unwrap();
    assert_eq!(plan.args, vec!["-d", "/var/lib/app", "-c", "/var/lib/app/config.yaml"]);
    let plan = supervisor(ClashCoreType::ClashPremium).run().unwrap();
    assert_eq!(plan.args, vec!["-d", "/var/lib/app", "-f", "/var/lib/app/config.yaml"]);
}

#[test]
fn run_while_running_is_refused() {
    let mut supervisor = supervisor(ClashCoreType::Mihomo);
    let mut guard = supervisor.record_spawn(4242);
    assert_eq!(supervisor.on_checkpoint(&mut guard, true), Some(CommandEvent::DelayCheckpointPass));
    assert_eq!(supervisor.state(), CoreInstanceState::Running);
    assert_eq!(supervisor.run(), Err(CoreInstanceError::StateCheckFailed));
    assert_eq!(supervisor.state(), CoreInstanceState::Running);
    assert_eq!(supervisor.child(), Some(4242));
}

#[test]
fn run_is_allowed_during_the_startup_window() {
    let mut supervisor = supervisor(ClashCoreType::Mihomo);
    let _guard = supervisor.record_spawn(4242);
    assert_eq!(supervisor.state(), CoreInstanceState::Stopped);
    assert_eq!(supervisor.child(), Some(4242));
    assert!(supervisor.run().is_ok());
}

#[test]
fn set_config_changes_the_next_run_and_check() {
    let mut supervisor = supervisor(ClashCoreType::ClashRust);
    supervisor.set_config("/tmp/other.yaml".to_string());
    assert_eq!(supervisor.config_path, "/tmp/other.yaml");
    let plan = supervisor.run().unwrap();
    assert_eq!(plan.args, vec!["-d", "/var/lib/app", "-c", "/tmp/other.yaml"]);
    let check = supervisor.check_config(None);
    assert_eq!(check.args, vec!["-t", "-d", "/var/lib/app", "-c", "/tmp/other.yaml"]);
}

#[test]
fn check_config_uses_the_override_when_given() {
    let supervisor = supervisor(ClashCoreType::Mihomo);
    let own = supervisor.check_config(None);
    assert_eq!(own.program, "/opt/core/mihomo");
    assert_eq!(own.args, vec!["-t", "-d", "/var/lib/app", "-f", "/var/lib/app/config.yaml"]);
    let other = supervisor.check_config(Some("/tmp/try.yaml".to_string()));
    assert_eq!(other.program, "/opt/core/mihomo");
    assert_eq!(other.args, vec!["-t", "-d", "/var/lib/app", "-f", "/tmp/try.yaml"]);
}

#[test]
fn check_config_for_singbox_uses_the_common_form() {
    let supervisor = builder(CoreType::SingBox).build(&ALL_EXIST).unwrap();
    let plan = supervisor.check_config(None);
    assert_eq!(plan.args, vec!["-t", "-d", "/var/lib/app", "-f", "/var/lib/app/config.yaml"]);
}

#[test]
fn a_successful_dry_run_accepts_the_config() {
    let supervisor = supervisor(ClashCoreType::Mihomo);
    let output = CheckOutput {
        success: true,
        stdout: "configuration file test is successful".to_string(),
        stderr: "warning".to_string(),
    };
    assert_eq!(supervisor.check_config_verdict(&output), Ok(()));
}

#[test]
fn a_rejected_config_carries_the_diagnostic_of_stdout() {
    let supervisor = supervisor(ClashCoreType::Mihomo);
    let output = CheckOutput {
        success: false,
        stdout: "level=error msg=\"yaml: line 7: could not find expected ':'\"".to_string(),
        stderr: "ignored".to_string(),
    };
    match supervisor.check_config_verdict(&output) {
        Err(CoreInstanceError::CfgFailed(message)) => {
            assert_eq!(message, "level=error msg=\"yaml: line 7: could not find expected ':'\"");
            assert!(message.contains("line 7"));
        }
        other => panic!("unexpected verdict {:?}", other),
    }
}

#[test]
fn clash_rs_diagnostic_joins_both_streams() {
    let supervisor = supervisor(ClashCoreType::ClashRust);
    let output = CheckOutput {
        success: false,
        stdout: "checking".to_string(),
        stderr: "Error: invalid field at line 3".to_string(),
    };
    assert_eq!(
        supervisor.check_config_verdict(&output),
        Err(CoreInstanceError::CfgFailed("checking\nError: invalid field at line 3".to_string()))
    );
    // The alpha build reports on standard output alone.
    let alpha = super_alpha();
    assert_eq!(
        alpha.check_config_verdict(&output),
        Err(CoreInstanceError::CfgFailed("checking".to_string()))
    );
}

fn super_alpha() -> CoreInstance {
    supervisor(ClashCoreType::ClashRustAlpha)
}

#[test]
fn parse_diagnostic_by_core() {
    assert_eq!(CoreType::Clash(ClashCoreType::ClashRust).parse_diagnostic("a", "b"), "a\nb");
    assert_eq!(CoreType::Clash(ClashCoreType::Mihomo).parse_diagnostic("a", "b"), "a");
    assert_eq!(CoreType::Clash(ClashCoreType::ClashPremium).parse_diagnostic("a", "b"), "a");
    assert_eq!(CoreType::SingBox.parse_diagnostic("a", "b"), "a");
}

#[test]
fn a_bad_config_does_not_block_the_run() {
    let mut supervisor = supervisor(ClashCoreType::Mihomo);
    let rejected = CheckOutput { success: false, stdout: "bad field 'port'".to_string(), stderr: String::new() };
    assert!(supervisor.check_config_verdict(&rejected).is_err());
    // The check leaves the state alone and the start is still planned.
    assert_eq!(supervisor.state(), CoreInstanceState::Stopped);
    assert!(supervisor.run().is_ok());
    // The core then fails early, which is reported as its end.
    let mut guard = supervisor.record_spawn(77);
    let end = TerminatedPayload { code: Some(1), signal: None };
    assert_eq!(
        supervisor.on_wait_finished(&mut guard, WaitOutcome::Exited(end)),
        Some(CommandEvent::Terminated(end))
    );
    assert_eq!(supervisor.on_checkpoint(&mut guard, false), None);
    assert_eq!(supervisor.state(), CoreInstanceState::Stopped);
    assert_eq!(supervisor.child(), None);
}

#[test]
fn errors_read_as_sentences() {
    assert_eq!(
        CoreInstanceError::Io("No such file or directory".to_string()).to_string(),
        "Failed to start instance: No such file or directory"
    );
    assert_eq!(
        CoreInstanceError::CfgFailed("line 3".to_string()).to_string(),
        "Cfg is not correct: line 3"
    );
    assert_eq!(
        CoreInstanceError::StateCheckFailed.to_string(),
        "State check failed, already running or stopped"
    );
}

#[test]
fn shutdown_hands_out_the_child_to_end() {
    let mut supervisor = supervisor(ClashCoreType::Mihomo);
    assert_eq!(supervisor.shutdown(), None);
    let mut guard = supervisor.record_spawn(900);
    supervisor.on_checkpoint(&mut guard, true);
    assert_eq!(supervisor.shutdown(), Some(900));
    assert_eq!(supervisor.child(), None);
    assert_eq!(supervisor.state(), CoreInstanceState::Stopped);
    assert_eq!(supervisor.shutdown(), None);
}

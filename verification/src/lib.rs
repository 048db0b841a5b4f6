//! Supervision of a long-running proxy core process.
//!
//! The crate holds the decisions of a process supervisor: which arguments a
//! core is started with, how a start, a startup checkpoint, an exit and a
//! kill move the supervisor from one state to the next, what is written to
//! and read from the pid file, and how the child's output is cut into lines.
//! Every function takes and returns plain values; spawning, signalling,
//! sleeping and file access are left to the caller, who performs the actions
//! that the functions here decide on and reports back what happened.

pub mod bridge;
pub mod definition;
pub mod dirs;
pub mod elevated;
pub mod graceful;
pub mod instance;
pub mod kill;
pub mod pid_file;
pub mod process;
pub mod sid;
pub mod text;
pub mod watch;

pub use bridge::{LineAssembler, StreamOrigin};
pub use definition::{ClashCoreType, CommandEvent, CoreMetaData, CoreType, TerminatedPayload};
pub use dirs::{suggest_service_config_dir, suggest_service_data_dir};
pub use graceful::{GracefulAction, GracefulKill, GracefulReport, GracefulStage};
pub use instance::{
    CheckOutput, CheckPlan, CoreInstance, CoreInstanceBuilder, CoreInstanceBuilderError,
    CoreInstanceError, CoreInstanceState, PathProbe, RunPlan,
};
pub use kill::{KillAction, KillProtocol, KillReport, KillStage};
pub use watch::{RunGuard, WaitOutcome};

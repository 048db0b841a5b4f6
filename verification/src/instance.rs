//! The supervisor of one core process: its settings, its state, and the
//! decisions of a start.
//!
//! A supervisor never touches a process itself. [`CoreInstance::run`] says
//! whether a start is allowed and which command it consists of; the caller
//! spawns that command and reports the new child with
//! [`CoreInstance::record_spawn`]. What the background watchers of a run see is
//! handled in the module `watch`, a kill in the module `kill`.

use crate::definition::{ClashCoreType, CoreType};
use crate::text::{debug_quoted, debug_repr, strings_view};
use vstd::prelude::*;

verus! {

/// Whether the supervised core counts as started.
#[derive(Debug, Clone, Copy, PartialEq, Eq, Structural)]
pub enum CoreInstanceState {
    Running,
    Stopped,
}

impl Default for CoreInstanceState {
    fn default() -> (state: Self)
        ensures
            state == CoreInstanceState::Stopped,
    {
        CoreInstanceState::Stopped
    }
}

/// Why an operation of the supervisor failed.
#[derive(Debug, Clone, PartialEq, Eq)]
pub enum CoreInstanceError {
    /// The operating system failed to start, poll or end the process, or the
    /// process outlived a forced kill; the text says which.
    Io(String),
    /// The core rejected the configuration; the text is its diagnostic.
    CfgFailed(String),
    /// A run was asked for while the core is running, or a kill while there
    /// is no child.
    StateCheckFailed,
}

/// A [`CoreInstanceError`] with its text as a sequence of characters.
pub enum ErrorView {
    Io(Seq<char>),
    CfgFailed(Seq<char>),
    StateCheckFailed,
}

impl View for CoreInstanceError {
    type V = ErrorView;

    open spec fn view(&self) -> ErrorView {
        match self {
            CoreInstanceError::Io(message) => ErrorView::Io(message@),
            CoreInstanceError::CfgFailed(message) => ErrorView::CfgFailed(message@),
            CoreInstanceError::StateCheckFailed => ErrorView::StateCheckFailed,
        }
    }
}

impl ErrorView {
    /// The sentence an error is reported with.
    pub open spec fn message(self) -> Seq<char> {
        match self {
            ErrorView::Io(message) => "Failed to start instance: "@ + message,
            ErrorView::CfgFailed(message) => "Cfg is not correct: "@ + message,
            ErrorView::StateCheckFailed => "State check failed, already running or stopped"@,
        }
    }
}

impl CoreInstanceError {
    pub fn to_string(&self) -> (message: String)
        ensures
            message@ == self@.message(),
    {
        match self {
            CoreInstanceError::Io(message) => "Failed to start instance: ".to_owned().concat(
                message.as_str(),
            ),
            CoreInstanceError::CfgFailed(message) => "Cfg is not correct: ".to_owned().concat(
                message.as_str(),
            ),
            CoreInstanceError::StateCheckFailed => {
                "State check failed, already running or stopped".to_owned()
            },
        }
    }
}

/// What a supervisor knows of its child: the state it reports, and the
/// process id of the child it holds, if it holds one.
pub struct Lifecycle {
    pub state: CoreInstanceState,
    pub child: Option<u32>,
}

impl Lifecycle {
    /// A supervisor that reports `Running` holds a child.
    pub open spec fn wf(self) -> bool {
        self.state is Running ==> self.child is Some
    }

    /// A supervisor before its first start, and after a confirmed end.
    pub open spec fn idle() -> Lifecycle {
        Lifecycle { state: CoreInstanceState::Stopped, child: None }
    }

    /// The supervisor right after `pid` was spawned: it holds the child and
    /// still reports `Stopped`, until the startup checkpoint confirms the run.
    pub open spec fn spawned(pid: u32) -> Lifecycle {
        Lifecycle { state: CoreInstanceState::Stopped, child: Some(pid) }
    }

    /// The end of child `pid` was seen: a supervisor that holds this child lets
    /// go of it and reports `Stopped`; one that holds no child or a later one
    /// is left as it is.
    pub open spec fn release(self, pid: u32) -> Lifecycle {
        if self.child == Some(pid) {
            Lifecycle::idle()
        } else {
            self
        }
    }

    /// Child `pid` has passed its startup checkpoint: a supervisor that holds
    /// this child reports `Running`; any other is left as it is.
    pub open spec fn confirm(self, pid: u32) -> Lifecycle {
        if self.child == Some(pid) {
            Lifecycle { state: CoreInstanceState::Running, child: self.child }
        } else {
            self
        }
    }
}

/// Which of the paths a supervisor is configured with exist, as the caller
/// found them on disk.
#[derive(Debug, Clone, Copy, PartialEq, Eq, Structural)]
pub struct PathProbe {
    pub binary_exists: bool,
    pub app_dir_exists: bool,
    pub config_exists: bool,
}

/// Why a supervisor could not be built.
#[derive(Debug, Clone, PartialEq, Eq)]
pub enum CoreInstanceBuilderError {
    /// A required setting is absent or names a path that does not exist; the
    /// text says which.
    ValidationError(String),
}

/// Collects the settings of a supervisor.
#[derive(Debug, Clone)]
pub struct CoreInstanceBuilder {
    core_type: Option<CoreType>,
    binary_path: Option<String>,
    app_dir: Option<String>,
    config_path: Option<String>,
    pid_path: Option<String>,
}

/// The settings a [`CoreInstanceBuilder`] has collected.
pub struct BuilderView {
    pub core_type: Option<CoreType>,
    pub binary_path: Option<Seq<char>>,
    pub app_dir: Option<Seq<char>>,
    pub config_path: Option<Seq<char>>,
    pub pid_path: Option<Seq<char>>,
}

/// The characters of an optional string.
pub open spec fn opt_chars(text: Option<String>) -> Option<Seq<char>> {
    match text {
        Some(text) => Some(text@),
        None => None,
    }
}

/// The complaint about a path setting: that it is absent, or that the path
/// does not exist.
pub open spec fn path_complaint(field: Seq<char>, path: Option<Seq<char>>, exists: bool) -> Option<
    Seq<char>,
> {
    match path {
        None => Some(field + " is required"@),
        Some(path) => if exists {
            None
        } else {
            Some(field + " "@ + debug_repr(path) + " does not exist"@)
        },
    }
}

impl BuilderView {
    /// The first complaint about the settings, taken in the order binary path,
    /// app directory, configuration path, pid path, core type; `None` where
    /// there is nothing to complain about.
    pub open spec fn complaint(self, probe: PathProbe) -> Option<Seq<char>> {
        if path_complaint("binary_path"@, self.binary_path, probe.binary_exists) is Some {
            path_complaint("binary_path"@, self.binary_path, probe.binary_exists)
        } else if path_complaint("app_dir"@, self.app_dir, probe.app_dir_exists) is Some {
            path_complaint("app_dir"@, self.app_dir, probe.app_dir_exists)
        } else if path_complaint("config_path"@, self.config_path, probe.config_exists) is Some {
            path_complaint("config_path"@, self.config_path, probe.config_exists)
        } else if self.pid_path is None {
            Some("pid_path is required"@)
        } else if self.core_type is None {
            Some("core_type is required"@)
        } else {
            None
        }
    }
}

impl View for CoreInstanceBuilder {
    type V = BuilderView;

    closed spec fn view(&self) -> BuilderView {
        BuilderView {
            core_type: self.core_type,
            binary_path: opt_chars(self.binary_path),
            app_dir: opt_chars(self.app_dir),
            config_path: opt_chars(self.config_path),
            pid_path: opt_chars(self.pid_path),
        }
    }
}

fn check_path(field: &str, path: &Option<String>, exists: bool) -> (complaint: Option<String>)
    ensures
        opt_chars(complaint) == path_complaint(field@, opt_chars(*path), exists),
{
    match path {
        None => Some(field.to_owned().concat(" is required")),
        Some(path) => {
            if exists {
                None
            } else {
                let quoted = debug_quoted(path.as_str());
                Some(
                    field.to_owned().concat(" ").concat(quoted.as_str()).concat(" does not exist"),
                )
            }
        },
    }
}

impl Default for CoreInstanceBuilder {
    fn default() -> (builder: Self)
        ensures
            builder@ == (BuilderView {
                core_type: None,
                binary_path: None,
                app_dir: None,
                config_path: None,
                pid_path: None,
            }),
    {
        CoreInstanceBuilder {
            core_type: None,
            binary_path: None,
            app_dir: None,
            config_path: None,
            pid_path: None,
        }
    }
}

impl CoreInstanceBuilder {
    pub fn core_type(self, value: CoreType) -> (builder: Self)
        ensures
            builder@ == (BuilderView { core_type: Some(value), ..self@ }),
    {
        CoreInstanceBuilder { core_type: Some(value), ..self }
    }

    pub fn binary_path(self, value: String) -> (builder: Self)
        ensures
            builder@ == (BuilderView { binary_path: Some(value@), ..self@ }),
    {
        CoreInstanceBuilder { binary_path: Some(value), ..self }
    }

    pub fn app_dir(self, value: String) -> (builder: Self)
        ensures
            builder@ == (BuilderView { app_dir: Some(value@), ..self@ }),
    {
        CoreInstanceBuilder { app_dir: Some(value), ..self }
    }

    pub fn config_path(self, value: String) -> (builder: Self)
        ensures
            builder@ == (BuilderView { config_path: Some(value@), ..self@ }),
    {
        CoreInstanceBuilder { config_path: Some(value), ..self }
    }

    pub fn pid_path(self, value: String) -> (builder: Self)
        ensures
            builder@ == (BuilderView { pid_path: Some(value@), ..self@ }),
    {
        CoreInstanceBuilder { pid_path: Some(value), ..self }
    }

    /// Checks that every setting is present and that the binary, the app
    /// directory and the configuration exist according to `probe`.
    pub fn validate(&self, probe: &PathProbe) -> (checked: Result<(), String>)
        ensures
            match checked {
                Ok(()) => self@.complaint(*probe) is None,
                Err(message) => self@.complaint(*probe) == Some(message@),
            },
    {
        if let Some(message) = check_path("binary_path", &self.binary_path, probe.binary_exists) {
            return Err(message);
        }
        if let Some(message) = check_path("app_dir", &self.app_dir, probe.app_dir_exists) {
            return Err(message);
        }
        if let Some(message) = check_path("config_path", &self.config_path, probe.config_exists) {
            return Err(message);
        }
        if self.pid_path.is_none() {
            return Err("pid_path is required".to_owned());
        }
        if self.core_type.is_none() {
            return Err("core_type is required".to_owned());
        }
        Ok(())
    }
}

/// The supervisor of one core process.
#[derive(Debug)]
pub struct CoreInstance {
    pub core_type: CoreType,
    pub binary_path: String,
    pub app_dir: String,
    pub config_path: String,
    /// Where the process id of the last child is kept between runs.
    pid_path: String,
    /// The process id of the child that is held, if one is.
    instance: Option<u32>,
    state: CoreInstanceState,
}

/// How a supervisor is configured.
pub struct Settings {
    pub core_type: CoreType,
    pub binary_path: Seq<char>,
    pub app_dir: Seq<char>,
    pub config_path: Seq<char>,
    pub pid_path: Seq<char>,
}

/// The command of a start, and the pid file to reap before it.
#[derive(Debug, Clone, PartialEq, Eq)]
pub struct RunPlan {
    /// The pid file whose process, left behind by an earlier run, is to be
    /// ended before the program is spawned, and to which the new child's
    /// process id is written afterwards.
    pub pid_file: String,
    pub program: String,
    pub args: Vec<String>,
    pub current_dir: String,
}

/// The command of a dry run that validates a configuration.
#[derive(Debug, Clone, PartialEq, Eq)]
pub struct CheckPlan {
    pub program: String,
    pub args: Vec<String>,
}

/// What a dry run of the core gave back.
#[derive(Debug)]
pub struct CheckOutput {
    /// Whether the core exited with success.
    pub success: bool,
    pub stdout: String,
    pub stderr: String,
}

impl CoreType {
    /// The argument list of a dry run that only validates the configuration.
    /// A core without a template of its own is asked in the common form.
    pub open spec fn check_args(self, app_dir: Seq<char>, config_path: Seq<char>) -> Seq<Seq<char>> {
        match self {
            CoreType::Clash(clash) => clash.check_args(app_dir, config_path),
            CoreType::SingBox => seq!["-t"@, "-d"@, app_dir, "-f"@, config_path],
        }
    }

    /// The diagnostic of a rejected configuration. clash-rs splits it over
    /// both output streams, so both are kept, joined by a line break; every
    /// other core reports on standard output alone.
    pub open spec fn diagnostic(self, stdout: Seq<char>, stderr: Seq<char>) -> Seq<char> {
        match self {
            CoreType::Clash(ClashCoreType::ClashRust) => stdout + "\n"@ + stderr,
            _ => stdout,
        }
    }

    /// The arguments this core is started with to validate the configuration
    /// at `config_path` without running it.
    pub fn get_check_args(&self, app_dir: &str, config_path: &str) -> (args: Vec<String>)
        ensures
            strings_view(args@) == self.check_args(app_dir@, config_path@),
    {
        match self {
            CoreType::Clash(clash) => clash.get_check_args(app_dir, config_path),
            CoreType::SingBox => {
                let mut args: Vec<String> = Vec::new();
                args.push("-t".to_owned());
                args.push("-d".to_owned());
                args.push(app_dir.to_owned());
                args.push("-f".to_owned());
                args.push(config_path.to_owned());
                assert(strings_view(args@) =~= self.check_args(app_dir@, config_path@));
                args
            },
        }
    }

    /// Extracts the diagnostic of a rejected configuration from what the core
    /// wrote during the dry run.
    pub fn parse_diagnostic(&self, stdout: &str, stderr: &str) -> (text: String)
        ensures
            text@ == self.diagnostic(stdout@, stderr@),
    {
        match self {
            CoreType::Clash(ClashCoreType::ClashRust) => stdout.to_owned().concat("\n").concat(
                stderr,
            ),
            _ => stdout.to_owned(),
        }
    }
}

impl CoreInstanceBuilder {
    /// Builds the supervisor if [`CoreInstanceBuilder::validate`] has no
    /// complaint. A new supervisor holds no child and reports `Stopped`.
    pub fn build(self, probe: &PathProbe) -> (built: Result<
        CoreInstance,
        CoreInstanceBuilderError,
    >)
        ensures
            match built {
                Ok(instance) => {
                    &&& self@.complaint(*probe) is None
                    &&& self@.core_type == Some(instance.settings().core_type)
                    &&& self@.binary_path == Some(instance.settings().binary_path)
                    &&& self@.app_dir == Some(instance.settings().app_dir)
                    &&& self@.config_path == Some(instance.settings().config_path)
                    &&& self@.pid_path == Some(instance.settings().pid_path)
                    &&& instance.lifecycle() == Lifecycle::idle()
                    &&& instance.wf()
                },
                Err(CoreInstanceBuilderError::ValidationError(message)) => self@.complaint(*probe)
                    == Some(message@),
            },
    {
        match self.validate(probe) {
            Err(message) => Err(CoreInstanceBuilderError::ValidationError(message)),
            Ok(()) => Ok(
                CoreInstance {
                    core_type: self.core_type.unwrap(),
                    binary_path: self.binary_path.unwrap(),
                    app_dir: self.app_dir.unwrap(),
                    config_path: self.config_path.unwrap(),
                    pid_path: self.pid_path.unwrap(),
                    instance: None,
                    state: CoreInstanceState::Stopped,
                },
            ),
        }
    }
}

impl CoreInstance {
    /// The state the supervisor reports and the child it holds.
    pub closed spec fn lifecycle(&self) -> Lifecycle {
        Lifecycle { state: self.state, child: self.instance }
    }

    /// How the supervisor is configured.
    pub closed spec fn settings(&self) -> Settings {
        Settings {
            core_type: self.core_type,
            binary_path: self.binary_path@,
            app_dir: self.app_dir@,
            config_path: self.config_path@,
            pid_path: self.pid_path@,
        }
    }

    /// A supervisor that reports `Running` holds a child.
    pub open spec fn wf(&self) -> bool {
        self.lifecycle().wf()
    }

    /// Replaces the configuration that the next run and the next check use.
    pub fn set_config(&mut self, config: String)
        ensures
            final(self).settings() == (Settings { config_path: config@, ..old(self).settings() }),
            final(self).lifecycle() == old(self).lifecycle(),
            old(self).wf() ==> final(self).wf(),
    {
        self.config_path = config;
    }

    pub fn state(&self) -> (state: CoreInstanceState)
        ensures
            state == self.lifecycle().state,
    {
        self.state
    }

    /// The process id of the child that is held, if one is.
    pub fn child(&self) -> (child: Option<u32>)
        ensures
            child == self.lifecycle().child,
    {
        self.instance
    }

    /// The command that validates `config`, or the supervisor's own
    /// configuration where none is given. The supervisor's state plays no
    /// part in it.
    pub fn check_config(&self, config: Option<String>) -> (plan: CheckPlan)
        ensures
            plan.program@ == self.settings().binary_path,
            strings_view(plan.args@) == self.settings().core_type.check_args(
                self.settings().app_dir,
                match config {
                    Some(path) => path@,
                    None => self.settings().config_path,
                },
            ),
    {
        let args = match &config {
            Some(path) => self.core_type.get_check_args(self.app_dir.as_str(), path.as_str()),
            None => self.core_type.get_check_args(
                self.app_dir.as_str(),
                self.config_path.as_str(),
            ),
        };
        CheckPlan { program: self.binary_path.clone(), args }
    }

    /// Judges a dry run: success if the core exited with success, else the
    /// core's diagnostic as [`CoreInstanceError::CfgFailed`].
    pub fn check_config_verdict(&self, output: &CheckOutput) -> (verdict: Result<
        (),
        CoreInstanceError,
    >)
        ensures
            match verdict {
                Ok(()) => output.success,
                Err(error) => !output.success && error@ == ErrorView::CfgFailed(
                    self.settings().core_type.diagnostic(output.stdout@, output.stderr@),
                ),
            },
    {
        if output.success {
            Ok(())
        } else {
            Err(
                CoreInstanceError::CfgFailed(
                    self.core_type.parse_diagnostic(output.stdout.as_str(), output.stderr.as_str()),
                ),
            )
        }
    }

    /// Decides on a start. A supervisor that reports `Running` refuses with
    /// [`CoreInstanceError::StateCheckFailed`]; any other answers with the
    /// command to spawn. Nothing is changed by asking.
    ///
    /// Only the clash cores have a command line for a run, so the supervisor
    /// has to be configured with one of them.
    pub fn run(&self) -> (plan: Result<RunPlan, CoreInstanceError>)
        requires
            self.settings().core_type is Clash,
        ensures
            match plan {
                Ok(plan) => {
                    &&& self.lifecycle().state is Stopped
                    &&& plan.pid_file@ == self.settings().pid_path
                    &&& plan.program@ == self.settings().binary_path
                    &&& strings_view(plan.args@) == self.settings().core_type->Clash_0.run_args(
                        self.settings().app_dir,
                        self.settings().config_path,
                    )
                    &&& plan.current_dir@ == self.settings().app_dir
                },
                Err(error) => self.lifecycle().state is Running && error@
                    == ErrorView::StateCheckFailed,
            },
    {
        match self.state {
            CoreInstanceState::Running => Err(CoreInstanceError::StateCheckFailed),
            CoreInstanceState::Stopped => {
                let args = match self.core_type {
                    CoreType::Clash(clash) => clash.get_run_args(
                        self.app_dir.as_str(),
                        self.config_path.as_str(),
                    ),
                    CoreType::SingBox => vstd::pervasive::unreached(),
                };
                Ok(
                    RunPlan {
                        pid_file: self.pid_path.clone(),
                        program: self.binary_path.clone(),
                        args,
                        current_dir: self.app_dir.clone(),
                    },
                )
            },
        }
    }

    /// Takes the child away from a supervisor that is given up, and hands back
    /// its process id so that the caller can end the process.
    pub fn shutdown(&mut self) -> (orphan: Option<u32>)
        ensures
            orphan == old(self).lifecycle().child,
            final(self).lifecycle() == Lifecycle::idle(),
            final(self).settings() == old(self).settings(),
            final(self).wf(),
    {
        let orphan = self.instance;
        self.instance = None;
        self.state = CoreInstanceState::Stopped;
        orphan
    }

    /// Holds the child `pid` from now on, in the state `Stopped`.
    pub(crate) fn hold(&mut self, pid: u32)
        ensures
            final(self).lifecycle() == Lifecycle::spawned(pid),
            final(self).settings() == old(self).settings(),
    {
        self.instance = Some(pid);
        self.state = CoreInstanceState::Stopped;
    }

    /// Lets go of the child `pid` if it is the one that is held.
    pub(crate) fn release(&mut self, pid: u32)
        ensures
            final(self).lifecycle() == old(self).lifecycle().release(pid),
            final(self).settings() == old(self).settings(),
    {
        if self.instance == Some(pid) {
            self.instance = None;
            self.state = CoreInstanceState::Stopped;
        }
    }

    /// Reports `Running` if the child `pid` is the one that is held.
    pub(crate) fn confirm(&mut self, pid: u32)
        ensures
            final(self).lifecycle() == old(self).lifecycle().confirm(pid),
            final(self).settings() == old(self).settings(),
    {
        if self.instance == Some(pid) {
            self.state = CoreInstanceState::Running;
        }
    }
}

} // verus!

//! The supported cores, their command lines, and the events of a run.

use crate::text::strings_view;
use vstd::prelude::*;

verus! {

/// The clash-compatible cores.
#[derive(Debug, Clone, Copy, PartialEq, Eq, Hash, Structural)]
pub enum ClashCoreType {
    Mihomo,
    MihomoAlpha,
    ClashRust,
    ClashRustAlpha,
    ClashPremium,
}

impl ClashCoreType {
    /// The name a core is known by.
    pub open spec fn name(self) -> Seq<char> {
        match self {
            ClashCoreType::Mihomo => "mihomo"@,
            ClashCoreType::MihomoAlpha => "mihomo-alpha"@,
            ClashCoreType::ClashRust => "clash-rs"@,
            ClashCoreType::ClashRustAlpha => "clash-rs-alpha"@,
            ClashCoreType::ClashPremium => "clash"@,
        }
    }

    /// The flag that introduces the configuration file on this core's
    /// command line: `-c` for the clash-rs family, `-f` for the others.
    pub open spec fn config_flag(self) -> Seq<char> {
        match self {
            ClashCoreType::ClashRust | ClashCoreType::ClashRustAlpha => "-c"@,
            _ => "-f"@,
        }
    }

    /// The flags that stand before the directory and configuration pairs
    /// when the core is started for a run: `-m` for the mihomo family,
    /// nothing for the others.
    pub open spec fn run_flags(self) -> Seq<Seq<char>> {
        match self {
            ClashCoreType::Mihomo | ClashCoreType::MihomoAlpha => seq!["-m"@],
            _ => Seq::empty(),
        }
    }

    /// The pairs `-d <app_dir>` and `<config flag> <config_path>` that every
    /// invocation of a core ends with.
    pub open spec fn path_args(self, app_dir: Seq<char>, config_path: Seq<char>) -> Seq<Seq<char>> {
        seq!["-d"@, app_dir, self.config_flag(), config_path]
    }

    /// The argument list of a run.
    pub open spec fn run_args(self, app_dir: Seq<char>, config_path: Seq<char>) -> Seq<Seq<char>> {
        self.run_flags() + self.path_args(app_dir, config_path)
    }

    /// The argument list of a dry run that only validates the configuration:
    /// `-t` in place of the run flags.
    pub open spec fn check_args(self, app_dir: Seq<char>, config_path: Seq<char>) -> Seq<Seq<char>> {
        seq!["-t"@] + self.path_args(app_dir, config_path)
    }

    pub fn as_ref(&self) -> (name: &'static str)
        ensures
            name@ == self.name(),
    {
        match self {
            ClashCoreType::Mihomo => "mihomo",
            ClashCoreType::MihomoAlpha => "mihomo-alpha",
            ClashCoreType::ClashRust => "clash-rs",
            ClashCoreType::ClashRustAlpha => "clash-rs-alpha",
            ClashCoreType::ClashPremium => "clash",
        }
    }

    pub fn to_string(&self) -> (name: String)
        ensures
            name@ == self.name(),
    {
        self.as_ref().to_owned()
    }

    fn config_flag_str(&self) -> (flag: &'static str)
        ensures
            flag@ == self.config_flag(),
    {
        match self {
            ClashCoreType::ClashRust | ClashCoreType::ClashRustAlpha => "-c",
            _ => "-f",
        }
    }

    fn push_path_args(&self, args: &mut Vec<String>, app_dir: &str, config_path: &str)
        ensures
            strings_view(final(args)@) == strings_view(old(args)@) + self.path_args(
                app_dir@,
                config_path@,
            ),
    {
        args.push("-d".to_owned());
        args.push(app_dir.to_owned());
        args.push(self.config_flag_str().to_owned());
        args.push(config_path.to_owned());
        assert(strings_view(args@) =~= strings_view(old(args)@) + self.path_args(
            app_dir@,
            config_path@,
        ));
    }

    /// The arguments this core is started with for a run in `app_dir` on the
    /// configuration at `config_path`.
    pub fn get_run_args(&self, app_dir: &str, config_path: &str) -> (args: Vec<String>)
        ensures
            strings_view(args@) == self.run_args(app_dir@, config_path@),
    {
        let mut args: Vec<String> = Vec::new();
        match self {
            ClashCoreType::Mihomo | ClashCoreType::MihomoAlpha => {
                args.push("-m".to_owned());
            },
            _ => {},
        }
        assert(strings_view(args@) =~= self.run_flags());
        self.push_path_args(&mut args, app_dir, config_path);
        args
    }

    /// The arguments this core is started with to validate the configuration
    /// at `config_path` without running it.
    pub fn get_check_args(&self, app_dir: &str, config_path: &str) -> (args: Vec<String>)
        ensures
            strings_view(args@) == self.check_args(app_dir@, config_path@),
    {
        let mut args: Vec<String> = Vec::new();
        args.push("-t".to_owned());
        assert(strings_view(args@) =~= seq!["-t"@]);
        self.push_path_args(&mut args, app_dir, config_path);
        args
    }
}

/// Every command line of a core closes with the same four arguments, and a
/// dry run differs from a run only in what stands before them: the dry run's
/// arguments are `-t` followed by the last four arguments of the run.
pub proof fn lemma_check_args_follow_run_args(
    core: ClashCoreType,
    app_dir: Seq<char>,
    config_path: Seq<char>,
)
    ensures
        ({
            let run = core.run_args(app_dir, config_path);
            let check = core.check_args(app_dir, config_path);
            &&& 4 <= run.len() <= 5
            &&& check.len() == 5
            &&& check == seq!["-t"@] + run.subrange(run.len() - 4, run.len() as int)
            &&& run[run.len() - 3] == app_dir
            &&& run[run.len() - 1] == config_path
        }),
{
    let run = core.run_args(app_dir, config_path);
    assert(run.subrange(run.len() - 4, run.len() as int) =~= core.path_args(app_dir, config_path));
}

/// A core that the supervisor can be configured with.
#[derive(Debug, Clone, Copy, PartialEq, Eq, Hash, Structural)]
pub enum CoreType {
    Clash(ClashCoreType),
    SingBox,
}

impl CoreType {
    /// The name a core is known by.
    pub open spec fn name(self) -> Seq<char> {
        match self {
            CoreType::Clash(clash) => clash.name(),
            CoreType::SingBox => "singbox"@,
        }
    }

    /// The cores that can be started, in the order they are offered.
    pub open spec fn supported_cores() -> Seq<CoreType> {
        seq![
            CoreType::Clash(ClashCoreType::Mihomo),
            CoreType::Clash(ClashCoreType::MihomoAlpha),
            CoreType::Clash(ClashCoreType::ClashRust),
            CoreType::Clash(ClashCoreType::ClashRustAlpha),
            CoreType::Clash(ClashCoreType::ClashPremium),
        ]
    }

    pub fn as_ref(&self) -> (name: &'static str)
        ensures
            name@ == self.name(),
    {
        match self {
            CoreType::Clash(clash) => clash.as_ref(),
            CoreType::SingBox => "singbox",
        }
    }

    pub fn to_string(&self) -> (name: String)
        ensures
            name@ == self.name(),
    {
        self.as_ref().to_owned()
    }

    /// The file name of the core's executable: its name followed by the
    /// platform's suffix for executables (empty on unix, `.exe` on windows).
    pub fn get_executable_name(&self, exe_suffix: &str) -> (file_name: String)
        ensures
            file_name@ == self.name() + exe_suffix@,
    {
        self.as_ref().to_owned().concat(exe_suffix)
    }

    pub fn get_supported_cores() -> (cores: &'static [CoreType])
        ensures
            cores@ == Self::supported_cores(),
    {
        let cores: &'static [CoreType] = &[
            CoreType::Clash(ClashCoreType::Mihomo),
            CoreType::Clash(ClashCoreType::MihomoAlpha),
            CoreType::Clash(ClashCoreType::ClashRust),
            CoreType::Clash(ClashCoreType::ClashRustAlpha),
            CoreType::Clash(ClashCoreType::ClashPremium),
        ];
        assert(cores@ =~= Self::supported_cores());
        cores
    }

    /// The executable file names of the supported cores, in the order of
    /// [`CoreType::get_supported_cores`].
    pub fn get_supported_cores_executables(exe_suffix: &str) -> (names: Vec<String>)
        ensures
            strings_view(names@) == Self::supported_cores().map_values(
                |core: CoreType| core.name() + exe_suffix@,
            ),
    {
        let cores = Self::get_supported_cores();
        let mut names: Vec<String> = Vec::new();
        let mut i: usize = 0;
        while i < cores.len()
            invariant
                i <= cores.len(),
                cores@ == Self::supported_cores(),
                names.len() == i,
                forall|j: int| 0 <= j < i ==> (#[trigger] names@[j])@ == cores@[j].name() + exe_suffix@,
            decreases cores.len() - i,
        {
            names.push(cores[i].get_executable_name(exe_suffix));
            i += 1;
        }
        assert(strings_view(names@) =~= Self::supported_cores().map_values(
            |core: CoreType| core.name() + exe_suffix@,
        ));
        names
    }
}

/// What is known about an installed core.
pub struct CoreMetaData {
    downloaded: bool,
}

/// How a child process ended: its exit code, and the number of the signal
/// that ended it where the platform reports one.
#[derive(Debug, Clone, Copy, PartialEq, Eq, Structural)]
pub struct TerminatedPayload {
    pub code: Option<i32>,
    pub signal: Option<i32>,
}

/// One entry of the stream a run reports on.
#[derive(Debug, Clone, PartialEq, Eq)]
pub enum CommandEvent {
    /// A line the child wrote to its standard output.
    Stdout(String),
    /// A line the child wrote to its standard error.
    Stderr(String),
    /// A failure observed while watching the child.
    Error(String),
    /// The child has ended.
    Terminated(TerminatedPayload),
    /// The child was still alive when the startup grace period ran out.
    DelayCheckpointPass,
}

/// A [`CommandEvent`] with its text as a sequence of characters.
pub enum EventView {
    Stdout(Seq<char>),
    Stderr(Seq<char>),
    Error(Seq<char>),
    Terminated(TerminatedPayload),
    DelayCheckpointPass,
}

impl View for CommandEvent {
    type V = EventView;

    open spec fn view(&self) -> EventView {
        match self {
            CommandEvent::Stdout(line) => EventView::Stdout(line@),
            CommandEvent::Stderr(line) => EventView::Stderr(line@),
            CommandEvent::Error(message) => EventView::Error(message@),
            CommandEvent::Terminated(payload) => EventView::Terminated(*payload),
            CommandEvent::DelayCheckpointPass => EventView::DelayCheckpointPass,
        }
    }
}

} // verus!

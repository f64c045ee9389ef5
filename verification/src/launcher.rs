//! The launcher: it starts the target suspended, injects the payload, runs
//! it, and lets the target go only after that.
//!
//! The launcher is a conversation with its host like a pass over hooks: it
//! names the pending operation and takes the outcome back. From the moment
//! a process was started, every failure is reported, and the process is
//! terminated before the failure is handed on.

use vstd::prelude::*;
use vstd::string::*;

verus! {

/// The file name of the target where no path is given.
pub const DEFAULT_EXECUTABLE: &'static str = "JustCause3.exe";

/// The file name of the payload where none is given.
pub const DEFAULT_PAYLOAD: &'static str = "jc3boot_payload.dll";

/// The number of the application on the distribution platform.
pub const STEAM_APP_ID: u32 = 225540;

/// The export of the payload that starts the hooks.
pub const REMOTE_ENTRY: &'static str = "run";

/// How long the launcher waits for the export to return, in seconds.
pub const REMOTE_TIMEOUT_SECONDS: u64 = 10;

/// The character of a decimal digit.
pub open spec fn digit_char(digit: nat) -> char {
    if digit == 0 {
        '0'
    } else if digit == 1 {
        '1'
    } else if digit == 2 {
        '2'
    } else if digit == 3 {
        '3'
    } else if digit == 4 {
        '4'
    } else if digit == 5 {
        '5'
    } else if digit == 6 {
        '6'
    } else if digit == 7 {
        '7'
    } else if digit == 8 {
        '8'
    } else {
        '9'
    }
}

/// The decimal numeral of `n`, without leading zeros.
pub open spec fn decimal_text(n: nat) -> Seq<char>
    decreases n,
{
    if n < 10 {
        seq![digit_char(n)]
    } else {
        decimal_text(n / 10).push(digit_char(n % 10))
    }
}

fn digit_str(digit: u32) -> (text: &'static str)
    requires
        digit < 10,
    ensures
        text@ == seq![digit_char(digit as nat)],
{
    proof {
        reveal_strlit("0");
        reveal_strlit("1");
        reveal_strlit("2");
        reveal_strlit("3");
        reveal_strlit("4");
        reveal_strlit("5");
        reveal_strlit("6");
        reveal_strlit("7");
        reveal_strlit("8");
        reveal_strlit("9");
    }
    let text = if digit == 0 {
        "0"
    } else if digit == 1 {
        "1"
    } else if digit == 2 {
        "2"
    } else if digit == 3 {
        "3"
    } else if digit == 4 {
        "4"
    } else if digit == 5 {
        "5"
    } else if digit == 6 {
        "6"
    } else if digit == 7 {
        "7"
    } else if digit == 8 {
        "8"
    } else {
        "9"
    };
    assert(text@ =~= seq![digit_char(digit as nat)]);
    text
}

/// Appends the decimal numeral of `n` to `text`.
pub fn append_decimal(text: &mut String, n: u32)
    ensures
        final(text)@ == old(text)@ + decimal_text(n as nat),
    decreases n,
{
    if n >= 10 {
        append_decimal(text, n / 10);
    }
    let ghost before = text@;
    text.append(digit_str(n % 10));
    proof {
        if n >= 10 {
            assert(before + seq![digit_char((n % 10) as nat)] =~= old(text)@ + decimal_text(
                n as nat,
            ));
        }
    }
}

/// The line `prefix` followed by the decimal numeral of `n`.
pub fn numbered_line(prefix: &str, n: u32) -> (line: String)
    ensures
        line@ == prefix@ + decimal_text(n as nat),
{
    let mut line = String::from_str(prefix);
    append_decimal(&mut line, n);
    line
}

/// Why a launch failed.
#[derive(Clone, Copy, Debug, PartialEq, Eq, Structural)]
pub enum LaunchError {
    /// The running instances could not be listed.
    Enumeration,
    /// A running instance could not be terminated.
    Termination,
    /// The target could not be resolved or started.
    SpawnError,
    /// The directory of the launcher, where the payload lies, was not found.
    PayloadLocation,
    /// The payload could not be placed in the target.
    InjectionError,
    /// The payload's module could not be looked up in the target.
    ModuleBase,
    /// The payload's module is not loaded in the target.
    ModuleBaseNull,
    /// The payload's export could not be called.
    Invocation,
    /// The payload's export did not return in time.
    InvocationTimeout,
}

/// The text that names a launch failure.
pub open spec fn error_text(error: LaunchError) -> Seq<char> {
    match error {
        LaunchError::Enumeration => "failed to list running instances"@,
        LaunchError::Termination => "failed to terminate running instance"@,
        LaunchError::SpawnError => "failed to spawn process"@,
        LaunchError::PayloadLocation => "failed to find launcher executable directory"@,
        LaunchError::InjectionError => "failed to inject"@,
        LaunchError::ModuleBase => "failed to get payload base"@,
        LaunchError::ModuleBaseNull => "payload base is null"@,
        LaunchError::Invocation => "failed to call payload run"@,
        LaunchError::InvocationTimeout => "failed to call payload run"@,
    }
}

/// The text that names `error`.
pub fn describe(error: LaunchError) -> (text: &'static str)
    ensures
        text@ == error_text(error),
{
    match error {
        LaunchError::Enumeration => "failed to list running instances",
        LaunchError::Termination => "failed to terminate running instance",
        LaunchError::SpawnError => "failed to spawn process",
        LaunchError::PayloadLocation => "failed to find launcher executable directory",
        LaunchError::InjectionError => "failed to inject",
        LaunchError::ModuleBase => "failed to get payload base",
        LaunchError::ModuleBaseNull => "payload base is null",
        LaunchError::Invocation => "failed to call payload run",
        LaunchError::InvocationTimeout => "failed to call payload run",
    }
}

/// The line that announces the termination of a running instance.
pub open spec fn terminating_line(process_id: u32) -> Seq<char> {
    "Terminating process with PID "@ + decimal_text(process_id as nat)
}

/// The line that announces the process that was started.
pub open spec fn spawned_line(process_id: u32) -> Seq<char> {
    "Spawned process with PID "@ + decimal_text(process_id as nat)
}

/// The line that announces the injection.
pub open spec fn injecting_line(process_id: u32) -> Seq<char> {
    "Injecting into process with PID "@ + decimal_text(process_id as nat)
}

/// The line that announces the call of the payload.
pub open spec fn running_line() -> Seq<char> {
    "Running payload"@
}

/// The line that reports a failure after the process was started.
pub open spec fn failure_line(error: LaunchError) -> Seq<char> {
    "Failed to inject: "@ + error_text(error)
}

/// The views of a sequence of strings, in the same order.
pub open spec fn string_views(strings: Seq<String>) -> Seq<Seq<char>> {
    strings.map_values(|text: String| text@)
}

/// An independent copy of `strings`.
pub fn copy_strings(strings: &Vec<String>) -> (copy: Vec<String>)
    ensures
        string_views(copy@) == string_views(strings@),
{
    let mut copy: Vec<String> = Vec::new();
    let mut i: usize = 0;
    while i < strings.len()
        invariant
            i <= strings.len(),
            string_views(copy@) == string_views(strings@.take(i as int)),
        decreases strings.len() - i,
    {
        let ghost before = copy@;
        let text = strings[i].clone();
        copy.push(text);
        assert(string_views(before.push(text)) =~= string_views(before).push(text@));
        assert(string_views(strings@.take(i as int + 1)) =~= string_views(
            strings@.take(i as int),
        ).push(strings@[i as int]@));
        i = i + 1;
    }
    assert(strings@.take(strings@.len() as int) =~= strings@);
    copy
}

/// What the user asked of the launcher.
#[derive(Clone, Debug, PartialEq, Eq)]
pub struct Args {
    /// Terminate the running instances of the target first.
    pub spawn: bool,
    /// The executable to launch; the distribution platform's copy if none.
    pub path: Option<String>,
    /// The file name of the payload, beside the launcher.
    pub payload: Option<String>,
    /// Leave the target suspended after a successful launch.
    pub dont_resume: bool,
    /// What is handed on to the target as it stands.
    pub args: Vec<String>,
}

/// The mathematical value of [`Args`].
pub struct ArgsView {
    pub spawn: bool,
    pub path: Option<Seq<char>>,
    pub payload: Option<Seq<char>>,
    pub dont_resume: bool,
    pub args: Seq<Seq<char>>,
}

impl View for Args {
    type V = ArgsView;

    open spec fn view(&self) -> ArgsView {
        ArgsView {
            spawn: self.spawn,
            path: match self.path {
                Some(path) => Some(path@),
                None => None,
            },
            payload: match self.payload {
                Some(payload) => Some(payload@),
                None => None,
            },
            dont_resume: self.dont_resume,
            args: string_views(self.args@),
        }
    }
}

/// A running process, as the host lists it: its identifier and the value of
/// the handle that the host holds on it.
#[derive(Clone, Copy, Debug, PartialEq, Eq, Structural)]
pub struct ProcessEntry {
    pub process_id: u32,
    pub process: u64,
}

/// The process that the launcher started: the values of the handles on the
/// process and on its main thread, and the identifier of the process.
#[derive(Clone, Copy, Debug, PartialEq, Eq, Structural)]
pub struct ProcessHandle {
    pub process: u64,
    pub thread: u64,
    pub process_id: u32,
}

/// What is launched.
#[derive(Clone, Debug, PartialEq, Eq)]
pub enum Target {
    /// The copy that the distribution platform installed.
    Steam,
    /// The executable at `path`, started in `directory`.
    Path { directory: String, path: String },
    /// A path that names no directory to start in.
    Unresolved,
}

/// The mathematical value of a [`Target`].
pub enum TargetView {
    Steam,
    Path { directory: Seq<char>, path: Seq<char> },
    Unresolved,
}

impl View for Target {
    type V = TargetView;

    open spec fn view(&self) -> TargetView {
        match self {
            Target::Steam => TargetView::Steam,
            Target::Path { directory, path } => TargetView::Path {
                directory: directory@,
                path: path@,
            },
            Target::Unresolved => TargetView::Unresolved,
        }
    }
}

/// An operation for the launcher's host to perform.
#[derive(Clone, Debug, PartialEq, Eq)]
pub enum LaunchAction {
    /// List the running processes whose executable is called `name`.
    FindProcesses { name: String },
    /// Print `line`.
    Print { line: String },
    /// Terminate the process.
    Terminate { process_id: u32, process: u64 },
    /// Start the executable at `path` in `directory` with `args`; where
    /// `suspended` is set, hold its main thread at the entry point.
    Spawn { directory: String, path: String, args: Vec<String>, suspended: bool },
    /// Start the executable at `relative_path` below the directory in which
    /// the distribution platform installed application `app_id`, with
    /// `args`; where `suspended` is set, hold its main thread at the entry
    /// point.
    SpawnSteam { app_id: u32, relative_path: String, args: Vec<String>, suspended: bool },
    /// Find the file called `name` beside the launcher's own executable.
    LocatePayload { name: String },
    /// Place the module at `payload_path` in the process.
    Inject { process: u64, payload_path: String },
    /// Look up where the module at `path` is loaded in the process.
    FindModuleBase { process_id: u32, path: String },
    /// Call the export `name` of the module loaded at `base` on a thread of
    /// the process, and wait for it no longer than `timeout_seconds`.
    CallExport { process: u64, base: u64, name: String, timeout_seconds: u64 },
    /// Resume the main thread of the target.
    Resume { thread: u64 },
}

/// The mathematical value of a [`LaunchAction`].
pub enum LaunchActionView {
    FindProcesses { name: Seq<char> },
    Print { line: Seq<char> },
    Terminate { process_id: u32, process: u64 },
    Spawn { directory: Seq<char>, path: Seq<char>, args: Seq<Seq<char>>, suspended: bool },
    SpawnSteam { app_id: u32, relative_path: Seq<char>, args: Seq<Seq<char>>, suspended: bool },
    LocatePayload { name: Seq<char> },
    Inject { process: u64, payload_path: Seq<char> },
    FindModuleBase { process_id: u32, path: Seq<char> },
    CallExport { process: u64, base: u64, name: Seq<char>, timeout_seconds: u64 },
    Resume { thread: u64 },
}

impl View for LaunchAction {
    type V = LaunchActionView;

    open spec fn view(&self) -> LaunchActionView {
        match self {
            LaunchAction::FindProcesses { name } => LaunchActionView::FindProcesses { name: name@ },
            LaunchAction::Print { line } => LaunchActionView::Print { line: line@ },
            LaunchAction::Terminate { process_id, process } => LaunchActionView::Terminate {
                process_id: *process_id,
                process: *process,
            },
            LaunchAction::Spawn { directory, path, args, suspended } => LaunchActionView::Spawn {
                directory: directory@,
                path: path@,
                args: string_views(args@),
                suspended: *suspended,
            },
            LaunchAction::SpawnSteam { app_id, relative_path, args, suspended } => {
                LaunchActionView::SpawnSteam {
                    app_id: *app_id,
                    relative_path: relative_path@,
                    args: string_views(args@),
                    suspended: *suspended,
                }
            },
            LaunchAction::LocatePayload { name } => LaunchActionView::LocatePayload { name: name@ },
            LaunchAction::Inject { process, payload_path } => LaunchActionView::Inject {
                process: *process,
                payload_path: payload_path@,
            },
            LaunchAction::FindModuleBase { process_id, path } => LaunchActionView::FindModuleBase {
                process_id: *process_id,
                path: path@,
            },
            LaunchAction::CallExport { process, base, name, timeout_seconds } => {
                LaunchActionView::CallExport {
                    process: *process,
                    base: *base,
                    name: name@,
                    timeout_seconds: *timeout_seconds,
                }
            },
            LaunchAction::Resume { thread } => LaunchActionView::Resume { thread: *thread },
        }
    }
}

/// What the host reports of the operation it was asked for.
#[derive(Clone, Debug, PartialEq, Eq)]
pub enum LaunchEvent {
    /// The operation was performed.
    Done,
    /// The operation failed.
    Failed,
    /// The export did not return in time.
    TimedOut,
    /// The running processes of the name asked for.
    Processes { found: Vec<ProcessEntry> },
    /// The process that was started.
    Spawned { handle: ProcessHandle },
    /// The path of the payload beside the launcher.
    Located { path: String },
    /// The path of the module as it was placed in the target.
    Injected { path: String },
    /// Where the module is loaded, if it is.
    ModuleBase { base: Option<u64> },
}

/// The mathematical value of a [`LaunchEvent`].
pub enum LaunchEventView {
    Done,
    Failed,
    TimedOut,
    Processes { found: Seq<ProcessEntry> },
    Spawned { handle: ProcessHandle },
    Located { path: Seq<char> },
    Injected { path: Seq<char> },
    ModuleBase { base: Option<u64> },
}

impl View for LaunchEvent {
    type V = LaunchEventView;

    open spec fn view(&self) -> LaunchEventView {
        match self {
            LaunchEvent::Done => LaunchEventView::Done,
            LaunchEvent::Failed => LaunchEventView::Failed,
            LaunchEvent::TimedOut => LaunchEventView::TimedOut,
            LaunchEvent::Processes { found } => LaunchEventView::Processes { found: found@ },
            LaunchEvent::Spawned { handle } => LaunchEventView::Spawned { handle: *handle },
            LaunchEvent::Located { path } => LaunchEventView::Located { path: path@ },
            LaunchEvent::Injected { path } => LaunchEventView::Injected { path: path@ },
            LaunchEvent::ModuleBase { base } => LaunchEventView::ModuleBase { base: *base },
        }
    }
}

/// Where a launch stands: the operation that the host was asked for.
#[derive(Clone, Copy, Debug, PartialEq, Eq, Structural)]
pub enum LaunchStep {
    /// List the running instances.
    Finding,
    /// Announce the termination of the next running instance.
    AnnouncingTermination,
    /// Terminate it.
    Terminating,
    /// Start the target.
    Spawning,
    /// Announce the process that was started.
    AnnouncingSpawn,
    /// Find the payload.
    Locating,
    /// Announce the injection.
    AnnouncingInjection,
    /// Place the payload in the target.
    Injecting,
    /// Announce the call of the payload.
    AnnouncingRun,
    /// Look up where the payload is loaded.
    FindingBase,
    /// Call the payload.
    Calling,
    /// Let the target run.
    Resuming,
    /// Report the failure.
    AnnouncingFailure,
    /// Terminate the process that was started.
    Cleaning,
    /// The launch is over.
    Finished,
}

/// The mathematical value of a [`Launcher`].
pub struct LauncherView {
    pub spawn: bool,
    pub dont_resume: bool,
    /// The file name by which running instances are found.
    pub file_name: Seq<char>,
    /// The file name of the payload.
    pub payload: Seq<char>,
    pub target: TargetView,
    pub args: Seq<Seq<char>>,
    pub step: LaunchStep,
    /// The running instances that the host listed.
    pub victims: Seq<ProcessEntry>,
    /// How many of them were terminated.
    pub cursor: nat,
    /// The process that was started.
    pub handle: ProcessHandle,
    /// The path of the payload: beside the launcher first, then as it was
    /// placed in the target.
    pub payload_path: Seq<char>,
    /// Where the payload is loaded in the target.
    pub base: u64,
    /// The failure that ends the launch.
    pub failure: Option<LaunchError>,
}

impl LauncherView {
    /// The launch that `args` ask for. `file_name` and `directory` are the
    /// last component of the path given and what stands before it, as far
    /// as the path has them.
    ///
    /// Without a path the target is the distribution platform's copy, under
    /// its usual name. A path that names no directory cannot be started. The
    /// launch begins by listing the running instances if they are to be
    /// replaced, else by starting the target.
    pub open spec fn resolved(
        args: ArgsView,
        file_name: Option<Seq<char>>,
        directory: Option<Seq<char>>,
    ) -> LauncherView {
        let launcher = LauncherView {
            spawn: args.spawn,
            dont_resume: args.dont_resume,
            file_name: match (args.path, file_name) {
                (Some(path), Some(name)) => name,
                _ => DEFAULT_EXECUTABLE@,
            },
            payload: match args.payload {
                Some(payload) => payload,
                None => DEFAULT_PAYLOAD@,
            },
            target: match args.path {
                None => TargetView::Steam,
                Some(path) => match directory {
                    Some(directory) => TargetView::Path { directory, path },
                    None => TargetView::Unresolved,
                },
            },
            args: args.args,
            step: LaunchStep::Finding,
            victims: Seq::empty(),
            cursor: 0,
            handle: ProcessHandle { process: 0, thread: 0, process_id: 0 },
            payload_path: Seq::empty(),
            base: 0,
            failure: None,
        };
        if args.spawn {
            launcher
        } else {
            launcher.start_target()
        }
    }

    /// Validity: a running instance is being terminated only while one is
    /// left; the target is started only once every running instance that
    /// was to be replaced is terminated; the target is never resumed where
    /// that was declined.
    pub open spec fn wf(self) -> bool {
        &&& self.cursor <= self.victims.len()
        &&& (self.step is Finding || self.step is AnnouncingTermination || self.step
            is Terminating) ==> self.spawn
        &&& (self.step is AnnouncingTermination || self.step is Terminating) ==> self.cursor
            < self.victims.len()
        &&& self.started() ==> self.cursor == self.victims.len() && !(self.target is Unresolved)
        &&& self.step is Resuming ==> !self.dont_resume
        &&& (self.step is AnnouncingFailure || self.step is Cleaning) ==> self.failure is Some
    }

    /// The launch has come to starting the target, or further.
    pub open spec fn started(self) -> bool {
        !(self.step is Finding || self.step is AnnouncingTermination || self.step is Terminating
            || self.step is Finished)
    }

    /// The running instances that were terminated so far.
    pub open spec fn terminated(self) -> Seq<ProcessEntry> {
        self.victims.take(self.cursor as int)
    }

    /// The running instance that is terminated next.
    pub open spec fn victim(self) -> ProcessEntry {
        if self.cursor < self.victims.len() {
            self.victims[self.cursor as int]
        } else {
            ProcessEntry { process_id: 0, process: 0 }
        }
    }

    /// The launch ends.
    pub open spec fn finish(self, failure: Option<LaunchError>) -> LauncherView {
        LauncherView { step: LaunchStep::Finished, failure, ..self }
    }

    /// The launch fails after the target was started: the failure is
    /// reported and the target terminated before the launch ends.
    pub open spec fn fail(self, error: LaunchError) -> LauncherView {
        LauncherView { step: LaunchStep::AnnouncingFailure, failure: Some(error), ..self }
    }

    /// The launch goes on to starting the target.
    pub open spec fn start_target(self) -> LauncherView {
        if self.target is Unresolved {
            self.finish(Some(LaunchError::SpawnError))
        } else {
            LauncherView { step: LaunchStep::Spawning, ..self }
        }
    }

    /// The launch goes on to the next running instance, or to starting the
    /// target when none is left.
    pub open spec fn next_victim(self) -> LauncherView {
        if self.cursor < self.victims.len() {
            LauncherView { step: LaunchStep::AnnouncingTermination, ..self }
        } else {
            self.start_target()
        }
    }

    /// The operation that the host is asked to perform; `None` when the
    /// launch is over.
    pub open spec fn pending(self) -> Option<LaunchActionView> {
        match self.step {
            LaunchStep::Finding => Some(LaunchActionView::FindProcesses { name: self.file_name }),
            LaunchStep::AnnouncingTermination => Some(
                LaunchActionView::Print { line: terminating_line(self.victim().process_id) },
            ),
            LaunchStep::Terminating => Some(
                LaunchActionView::Terminate {
                    process_id: self.victim().process_id,
                    process: self.victim().process,
                },
            ),
            LaunchStep::Spawning => Some(
                match self.target {
                    TargetView::Path { directory, path } => LaunchActionView::Spawn {
                        directory,
                        path,
                        args: self.args,
                        suspended: true,
                    },
                    _ => LaunchActionView::SpawnSteam {
                        app_id: STEAM_APP_ID,
                        relative_path: DEFAULT_EXECUTABLE@,
                        args: self.args,
                        suspended: true,
                    },
                },
            ),
            LaunchStep::AnnouncingSpawn => Some(
                LaunchActionView::Print { line: spawned_line(self.handle.process_id) },
            ),
            LaunchStep::Locating => Some(LaunchActionView::LocatePayload { name: self.payload }),
            LaunchStep::AnnouncingInjection => Some(
                LaunchActionView::Print { line: injecting_line(self.handle.process_id) },
            ),
            LaunchStep::Injecting => Some(
                LaunchActionView::Inject {
                    process: self.handle.process,
                    payload_path: self.payload_path,
                },
            ),
            LaunchStep::AnnouncingRun => Some(LaunchActionView::Print { line: running_line() }),
            LaunchStep::FindingBase => Some(
                LaunchActionView::FindModuleBase {
                    process_id: self.handle.process_id,
                    path: self.payload_path,
                },
            ),
            LaunchStep::Calling => Some(
                LaunchActionView::CallExport {
                    process: self.handle.process,
                    base: self.base,
                    name: REMOTE_ENTRY@,
                    timeout_seconds: REMOTE_TIMEOUT_SECONDS,
                },
            ),
            LaunchStep::Resuming => Some(LaunchActionView::Resume { thread: self.handle.thread }),
            LaunchStep::AnnouncingFailure => Some(
                LaunchActionView::Print {
                    line: failure_line(
                        match self.failure {
                            Some(error) => error,
                            None => LaunchError::InjectionError,
                        },
                    ),
                },
            ),
            LaunchStep::Cleaning => Some(
                LaunchActionView::Terminate {
                    process_id: self.handle.process_id,
                    process: self.handle.process,
                },
            ),
            LaunchStep::Finished => None,
        }
    }

    /// How the launch ended, once it is over.
    pub open spec fn outcome(self) -> Option<Result<(), LaunchError>> {
        if self.step is Finished {
            match self.failure {
                Some(error) => Some(Err(error)),
                None => Some(Ok(())),
            }
        } else {
            None
        }
    }

    /// The launch after the host reported `event`.
    ///
    /// Each operation goes on only with the answer that it asks for; any
    /// other answer is its failure. A failure before the target was started
    /// ends the launch. A failure after that is printed, the target is
    /// terminated, and then the launch ends with that failure. The target
    /// is resumed after the payload returned, unless that was declined.
    pub open spec fn advance(self, event: LaunchEventView) -> LauncherView {
        match self.step {
            LaunchStep::Finding => match event {
                LaunchEventView::Processes { found } => LauncherView {
                    victims: found,
                    cursor: 0,
                    ..self
                }.next_victim(),
                _ => self.finish(Some(LaunchError::Enumeration)),
            },
            LaunchStep::AnnouncingTermination => LauncherView {
                step: LaunchStep::Terminating,
                ..self
            },
            LaunchStep::Terminating => if event is Done && self.cursor < self.victims.len() {
                LauncherView { cursor: self.cursor + 1, ..self }.next_victim()
            } else {
                self.finish(Some(LaunchError::Termination))
            },
            LaunchStep::Spawning => match event {
                LaunchEventView::Spawned { handle } => LauncherView {
                    step: LaunchStep::AnnouncingSpawn,
                    handle,
                    ..self
                },
                _ => self.finish(Some(LaunchError::SpawnError)),
            },
            LaunchStep::AnnouncingSpawn => LauncherView { step: LaunchStep::Locating, ..self },
            LaunchStep::Locating => match event {
                LaunchEventView::Located { path } => LauncherView {
                    step: LaunchStep::AnnouncingInjection,
                    payload_path: path,
                    ..self
                },
                _ => self.fail(LaunchError::PayloadLocation),
            },
            LaunchStep::AnnouncingInjection => LauncherView {
                step: LaunchStep::Injecting,
                ..self
            },
            LaunchStep::Injecting => match event {
                LaunchEventView::Injected { path } => LauncherView {
                    step: LaunchStep::AnnouncingRun,
                    payload_path: path,
                    ..self
                },
                _ => self.fail(LaunchError::InjectionError),
            },
            LaunchStep::AnnouncingRun => LauncherView { step: LaunchStep::FindingBase, ..self },
            LaunchStep::FindingBase => match event {
                LaunchEventView::ModuleBase { base: Some(base) } => LauncherView {
                    step: LaunchStep::Calling,
                    base,
                    ..self
                },
                LaunchEventView::ModuleBase { base: None } => self.fail(
                    LaunchError::ModuleBaseNull,
                ),
                _ => self.fail(LaunchError::ModuleBase),
            },
            LaunchStep::Calling => match event {
                LaunchEventView::Done => if self.dont_resume {
                    self.finish(None)
                } else {
                    LauncherView { step: LaunchStep::Resuming, ..self }
                },
                LaunchEventView::TimedOut => self.fail(LaunchError::InvocationTimeout),
                _ => self.fail(LaunchError::Invocation),
            },
            LaunchStep::Resuming => self.finish(None),
            LaunchStep::AnnouncingFailure => LauncherView { step: LaunchStep::Cleaning, ..self },
            LaunchStep::Cleaning => LauncherView { step: LaunchStep::Finished, ..self },
            LaunchStep::Finished => self,
        }
    }

    /// The launch after all of `events` were reported, in their order.
    pub open spec fn advance_all(self, events: Seq<LaunchEventView>) -> LauncherView
        decreases events.len(),
    {
        if events.len() == 0 {
            self
        } else {
            self.advance_all(events.drop_last()).advance(events.last())
        }
    }
}

/// Every launch starts valid.
pub proof fn lemma_resolved_wf(
    args: ArgsView,
    file_name: Option<Seq<char>>,
    directory: Option<Seq<char>>,
)
    ensures
        LauncherView::resolved(args, file_name, directory).wf(),
{
}

/// Every report of the host keeps the launch valid.
pub proof fn lemma_launch_advance_wf(launcher: LauncherView, event: LaunchEventView)
    requires
        launcher.wf(),
    ensures
        launcher.advance(event).wf(),
        launcher.advance(event).spawn == launcher.spawn,
        launcher.advance(event).dont_resume == launcher.dont_resume,
{
}

/// What the host was asked for before it gave the report at `position` of
/// `events`.
pub open spec fn asked(start: LauncherView, events: Seq<LaunchEventView>, position: int) -> Option<
    LaunchActionView,
> {
    start.advance_all(events.take(position)).pending()
}

/// The request to terminate `victim`.
pub open spec fn termination_of(victim: ProcessEntry) -> LaunchActionView {
    LaunchActionView::Terminate { process_id: victim.process_id, process: victim.process }
}

/// The first `count` of `victims` were terminated, one after the other: for
/// each the host was asked to terminate it, and reported that it did.
pub open spec fn terminated_in_order(
    start: LauncherView,
    events: Seq<LaunchEventView>,
    victims: Seq<ProcessEntry>,
    count: int,
) -> bool {
    forall|k: int|
        0 <= k < count ==> {
            &&& 2 * k + 2 < events.len()
            &&& asked(start, events, 2 * k + 2) == Some(termination_of(#[trigger] victims[k]))
            &&& events[2 * k + 2] is Done
        }
}

/// The launch began by asking for the running instances under the file name
/// of the target, `victims` is what the host listed, and the first `count`
/// of them were terminated.
pub open spec fn replaced(
    start: LauncherView,
    events: Seq<LaunchEventView>,
    victims: Seq<ProcessEntry>,
    count: int,
) -> bool {
    &&& events.len() >= 1
    &&& asked(start, events, 0) == Some(LaunchActionView::FindProcesses { name: start.file_name })
    &&& events[0] == (LaunchEventView::Processes { found: victims })
    &&& terminated_in_order(start, events, victims, count)
}

proof fn lemma_asked_before(
    start: LauncherView,
    events: Seq<LaunchEventView>,
    victims: Seq<ProcessEntry>,
    count: int,
)
    requires
        events.len() > 0,
        terminated_in_order(start, events.drop_last(), victims, count),
    ensures
        terminated_in_order(start, events, victims, count),
        asked(start, events, events.len() - 1) == start.advance_all(events.drop_last()).pending(),
        events.len() > 1 ==> asked(start, events, 0) == asked(start, events.drop_last(), 0),
{
    let earlier = events.drop_last();
    assert(events.take(events.len() - 1) =~= earlier);
    assert(events.take(0) =~= earlier.take(0));
    assert forall|k: int| 0 <= k < count implies {
        &&& 2 * k + 2 < events.len()
        &&& asked(start, events, 2 * k + 2) == Some(termination_of(#[trigger] victims[k]))
        &&& events[2 * k + 2] is Done
    } by {
        assert(asked(start, earlier, 2 * k + 2) == Some(termination_of(victims[k])));
        assert(events.take(2 * k + 2) =~= earlier.take(2 * k + 2));
    }
}

/// How far a launch that replaces the running instances has come with the
/// reports it got: two reports for each instance that was terminated, after
/// the one that listed them.
pub open spec fn replacing(start: LauncherView, events: Seq<LaunchEventView>) -> bool {
    let launcher = start.advance_all(events);
    match launcher.step {
        LaunchStep::Finding => events.len() == 0,
        LaunchStep::AnnouncingTermination => events.len() == 1 + 2 * launcher.cursor && replaced(
            start,
            events,
            launcher.victims,
            launcher.cursor as int,
        ),
        LaunchStep::Terminating => events.len() == 2 + 2 * launcher.cursor && replaced(
            start,
            events,
            launcher.victims,
            launcher.cursor as int,
        ),
        LaunchStep::Finished => true,
        _ => replaced(start, events, launcher.victims, launcher.victims.len() as int),
    }
}

/// Whatever the host reports, a launch that is to replace the running
/// instances starts the target only after it asked for the running
/// instances under the target's file name and, for each process that the
/// host listed, asked the host to terminate it and was told that it did.
pub proof fn lemma_terminates_before_spawn(
    args: ArgsView,
    file_name: Option<Seq<char>>,
    directory: Option<Seq<char>>,
    events: Seq<LaunchEventView>,
)
    ensures
        ({
            let start = LauncherView::resolved(args, file_name, directory);
            let launcher = start.advance_all(events);
            &&& launcher.wf()
            &&& launcher.spawn == args.spawn
            &&& launcher.dont_resume == args.dont_resume
            &&& launcher.file_name == start.file_name
            &&& args.spawn ==> replacing(start, events)
            &&& args.spawn && launcher.started() ==> replaced(
                start,
                events,
                launcher.victims,
                launcher.victims.len() as int,
            )
        }),
    decreases events.len(),
{
    let start = LauncherView::resolved(args, file_name, directory);
    lemma_resolved_wf(args, file_name, directory);
    if events.len() > 0 {
        let earlier = events.drop_last();
        let before = start.advance_all(earlier);
        let launcher = start.advance_all(events);
        lemma_terminates_before_spawn(args, file_name, directory, earlier);
        lemma_launch_advance_wf(before, events.last());
        if args.spawn && !(launcher.step is Finished) {
            assert(events.take(0) =~= Seq::<LaunchEventView>::empty());
            if before.step is Finding {
                assert(terminated_in_order(start, events, launcher.victims, 0));
            } else {
                let count = before.cursor as int;
                lemma_asked_before(start, events, before.victims, count);
                if before.step is Terminating {
                    assert(launcher.cursor == count + 1);
                    assert(asked(start, events, 2 * count + 2) == Some(
                        termination_of(before.victims[count]),
                    ));
                    assert(terminated_in_order(start, events, before.victims, count + 1));
                }
            }
        }
    }
}

/// A launch that fails after the target was started ends only once the host
/// was asked to terminate the process it started: no process is left behind
/// half set up.
pub proof fn lemma_failure_cleans_up(launcher: LauncherView, event: LaunchEventView)
    requires
        launcher.wf(),
        launcher.started(),
        !(launcher.step is Spawning),
        launcher.advance(event).outcome() matches Some(Err(_)),
    ensures
        launcher.step is Cleaning,
        launcher.pending() == Some(
            LaunchActionView::Terminate {
                process_id: launcher.handle.process_id,
                process: launcher.handle.process,
            },
        ),
{
}

/// The target is resumed only after the payload was called and returned,
/// which in turn happens only after the payload was placed in the target
/// and found there.
pub proof fn lemma_resume_follows_call(launcher: LauncherView, event: LaunchEventView)
    requires
        launcher.wf(),
    ensures
        !(launcher.step is Resuming) && launcher.advance(event).step is Resuming
            ==> launcher.step is Calling && event is Done && !launcher.dont_resume,
        !(launcher.step is Calling) && launcher.advance(event).step is Calling
            ==> launcher.step is FindingBase && event matches LaunchEventView::ModuleBase {
            base: Some(_),
        },
        !(launcher.step is AnnouncingRun) && launcher.advance(event).step is AnnouncingRun
            ==> launcher.step is Injecting && event is Injected,
{
}

/// Whatever the host reports, the launcher never asks to resume the target
/// where that was declined.
pub proof fn lemma_stays_suspended(
    args: ArgsView,
    file_name: Option<Seq<char>>,
    directory: Option<Seq<char>>,
    events: Seq<LaunchEventView>,
)
    requires
        args.dont_resume,
    ensures
        !(LauncherView::resolved(args, file_name, directory).advance_all(events).pending()
            matches Some(LaunchActionView::Resume { .. })),
{
    lemma_terminates_before_spawn(args, file_name, directory, events);
}

/// The view of a text that may be missing.
pub open spec fn text_view(text: Option<String>) -> Option<Seq<char>> {
    match text {
        Some(text) => Some(text@),
        None => None,
    }
}

/// The last component of `path`, by [`std::path::Path::file_name`]: `None`
/// where the path has none. What counts as a separator depends on the
/// platform, so nothing is claimed of the result.
#[verifier::external_body]
fn path_file_name(path: &str) -> (name: Option<String>) {
    match std::path::Path::new(path).file_name() {
        Some(name) => Some(name.to_string_lossy().into_owned()),
        None => None,
    }
}

/// `path` without its last component, by [`std::path::Path::parent`]:
/// `None` where the path ends in a root or is empty. What counts as a
/// separator depends on the platform, so nothing is claimed of the result.
#[verifier::external_body]
fn path_parent(path: &str) -> (directory: Option<String>) {
    match std::path::Path::new(path).parent() {
        Some(directory) => Some(directory.to_string_lossy().into_owned()),
        None => None,
    }
}

/// A launch: what was asked for, how far it has come, and what the host
/// reported on the way.
pub struct Launcher {
    spawn: bool,
    dont_resume: bool,
    file_name: String,
    payload: String,
    target: Target,
    args: Vec<String>,
    step: LaunchStep,
    victims: Vec<ProcessEntry>,
    cursor: usize,
    handle: ProcessHandle,
    payload_path: String,
    base: u64,
    failure: Option<LaunchError>,
}

impl View for Launcher {
    type V = LauncherView;

    closed spec fn view(&self) -> LauncherView {
        LauncherView {
            spawn: self.spawn,
            dont_resume: self.dont_resume,
            file_name: self.file_name@,
            payload: self.payload@,
            target: self.target@,
            args: string_views(self.args@),
            step: self.step,
            victims: self.victims@,
            cursor: self.cursor as nat,
            handle: self.handle,
            payload_path: self.payload_path@,
            base: self.base,
            failure: self.failure,
        }
    }
}

impl Launcher {
    /// The launch that `args` ask for. The path given, if any, is taken
    /// apart as the platform does it.
    pub fn new(args: Args) -> (launcher: Launcher)
        ensures
            exists|file_name: Option<Seq<char>>, directory: Option<Seq<char>>|
                launcher@ == LauncherView::resolved(args@, file_name, directory),
            args.path is None ==> launcher@ == LauncherView::resolved(args@, None, None),
            launcher@.wf(),
    {
        let (file_name, directory) = match &args.path {
            Some(path) => (path_file_name(path.as_str()), path_parent(path.as_str())),
            None => (None, None),
        };
        Launcher::resolved(args, file_name, directory)
    }

    /// The launch that `args` ask for, where `file_name` is the last
    /// component of the path given and `directory` what stands before it.
    pub fn resolved(args: Args, file_name: Option<String>, directory: Option<String>) -> (launcher:
        Launcher)
        ensures
            launcher@ == LauncherView::resolved(args@, text_view(file_name), text_view(directory)),
            launcher@.wf(),
    {
        let Args { spawn, path, payload, dont_resume, args: passed } = args;
        let name = match (&path, file_name) {
            (Some(_), Some(name)) => name,
            _ => String::from_str(DEFAULT_EXECUTABLE),
        };
        let target = match path {
            None => Target::Steam,
            Some(path) => match directory {
                Some(directory) => Target::Path { directory, path },
                None => Target::Unresolved,
            },
        };
        let payload = match payload {
            Some(payload) => payload,
            None => String::from_str(DEFAULT_PAYLOAD),
        };
        let mut launcher = Launcher {
            spawn,
            dont_resume,
            file_name: name,
            payload,
            target,
            args: passed,
            step: LaunchStep::Finding,
            victims: Vec::new(),
            cursor: 0,
            handle: ProcessHandle { process: 0, thread: 0, process_id: 0 },
            payload_path: String::new(),
            base: 0,
            failure: None,
        };
        assert(launcher@.victims =~= Seq::empty());
        if !spawn {
            launcher.start_target();
        }
        launcher
    }

    fn finish(&mut self, failure: Option<LaunchError>)
        ensures
            final(self)@ == old(self)@.finish(failure),
    {
        self.step = LaunchStep::Finished;
        self.failure = failure;
    }

    fn fail(&mut self, error: LaunchError)
        ensures
            final(self)@ == old(self)@.fail(error),
    {
        self.step = LaunchStep::AnnouncingFailure;
        self.failure = Some(error);
    }

    fn start_target(&mut self)
        ensures
            final(self)@ == old(self)@.start_target(),
    {
        let unresolved = match &self.target {
            Target::Unresolved => true,
            _ => false,
        };
        if unresolved {
            self.finish(Some(LaunchError::SpawnError));
        } else {
            self.step = LaunchStep::Spawning;
        }
    }

    fn next_victim(&mut self)
        ensures
            final(self)@ == old(self)@.next_victim(),
    {
        if self.cursor < self.victims.len() {
            self.step = LaunchStep::AnnouncingTermination;
        } else {
            self.start_target();
        }
    }

    fn victim(&self) -> (entry: ProcessEntry)
        ensures
            entry == self@.victim(),
    {
        if self.cursor < self.victims.len() {
            self.victims[self.cursor]
        } else {
            ProcessEntry { process_id: 0, process: 0 }
        }
    }

    /// Where the launch stands.
    pub fn step(&self) -> (step: LaunchStep)
        ensures
            step == self@.step,
    {
        self.step
    }

    /// The process that was started; all zero before that.
    pub fn handle(&self) -> (handle: ProcessHandle)
        ensures
            handle == self@.handle,
    {
        self.handle
    }

    /// How many of the running instances were terminated.
    pub fn terminated(&self) -> (count: usize)
        ensures
            count == self@.cursor,
    {
        self.cursor
    }

    /// How the launch ended; `None` while it is running.
    pub fn outcome(&self) -> (outcome: Option<Result<(), LaunchError>>)
        ensures
            outcome == self@.outcome(),
    {
        match self.step {
            LaunchStep::Finished => match self.failure {
                Some(error) => Some(Err(error)),
                None => Some(Ok(())),
            },
            _ => None,
        }
    }

    /// The operation that the host has to perform now; `None` when the
    /// launch is over.
    pub fn pending_action(&self) -> (action: Option<LaunchAction>)
        ensures
            action.is_some() == self@.pending().is_some(),
            action.is_some() ==> action.unwrap()@ == self@.pending().unwrap(),
    {
        match self.step {
            LaunchStep::Finding => Some(
                LaunchAction::FindProcesses { name: self.file_name.clone() },
            ),
            LaunchStep::AnnouncingTermination => Some(
                LaunchAction::Print {
                    line: numbered_line("Terminating process with PID ", self.victim().process_id),
                },
            ),
            LaunchStep::Terminating => Some(
                LaunchAction::Terminate {
                    process_id: self.victim().process_id,
                    process: self.victim().process,
                },
            ),
            LaunchStep::Spawning => {
                let args = copy_strings(&self.args);
                Some(
                    match &self.target {
                        Target::Path { directory, path } => LaunchAction::Spawn {
                            directory: directory.clone(),
                            path: path.clone(),
                            args,
                            suspended: true,
                        },
                        _ => LaunchAction::SpawnSteam {
                            app_id: STEAM_APP_ID,
                            relative_path: String::from_str(DEFAULT_EXECUTABLE),
                            args,
                            suspended: true,
                        },
                    },
                )
            },
            LaunchStep::AnnouncingSpawn => Some(
                LaunchAction::Print {
                    line: numbered_line("Spawned process with PID ", self.handle.process_id),
                },
            ),
            LaunchStep::Locating => Some(
                LaunchAction::LocatePayload { name: self.payload.clone() },
            ),
            LaunchStep::AnnouncingInjection => Some(
                LaunchAction::Print {
                    line: numbered_line("Injecting into process with PID ", self.handle.process_id),
                },
            ),
            LaunchStep::Injecting => Some(
                LaunchAction::Inject {
                    process: self.handle.process,
                    payload_path: self.payload_path.clone(),
                },
            ),
            LaunchStep::AnnouncingRun => Some(
                LaunchAction::Print { line: String::from_str("Running payload") },
            ),
            LaunchStep::FindingBase => Some(
                LaunchAction::FindModuleBase {
                    process_id: self.handle.process_id,
                    path: self.payload_path.clone(),
                },
            ),
            LaunchStep::Calling => Some(
                LaunchAction::CallExport {
                    process: self.handle.process,
                    base: self.base,
                    name: String::from_str(REMOTE_ENTRY),
                    timeout_seconds: REMOTE_TIMEOUT_SECONDS,
                },
            ),
            LaunchStep::Resuming => Some(LaunchAction::Resume { thread: self.handle.thread }),
            LaunchStep::AnnouncingFailure => {
                let error = match self.failure {
                    Some(error) => error,
                    None => LaunchError::InjectionError,
                };
                let mut line = String::from_str("Failed to inject: ");
                line.append(describe(error));
                Some(LaunchAction::Print { line })
            },
            LaunchStep::Cleaning => Some(
                LaunchAction::Terminate {
                    process_id: self.handle.process_id,
                    process: self.handle.process,
                },
            ),
            LaunchStep::Finished => None,
        }
    }

    /// Takes the host's report of the pending operation.
    pub fn advance(&mut self, event: LaunchEvent)
        ensures
            final(self)@ == old(self)@.advance(event@),
            old(self)@.wf() ==> final(self)@.wf(),
    {
        proof {
            if old(self)@.wf() {
                lemma_launch_advance_wf(old(self)@, event@);
            }
        }
        match self.step {
            LaunchStep::Finding => match event {
                LaunchEvent::Processes { found } => {
                    self.victims = found;
                    self.cursor = 0;
                    self.next_victim();
                },
                _ => {
                    self.finish(Some(LaunchError::Enumeration));
                },
            },
            LaunchStep::AnnouncingTermination => {
                self.step = LaunchStep::Terminating;
            },
            LaunchStep::Terminating => {
                let done = match event {
                    LaunchEvent::Done => true,
                    _ => false,
                };
                if done && self.cursor < self.victims.len() {
                    self.cursor = self.cursor + 1;
                    self.next_victim();
                } else {
                    self.finish(Some(LaunchError::Termination));
                }
            },
            LaunchStep::Spawning => match event {
                LaunchEvent::Spawned { handle } => {
                    self.handle = handle;
                    self.step = LaunchStep::AnnouncingSpawn;
                },
                _ => {
                    self.finish(Some(LaunchError::SpawnError));
                },
            },
            LaunchStep::AnnouncingSpawn => {
                self.step = LaunchStep::Locating;
            },
            LaunchStep::Locating => match event {
                LaunchEvent::Located { path } => {
                    self.payload_path = path;
                    self.step = LaunchStep::AnnouncingInjection;
                },
                _ => {
                    self.fail(LaunchError::PayloadLocation);
                },
            },
            LaunchStep::AnnouncingInjection => {
                self.step = LaunchStep::Injecting;
            },
            LaunchStep::Injecting => match event {
                LaunchEvent::Injected { path } => {
                    self.payload_path = path;
                    self.step = LaunchStep::AnnouncingRun;
                },
                _ => {
                    self.fail(LaunchError::InjectionError);
                },
            },
            LaunchStep::AnnouncingRun => {
                self.step = LaunchStep::FindingBase;
            },
            LaunchStep::FindingBase => match event {
                LaunchEvent::ModuleBase { base: Some(base) } => {
                    self.base = base;
                    self.step = LaunchStep::Calling;
                },
                LaunchEvent::ModuleBase { base: None } => {
                    self.fail(LaunchError::ModuleBaseNull);
                },
                _ => {
                    self.fail(LaunchError::ModuleBase);
                },
            },
            LaunchStep::Calling => match event {
                LaunchEvent::Done => {
                    if self.dont_resume {
                        self.finish(None);
                    } else {
                        self.step = LaunchStep::Resuming;
                    }
                },
                LaunchEvent::TimedOut => {
                    self.fail(LaunchError::InvocationTimeout);
                },
                _ => {
                    self.fail(LaunchError::Invocation);
                },
            },
            LaunchStep::Resuming => {
                self.finish(None);
            },
            LaunchStep::AnnouncingFailure => {
                self.step = LaunchStep::Cleaning;
            },
            LaunchStep::Cleaning => {
                self.step = LaunchStep::Finished;
            },
            LaunchStep::Finished => {},
        }
    }
}

} // verus!

//! What an operation asks its surroundings to do, and what they answer.
//!
//! An operation is a function from its state and the last answer to its next state and a list
//! of effects. The effects are carried out in order; the answer to the last one of the list is
//! the next call's answer. The effects that name an operation of this library begin it; see
//! [`calls`](crate::calls).

use vstd::prelude::*;

use crate::text::texts;

verus! {

/// How the window system shows the application.
#[derive(Clone, Copy, Debug, PartialEq, Eq, Structural)]
pub enum Activation {
    /// An ordinary application with a place in the task switcher.
    Regular,
    /// An icon in the menu bar, nothing else.
    Accessory,
}

/// Where the scale factor of a physical size comes from.
#[derive(Clone, Copy, Debug, PartialEq, Eq, Structural)]
pub enum Scale {
    /// The window is asked for it.
    Window,
    /// The event brought it.
    Event,
}

/// One thing to be done, over texts `T`, paths `P` and lists of texts `L`.
#[derive(Debug, PartialEq, Eq)]
pub enum EffectOf<T, P, L> {
    /// Append a line to the launcher's log.
    Log(T),
    /// Print a line on standard error.
    Warn(T),
    /// Run a program to its end. Answer: `Command`.
    Run { program: T, args: L },
    /// Start a program and leave it running.
    Spawn { program: T, args: L },
    /// Start a program on a file and leave it running.
    SpawnOn { program: T, path: P },
    /// Run `launchctl_logged` with these arguments. Answer: `Command`.
    Launchctl(L),
    /// Run `systemctl_logged` with these arguments. Answer: `Command`.
    Systemctl(L),
    /// Is there a regular file? Answer: `Flag`.
    IsFile(P),
    /// Is there anything? Answer: `Flag`.
    Exists(P),
    /// The names in a directory. Answer: `Names`.
    List(P),
    /// The contents of a text file. Answer: `Text`.
    ReadText(P),
    /// Make a directory and those above it. Answer: `Done`.
    CreateDirs(P),
    /// Replace the contents of a file. Answer: `Done`.
    WriteText { path: P, text: T },
    /// Run `which_from_login_shell`. Answer: `Found`.
    WhichFromLoginShell(T),
    /// Run `which_from_common_paths`. Answer: `Found`.
    WhichFromCommonPaths(T),
    /// Run `which`. Answer: `Found`.
    Which(T),
    /// Run `node_for_dsh`. Answer: `Found`.
    NodeForDsh(P),
    /// Run `login_shell_path`. Answer: `SearchPath`.
    LoginShellPath,
    /// Run `dsh_program`. Answer: `Program`.
    DshProgram,
    /// Run `service_env`. Answer: `Env`.
    ServiceEnv,
    /// Run `plist_xml`. Answer: `Text`.
    PlistXml { run_at_load: bool, keep_alive: bool },
    /// Run `write_plist`. Answer: `Done`.
    WritePlist { run_at_load: bool },
    /// Run `write_plist_keepalive_off`. Answer: `Done`.
    WritePlistKeepaliveOff,
    /// Run `unit_content`. Answer: `Text`.
    UnitContent { enabled: bool },
    /// Run `write_unit`. Answer: `Done`.
    WriteUnit { enabled: bool },
    /// Run the platform's `ensure_definition`. Answer: `Done`.
    EnsureDefinition,
    /// Run the platform's `read_autostart`. Answer: `Flag`.
    ReadAutostart,
    /// Run the platform's `service_is_running`. Answer: `Flag`.
    ServiceIsRunning,
    /// Remember whether the service starts at login.
    StoreAutostart(bool),
    /// Run the platform's `service_start`.
    ServiceStart,
    /// Run the platform's `service_stop`.
    ServiceStop,
    /// Run the platform's `service_restart`.
    ServiceRestart,
    /// Run the platform's `set_autostart`.
    SetAutostart(bool),
    /// Does the local port accept a connection? Answer: `Flag`.
    ProbePort(u16),
    /// Wait this many milliseconds.
    Sleep(u64),
    /// Show a message on the status line for a while.
    ShowActionMsg(T),
    /// Show a text at the tray icon, if there is one.
    SetTooltip(T),
    /// Run `set_menu_text`.
    SetMenuText { id: T, text: T },
    /// Run `open_dsh_ui`.
    OpenDshUi,
    /// Have the main thread run `open_dsh_ui`. Answer: `Done`.
    OpenDshUiOnMainThread,
    /// Change how the application is shown.
    SetActivation(Activation),
    /// Is there a window of this label? Answer: `Flag`.
    FindWindow(T),
    /// Make a window of the remembered size. Answer: `Done`.
    CreateWindow { label: T, url: T, title: T },
    /// Hand the window's events to `on_window_event`, with this time for `persist_after`.
    WatchWindow { persist_after: u64 },
    /// Show the window.
    ShowWindow,
    /// Give the window the focus.
    FocusWindow,
    /// Hide the window.
    HideWindow,
    /// Keep the window from closing.
    PreventClose,
    /// Remember a size given in physical pixels.
    SaveWindowSize { width: u32, height: u32, scale: Scale },
    /// Remember the window's present size.
    SaveCurrentWindowSize,
    /// Make the menu of `build_menu`. Answer: `Done`.
    BuildMenu,
    /// Keep the menu for later changes.
    KeepMenu,
    /// Make the tray icon. Answer: `Done`.
    BuildTray { id: T, tooltip: T },
    /// Start `status_poller` in the background.
    StartStatusPoller,
    /// Start `startup_ui` in the background.
    StartStartupUi,
    /// End the launcher with this code.
    Exit(i32),
}

/// An effect to be carried out.
pub type Effect = EffectOf<String, Vec<u8>, Vec<String>>;

/// An effect as the contracts speak of it.
pub type EffectView = EffectOf<Seq<char>, Seq<u8>, Seq<Seq<char>>>;

impl EffectOf<String, Vec<u8>, Vec<String>> {
    pub open spec fn view(&self) -> EffectView {
        match *self {
            EffectOf::Log(t) => EffectOf::Log(t@),
            EffectOf::Warn(t) => EffectOf::Warn(t@),
            EffectOf::Run { program, args } => EffectOf::Run {
                program: program@,
                args: texts(args@),
            },
            EffectOf::Spawn { program, args } => EffectOf::Spawn {
                program: program@,
                args: texts(args@),
            },
            EffectOf::SpawnOn { program, path } => EffectOf::SpawnOn {
                program: program@,
                path: path@,
            },
            EffectOf::Launchctl(args) => EffectOf::Launchctl(texts(args@)),
            EffectOf::Systemctl(args) => EffectOf::Systemctl(texts(args@)),
            EffectOf::IsFile(p) => EffectOf::IsFile(p@),
            EffectOf::Exists(p) => EffectOf::Exists(p@),
            EffectOf::List(p) => EffectOf::List(p@),
            EffectOf::ReadText(p) => EffectOf::ReadText(p@),
            EffectOf::CreateDirs(p) => EffectOf::CreateDirs(p@),
            EffectOf::WriteText { path, text } => EffectOf::WriteText { path: path@, text: text@ },
            EffectOf::WhichFromLoginShell(t) => EffectOf::WhichFromLoginShell(t@),
            EffectOf::WhichFromCommonPaths(t) => EffectOf::WhichFromCommonPaths(t@),
            EffectOf::Which(t) => EffectOf::Which(t@),
            EffectOf::NodeForDsh(p) => EffectOf::NodeForDsh(p@),
            EffectOf::LoginShellPath => EffectOf::LoginShellPath,
            EffectOf::DshProgram => EffectOf::DshProgram,
            EffectOf::ServiceEnv => EffectOf::ServiceEnv,
            EffectOf::PlistXml { run_at_load, keep_alive } => EffectOf::PlistXml {
                run_at_load,
                keep_alive,
            },
            EffectOf::WritePlist { run_at_load } => EffectOf::WritePlist { run_at_load },
            EffectOf::WritePlistKeepaliveOff => EffectOf::WritePlistKeepaliveOff,
            EffectOf::UnitContent { enabled } => EffectOf::UnitContent { enabled },
            EffectOf::WriteUnit { enabled } => EffectOf::WriteUnit { enabled },
            EffectOf::EnsureDefinition => EffectOf::EnsureDefinition,
            EffectOf::ReadAutostart => EffectOf::ReadAutostart,
            EffectOf::ServiceIsRunning => EffectOf::ServiceIsRunning,
            EffectOf::StoreAutostart(b) => EffectOf::StoreAutostart(b),
            EffectOf::ServiceStart => EffectOf::ServiceStart,
            EffectOf::ServiceStop => EffectOf::ServiceStop,
            EffectOf::ServiceRestart => EffectOf::ServiceRestart,
            EffectOf::SetAutostart(b) => EffectOf::SetAutostart(b),
            EffectOf::ProbePort(port) => EffectOf::ProbePort(port),
            EffectOf::Sleep(ms) => EffectOf::Sleep(ms),
            EffectOf::ShowActionMsg(t) => EffectOf::ShowActionMsg(t@),
            EffectOf::SetTooltip(t) => EffectOf::SetTooltip(t@),
            EffectOf::SetMenuText { id, text } => EffectOf::SetMenuText { id: id@, text: text@ },
            EffectOf::OpenDshUi => EffectOf::OpenDshUi,
            EffectOf::OpenDshUiOnMainThread => EffectOf::OpenDshUiOnMainThread,
            EffectOf::SetActivation(a) => EffectOf::SetActivation(a),
            EffectOf::FindWindow(t) => EffectOf::FindWindow(t@),
            EffectOf::CreateWindow { label, url, title } => EffectOf::CreateWindow {
                label: label@,
                url: url@,
                title: title@,
            },
            EffectOf::WatchWindow { persist_after } => EffectOf::WatchWindow { persist_after },
            EffectOf::ShowWindow => EffectOf::ShowWindow,
            EffectOf::FocusWindow => EffectOf::FocusWindow,
            EffectOf::HideWindow => EffectOf::HideWindow,
            EffectOf::PreventClose => EffectOf::PreventClose,
            EffectOf::SaveWindowSize { width, height, scale } => EffectOf::SaveWindowSize {
                width,
                height,
                scale,
            },
            EffectOf::SaveCurrentWindowSize => EffectOf::SaveCurrentWindowSize,
            EffectOf::BuildMenu => EffectOf::BuildMenu,
            EffectOf::KeepMenu => EffectOf::KeepMenu,
            EffectOf::BuildTray { id, tooltip } => EffectOf::BuildTray {
                id: id@,
                tooltip: tooltip@,
            },
            EffectOf::StartStatusPoller => EffectOf::StartStatusPoller,
            EffectOf::StartStartupUi => EffectOf::StartStartupUi,
            EffectOf::Exit(code) => EffectOf::Exit(code),
        }
    }
}

/// The views of a list of effects.
pub open spec fn shown(list: Seq<Effect>) -> Seq<EffectView> {
    list.map_values(|e: Effect| e@)
}

/// What a finished command leaves behind, over its output `B`.
#[derive(Debug, PartialEq, Eq)]
pub struct OutputOf<B> {
    /// Whether it ended with success.
    pub success: bool,
    /// Its exit code, where it has one.
    pub code: Option<i32>,
    /// What it wrote to standard output.
    pub stdout: B,
    /// What it wrote to standard error.
    pub stderr: B,
}

/// The output of a command as raw bytes.
pub type Output = OutputOf<Vec<u8>>;

/// The output of a command as the contracts speak of it.
pub type OutputView = OutputOf<Seq<u8>>;

impl OutputOf<Vec<u8>> {
    pub open spec fn view(&self) -> OutputView {
        OutputOf {
            success: self.success,
            code: self.code,
            stdout: self.stdout@,
            stderr: self.stderr@,
        }
    }
}

/// An answer, over texts `T`, bytes `P`, lists of texts `L`, lists of names `N` and lists of
/// variables `E`.
#[derive(Debug, PartialEq, Eq)]
pub enum ReplyOf<T, P, L, N, E> {
    /// There is nothing to say.
    Nothing,
    /// Yes or no.
    Flag(bool),
    /// Success, or why not.
    Done(Result<(), T>),
    /// A text, or why there is none.
    Text(Result<T, T>),
    /// The output of a command, where it could be run.
    Command(Option<OutputOf<P>>),
    /// A path, where one was found.
    Found(Option<P>),
    /// The names in a directory, where it could be read.
    Names(Option<N>),
    /// A search path, where one was found.
    SearchPath(Option<T>),
    /// A command line, or why there is none.
    Program(Result<L, T>),
    /// Environment variables with their values.
    Env(E),
}

/// An answer to an effect.
pub type Reply = ReplyOf<
    String,
    Vec<u8>,
    Vec<String>,
    Vec<Vec<u8>>,
    Vec<(String, String)>,
>;

/// An answer as the contracts speak of it.
pub type ReplyView = ReplyOf<
    Seq<char>,
    Seq<u8>,
    Seq<Seq<char>>,
    Seq<Seq<u8>>,
    Seq<(Seq<char>, Seq<char>)>,
>;

/// The views of a list of names.
pub open spec fn names(list: Seq<Vec<u8>>) -> Seq<Seq<u8>> {
    list.map_values(|n: Vec<u8>| n@)
}

/// The views of a list of variables.
pub open spec fn variables(list: Seq<(String, String)>) -> Seq<(Seq<char>, Seq<char>)> {
    list.map_values(|v: (String, String)| (v.0@, v.1@))
}

impl ReplyOf<String, Vec<u8>, Vec<String>, Vec<Vec<u8>>, Vec<(String, String)>> {
    pub open spec fn view(&self) -> ReplyView {
        match *self {
            ReplyOf::Nothing => ReplyOf::Nothing,
            ReplyOf::Flag(b) => ReplyOf::Flag(b),
            ReplyOf::Done(Ok(u)) => ReplyOf::Done(Ok(u)),
            ReplyOf::Done(Err(e)) => ReplyOf::Done(Err(e@)),
            ReplyOf::Text(Ok(t)) => ReplyOf::Text(Ok(t@)),
            ReplyOf::Text(Err(e)) => ReplyOf::Text(Err(e@)),
            ReplyOf::Command(Some(o)) => ReplyOf::Command(Some(o@)),
            ReplyOf::Command(None) => ReplyOf::Command(None),
            ReplyOf::Found(Some(p)) => ReplyOf::Found(Some(p@)),
            ReplyOf::Found(None) => ReplyOf::Found(None),
            ReplyOf::Names(Some(n)) => ReplyOf::Names(Some(names(n@))),
            ReplyOf::Names(None) => ReplyOf::Names(None),
            ReplyOf::SearchPath(Some(t)) => ReplyOf::SearchPath(Some(t@)),
            ReplyOf::SearchPath(None) => ReplyOf::SearchPath(None),
            ReplyOf::Program(Ok(args)) => ReplyOf::Program(Ok(texts(args@))),
            ReplyOf::Program(Err(e)) => ReplyOf::Program(Err(e@)),
            ReplyOf::Env(vars) => ReplyOf::Env(variables(vars@)),
        }
    }
}

/// Success, as the contracts speak of it, or why not.
pub open spec fn outcome_view(r: Result<(), String>) -> Result<(), Seq<char>> {
    match r {
        Ok(u) => Ok(u),
        Err(e) => Err(e@),
    }
}

/// A text, as the contracts speak of it, or why there is none.
pub open spec fn result_view(r: Result<String, String>) -> Result<Seq<char>, Seq<char>> {
    match r {
        Ok(t) => Ok(t@),
        Err(e) => Err(e@),
    }
}

/// Whether an operation succeeded, by its answer; any other kind of answer counts as a failure.
pub open spec fn outcome(reply: ReplyView) -> Result<(), Seq<char>> {
    match reply {
        ReplyOf::Done(r) => r,
        _ => Err(Seq::empty()),
    }
}

/// The text that an answer brought; any other kind of answer counts as a failure.
pub open spec fn text_reply(reply: ReplyView) -> Result<Seq<char>, Seq<char>> {
    match reply {
        ReplyOf::Text(r) => r,
        _ => Err(Seq::empty()),
    }
}

/// Whether an answer says yes.
pub open spec fn yes(reply: ReplyView) -> bool {
    reply == ReplyView::Flag(true)
}

/// Whether an operation succeeded, by its answer.
pub fn outcome_of(reply: Reply) -> (r: Result<(), String>)
    ensures
        outcome_view(r) == outcome(reply@),
{
    match reply {
        ReplyOf::Done(r) => r,
        _ => Err(String::new()),
    }
}

/// The text that an answer brought.
pub fn text_of_reply(reply: Reply) -> (r: Result<String, String>)
    ensures
        result_view(r) == text_reply(reply@),
{
    match reply {
        ReplyOf::Text(r) => r,
        _ => Err(String::new()),
    }
}

/// Whether an answer says yes.
pub fn is_yes(reply: &Reply) -> (r: bool)
    ensures
        r == yes(reply@),
{
    match reply {
        ReplyOf::Flag(b) => *b,
        _ => false,
    }
}

/// The states of an operation that ends in a yes or no.
#[derive(Clone, Copy, Debug, PartialEq, Eq, Structural)]
pub enum Query {
    /// Nothing has happened yet.
    Start,
    /// A first answer is awaited.
    Waiting,
    /// A second answer is awaited.
    Asking,
    /// The operation has ended.
    Ended(bool),
}

/// The states of an operation that ends without a result.
#[derive(Clone, Copy, Debug, PartialEq, Eq, Structural)]
pub enum Phase {
    /// Nothing has happened yet.
    Start,
    /// The definition is being written.
    Defining,
    /// The service is being looked at.
    Checking,
    /// The operation has ended.
    Ended,
}

} // verus!

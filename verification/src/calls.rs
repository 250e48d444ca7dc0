//! Operations that call each other, as one stack.
//!
//! Many effects name an operation of this library. Here such an effect begins that operation on
//! top of the one that asked for it, and its end answers the one below. What is left for the
//! surroundings are the effects that name none.

use vstd::prelude::*;

use crate::commands::launchctl_logged;
use crate::commands::launchctl_step;
use crate::commands::systemctl_logged;
use crate::commands::systemctl_step;
use crate::commands::LoggedOf;
use crate::definition::RenderOf;
use crate::effect::shown;
use crate::effect::Effect;
use crate::effect::EffectOf;
use crate::effect::EffectView;
use crate::effect::Phase;
use crate::effect::Query;
use crate::effect::Reply;
use crate::effect::ReplyOf;
use crate::effect::ReplyView;
use crate::launcher::run;
use crate::launcher::setup_step;
use crate::launcher::SetupOf;
use crate::linux_service;
use crate::linux_service::LinuxService;
use crate::locations::home_dir;
use crate::locations::home_path;
use crate::locations::Platform;
use crate::macos_service;
use crate::macos_service::MacService;
use crate::programs::dsh_program;
use crate::programs::node_for_dsh;
use crate::programs::node_step;
use crate::programs::place_search_step;
use crate::programs::program_step;
use crate::programs::which;
use crate::programs::which_from_common_paths;
use crate::programs::which_step;
use crate::programs::NodeSearchOf;
use crate::programs::PlaceSearchOf;
use crate::programs::ProgramSearchOf;
use crate::programs::WhichOf;
use crate::search::env_step;
use crate::search::login_shell_path;
use crate::search::path_search_step;
use crate::search::service_env;
use crate::search::shell_search_step;
use crate::search::text_view;
use crate::search::which_from_login_shell;
use crate::search::EnvSearchOf;
use crate::search::PathSearchOf;
use crate::search::ShellSearchOf;
use crate::text::texts;
use crate::tray::handle_menu;
use crate::tray::menu_step;
use crate::tray::Choice;
use crate::window::open_dsh_ui;
use crate::window::open_step;
use crate::window::Opening;
use crate::window::WINDOW_SIZE_SAVE_DELAY;

verus! {

/// What the operations need to know. It may be another one at each step.
#[derive(Debug, PartialEq, Eq)]
pub struct World {
    /// The platform.
    pub platform: Platform,
    /// What the operations under launchd need to know.
    pub mac: MacService,
    /// What the operations under systemd need to know.
    pub linux: LinuxService,
    /// The launcher's own search path.
    pub own: Option<String>,
    /// The file to which the service writes its output.
    pub log_file: Vec<u8>,
    /// The time in nanoseconds since any fixed moment.
    pub now: u64,
}

fn own_path(world: &World) -> (r: Option<String>)
    ensures
        text_view(r) == text_view(world.own),
{
    match &world.own {
        Some(p) => Some(p.clone()),
        None => None,
    }
}

// ---- the operations, by kind ----

/// A search or a command and its state, over texts `T`, paths `P`, lists of texts `L`, lists of
/// names `N` and lists of variables `E`.
#[derive(Debug, PartialEq, Eq)]
pub enum SearchTaskOf<T, P, L, N, E> {
    /// `launchctl_logged`.
    Launchctl(L, LoggedOf<P>),
    /// `systemctl_logged`.
    Systemctl(L, LoggedOf<P>),
    /// `which_from_login_shell`.
    WhichFromLoginShell(T, ShellSearchOf<P>),
    /// `which_from_common_paths`.
    WhichFromCommonPaths(T, PlaceSearchOf<T, P, N>),
    /// `which`.
    Which(T, WhichOf<P>),
    /// `node_for_dsh`.
    NodeForDsh(P, NodeSearchOf<P>),
    /// `login_shell_path`.
    LoginShellPath(PathSearchOf<T>),
    /// `dsh_program`.
    DshProgram(ProgramSearchOf<T, P, L>),
    /// `service_env`.
    ServiceEnv(EnvSearchOf<E>),
}

/// A search or a command and its state.
pub type SearchTask = SearchTaskOf<
    String,
    Vec<u8>,
    Vec<String>,
    Vec<Vec<u8>>,
    Vec<(String, String)>,
>;

/// A search or a command and its state as the contracts speak of it.
pub type SearchTaskView = SearchTaskOf<
    Seq<char>,
    Seq<u8>,
    Seq<Seq<char>>,
    Seq<Seq<u8>>,
    Seq<(Seq<char>, Seq<char>)>,
>;

impl SearchTaskOf<String, Vec<u8>, Vec<String>, Vec<Vec<u8>>, Vec<(String, String)>> {
    pub open spec fn view(&self) -> SearchTaskView {
        match *self {
            SearchTaskOf::Launchctl(args, s) => SearchTaskOf::Launchctl(texts(args@), s@),
            SearchTaskOf::Systemctl(args, s) => SearchTaskOf::Systemctl(texts(args@), s@),
            SearchTaskOf::WhichFromLoginShell(name, s) => SearchTaskOf::WhichFromLoginShell(
                name@,
                s@,
            ),
            SearchTaskOf::WhichFromCommonPaths(name, s) => SearchTaskOf::WhichFromCommonPaths(
                name@,
                s@,
            ),
            SearchTaskOf::Which(name, s) => SearchTaskOf::Which(name@, s@),
            SearchTaskOf::NodeForDsh(dsh, s) => SearchTaskOf::NodeForDsh(dsh@, s@),
            SearchTaskOf::LoginShellPath(s) => SearchTaskOf::LoginShellPath(s@),
            SearchTaskOf::DshProgram(s) => SearchTaskOf::DshProgram(s@),
            SearchTaskOf::ServiceEnv(s) => SearchTaskOf::ServiceEnv(s@),
        }
    }
}

/// One step of a search or a command.
#[verifier::opaque]
pub open spec fn search_step(world: World, task: SearchTaskView, reply: ReplyView) -> (
    SearchTaskView,
    Seq<EffectView>,
) {
    match task {
        SearchTaskOf::Launchctl(args, s) => {
            let (next, effects) = launchctl_step(args, s, reply);
            (SearchTaskOf::Launchctl(args, next), effects)
        },
        SearchTaskOf::Systemctl(args, s) => {
            let (next, effects) = systemctl_step(args, s, reply);
            (SearchTaskOf::Systemctl(args, next), effects)
        },
        SearchTaskOf::WhichFromLoginShell(name, s) => {
            let (next, effects) = shell_search_step(name, s, reply);
            (SearchTaskOf::WhichFromLoginShell(name, next), effects)
        },
        SearchTaskOf::WhichFromCommonPaths(name, s) => {
            let (next, effects) = place_search_step(home_path(world.mac.env), name, s, reply);
            (SearchTaskOf::WhichFromCommonPaths(name, next), effects)
        },
        SearchTaskOf::Which(name, s) => {
            let (next, effects) = which_step(name, s, reply);
            (SearchTaskOf::Which(name, next), effects)
        },
        SearchTaskOf::NodeForDsh(dsh, s) => {
            let (next, effects) = node_step(dsh, s, reply);
            (SearchTaskOf::NodeForDsh(dsh, next), effects)
        },
        SearchTaskOf::LoginShellPath(s) => {
            let (next, effects) = path_search_step(text_view(world.own), s, reply);
            (SearchTaskOf::LoginShellPath(next), effects)
        },
        SearchTaskOf::DshProgram(s) => {
            let (next, effects) = program_step(s, reply);
            (SearchTaskOf::DshProgram(next), effects)
        },
        SearchTaskOf::ServiceEnv(s) => {
            let (next, effects) = env_step(text_view(world.own), s, reply);
            (SearchTaskOf::ServiceEnv(next), effects)
        },
    }
}

/// The answer that a search or a command ends in.
pub open spec fn search_answer(task: SearchTaskView) -> Option<ReplyView> {
    match task {
        SearchTaskOf::Launchctl(_, LoggedOf::Ended(r)) => Some(ReplyOf::Command(r)),
        SearchTaskOf::Systemctl(_, LoggedOf::Ended(r)) => Some(ReplyOf::Command(r)),
        SearchTaskOf::WhichFromLoginShell(_, ShellSearchOf::Ended(r)) => Some(ReplyOf::Found(r)),
        SearchTaskOf::WhichFromCommonPaths(_, PlaceSearchOf::Ended(r)) => Some(ReplyOf::Found(r)),
        SearchTaskOf::Which(_, WhichOf::Ended(r)) => Some(ReplyOf::Found(r)),
        SearchTaskOf::NodeForDsh(_, NodeSearchOf::Ended(r)) => Some(ReplyOf::Found(r)),
        SearchTaskOf::LoginShellPath(PathSearchOf::Ended(r)) => Some(ReplyOf::SearchPath(r)),
        SearchTaskOf::DshProgram(ProgramSearchOf::Ended(r)) => Some(ReplyOf::Program(r)),
        SearchTaskOf::ServiceEnv(EnvSearchOf::Ended(r)) => Some(ReplyOf::Env(r)),
        _ => None,
    }
}

fn step_search(world: &World, task: SearchTask, reply: Reply) -> (r: (SearchTask, Vec<Effect>))
    ensures
        (r.0@, shown(r.1@)) == search_step(*world, task@, reply@),
{
    reveal(search_step);
    match task {
        SearchTaskOf::Launchctl(args, s) => {
            let (next, effects) = launchctl_logged(&args, s, reply);
            (SearchTaskOf::Launchctl(args, next), effects)
        },
        SearchTaskOf::Systemctl(args, s) => {
            let (next, effects) = systemctl_logged(&args, s, reply);
            (SearchTaskOf::Systemctl(args, next), effects)
        },
        SearchTaskOf::WhichFromLoginShell(name, s) => {
            let (next, effects) = which_from_login_shell(name.as_str(), s, reply);
            (SearchTaskOf::WhichFromLoginShell(name, next), effects)
        },
        SearchTaskOf::WhichFromCommonPaths(name, s) => {
            let (next, effects) = which_from_common_paths(
                &home_dir(&world.mac.env),
                name.as_str(),
                s,
                reply,
            );
            (SearchTaskOf::WhichFromCommonPaths(name, next), effects)
        },
        SearchTaskOf::Which(name, s) => {
            let (next, effects) = which(name.as_str(), s, reply);
            (SearchTaskOf::Which(name, next), effects)
        },
        SearchTaskOf::NodeForDsh(dsh, s) => {
            let (next, effects) = node_for_dsh(&dsh, s, reply);
            (SearchTaskOf::NodeForDsh(dsh, next), effects)
        },
        SearchTaskOf::LoginShellPath(s) => {
            let (next, effects) = login_shell_path(own_path(world), s, reply);
            (SearchTaskOf::LoginShellPath(next), effects)
        },
        SearchTaskOf::DshProgram(s) => {
            let (next, effects) = dsh_program(s, reply);
            (SearchTaskOf::DshProgram(next), effects)
        },
        SearchTaskOf::ServiceEnv(s) => {
            let (next, effects) = service_env(own_path(world), s, reply);
            (SearchTaskOf::ServiceEnv(next), effects)
        },
    }
}

fn answer_search(task: SearchTask) -> (r: Result<Reply, SearchTask>)
    ensures
        match r {
            Ok(reply) => search_answer(task@) == Some(reply@),
            Err(t) => search_answer(task@) is None && t@ == task@,
        },
{
    match task {
        SearchTaskOf::Launchctl(_, LoggedOf::Ended(r)) => Ok(ReplyOf::Command(r)),
        SearchTaskOf::Systemctl(_, LoggedOf::Ended(r)) => Ok(ReplyOf::Command(r)),
        SearchTaskOf::WhichFromLoginShell(_, ShellSearchOf::Ended(r)) => Ok(ReplyOf::Found(r)),
        SearchTaskOf::WhichFromCommonPaths(_, PlaceSearchOf::Ended(r)) => Ok(ReplyOf::Found(r)),
        SearchTaskOf::Which(_, WhichOf::Ended(r)) => Ok(ReplyOf::Found(r)),
        SearchTaskOf::NodeForDsh(_, NodeSearchOf::Ended(r)) => Ok(ReplyOf::Found(r)),
        SearchTaskOf::LoginShellPath(PathSearchOf::Ended(r)) => Ok(ReplyOf::SearchPath(r)),
        SearchTaskOf::DshProgram(ProgramSearchOf::Ended(r)) => Ok(ReplyOf::Program(r)),
        SearchTaskOf::ServiceEnv(EnvSearchOf::Ended(r)) => Ok(ReplyOf::Env(r)),
        other => Err(other),
    }
}

/// An operation under launchd and its state, over texts `T` and lists of texts `L`.
#[derive(Debug, PartialEq, Eq)]
pub enum LaunchdTaskOf<T, L> {
    /// `plist_xml`.
    PlistXml(bool, bool, RenderOf<T, L>),
    /// `write_plist`.
    WritePlist(bool, macos_service::WriteOf<T>),
    /// `write_plist_keepalive_off`.
    WritePlistKeepaliveOff(macos_service::RewriteOf<T>),
    /// `ensure_definition` under launchd.
    Ensure(macos_service::EnsureOf<T>),
    /// `read_autostart` under launchd.
    Autostart(Query),
    /// `service_is_running` under launchd.
    Running(Query),
    /// `service_start` under launchd.
    Start(Phase),
    /// `service_stop` under launchd.
    Stop(Phase),
    /// `service_restart` under launchd.
    Restart(Phase),
    /// `set_autostart` under launchd.
    SetAutostart(bool, Phase),
}

/// An operation under launchd and its state.
pub type LaunchdTask = LaunchdTaskOf<String, Vec<String>>;

/// An operation under launchd and its state as the contracts speak of it.
pub type LaunchdTaskView = LaunchdTaskOf<Seq<char>, Seq<Seq<char>>>;

impl LaunchdTaskOf<String, Vec<String>> {
    pub open spec fn view(&self) -> LaunchdTaskView {
        match *self {
            LaunchdTaskOf::PlistXml(run_at_load, keep_alive, s) => LaunchdTaskOf::PlistXml(
                run_at_load,
                keep_alive,
                s@,
            ),
            LaunchdTaskOf::WritePlist(run_at_load, s) => LaunchdTaskOf::WritePlist(run_at_load, s@),
            LaunchdTaskOf::WritePlistKeepaliveOff(s) => LaunchdTaskOf::WritePlistKeepaliveOff(s@),
            LaunchdTaskOf::Ensure(s) => LaunchdTaskOf::Ensure(s@),
            LaunchdTaskOf::Autostart(s) => LaunchdTaskOf::Autostart(s),
            LaunchdTaskOf::Running(s) => LaunchdTaskOf::Running(s),
            LaunchdTaskOf::Start(s) => LaunchdTaskOf::Start(s),
            LaunchdTaskOf::Stop(s) => LaunchdTaskOf::Stop(s),
            LaunchdTaskOf::Restart(s) => LaunchdTaskOf::Restart(s),
            LaunchdTaskOf::SetAutostart(enabled, s) => LaunchdTaskOf::SetAutostart(enabled, s),
        }
    }
}

/// One step of an operation under launchd.
#[verifier::opaque]
pub open spec fn launchd_step(world: World, task: LaunchdTaskView, reply: ReplyView) -> (
    LaunchdTaskView,
    Seq<EffectView>,
) {
    match task {
        LaunchdTaskOf::PlistXml(run_at_load, keep_alive, s) => {
            let (next, effects) = macos_service::xml_step(
                world.mac,
                run_at_load,
                keep_alive,
                s,
                reply,
            );
            (LaunchdTaskOf::PlistXml(run_at_load, keep_alive, next), effects)
        },
        LaunchdTaskOf::WritePlist(run_at_load, s) => {
            let (next, effects) = macos_service::write_step(world.mac, run_at_load, s, reply);
            (LaunchdTaskOf::WritePlist(run_at_load, next), effects)
        },
        LaunchdTaskOf::WritePlistKeepaliveOff(s) => {
            let (next, effects) = macos_service::off_step(world.mac, s, reply);
            (LaunchdTaskOf::WritePlistKeepaliveOff(next), effects)
        },
        LaunchdTaskOf::Ensure(s) => {
            let (next, effects) = macos_service::ensure_step(world.mac, s, reply);
            (LaunchdTaskOf::Ensure(next), effects)
        },
        LaunchdTaskOf::Autostart(s) => {
            let (next, effects) = macos_service::autostart_step(world.mac, s, reply);
            (LaunchdTaskOf::Autostart(next), effects)
        },
        LaunchdTaskOf::Running(s) => {
            let (next, effects) = macos_service::running_step(world.mac, s, reply);
            (LaunchdTaskOf::Running(next), effects)
        },
        LaunchdTaskOf::Start(s) => {
            let (next, effects) = macos_service::start_step(world.mac, s, reply);
            (LaunchdTaskOf::Start(next), effects)
        },
        LaunchdTaskOf::Stop(s) => {
            let (next, effects) = macos_service::stop_step(world.mac, s, reply);
            (LaunchdTaskOf::Stop(next), effects)
        },
        LaunchdTaskOf::Restart(s) => {
            let (next, effects) = macos_service::restart_step(world.mac, s, reply);
            (LaunchdTaskOf::Restart(next), effects)
        },
        LaunchdTaskOf::SetAutostart(enabled, s) => {
            let (next, effects) = macos_service::set_autostart_step(world.mac, enabled, s, reply);
            (LaunchdTaskOf::SetAutostart(enabled, next), effects)
        },
    }
}

/// The answer that an operation under launchd ends in.
pub open spec fn launchd_answer(task: LaunchdTaskView) -> Option<ReplyView> {
    match task {
        LaunchdTaskOf::PlistXml(_, _, RenderOf::Ended(r)) => Some(ReplyOf::Text(r)),
        LaunchdTaskOf::WritePlist(_, macos_service::WriteOf::Ended(r)) => Some(ReplyOf::Done(r)),
        LaunchdTaskOf::WritePlistKeepaliveOff(macos_service::RewriteOf::Ended(r)) => Some(
            ReplyOf::Done(r),
        ),
        LaunchdTaskOf::Ensure(macos_service::EnsureOf::Ended(r)) => Some(ReplyOf::Done(r)),
        LaunchdTaskOf::Autostart(Query::Ended(r)) => Some(ReplyOf::Flag(r)),
        LaunchdTaskOf::Running(Query::Ended(r)) => Some(ReplyOf::Flag(r)),
        LaunchdTaskOf::Start(Phase::Ended) => Some(ReplyOf::Nothing),
        LaunchdTaskOf::Stop(Phase::Ended) => Some(ReplyOf::Nothing),
        LaunchdTaskOf::Restart(Phase::Ended) => Some(ReplyOf::Nothing),
        LaunchdTaskOf::SetAutostart(_, Phase::Ended) => Some(ReplyOf::Nothing),
        _ => None,
    }
}

fn step_launchd(world: &World, task: LaunchdTask, reply: Reply) -> (r: (LaunchdTask, Vec<Effect>))
    ensures
        (r.0@, shown(r.1@)) == launchd_step(*world, task@, reply@),
{
    reveal(launchd_step);
    match task {
        LaunchdTaskOf::PlistXml(run_at_load, keep_alive, s) => {
            let (next, effects) = macos_service::plist_xml(
                &world.mac,
                run_at_load,
                keep_alive,
                s,
                reply,
            );
            (LaunchdTaskOf::PlistXml(run_at_load, keep_alive, next), effects)
        },
        LaunchdTaskOf::WritePlist(run_at_load, s) => {
            let (next, effects) = macos_service::write_plist(&world.mac, run_at_load, s, reply);
            (LaunchdTaskOf::WritePlist(run_at_load, next), effects)
        },
        LaunchdTaskOf::WritePlistKeepaliveOff(s) => {
            let (next, effects) = macos_service::write_plist_keepalive_off(&world.mac, s, reply);
            (LaunchdTaskOf::WritePlistKeepaliveOff(next), effects)
        },
        LaunchdTaskOf::Ensure(s) => {
            let (next, effects) = macos_service::ensure_definition(&world.mac, s, reply);
            (LaunchdTaskOf::Ensure(next), effects)
        },
        LaunchdTaskOf::Autostart(s) => {
            let (next, effects) = macos_service::read_autostart(&world.mac, s, reply);
            (LaunchdTaskOf::Autostart(next), effects)
        },
        LaunchdTaskOf::Running(s) => {
            let (next, effects) = macos_service::service_is_running(&world.mac, s, reply);
            (LaunchdTaskOf::Running(next), effects)
        },
        LaunchdTaskOf::Start(s) => {
            let (next, effects) = macos_service::service_start(&world.mac, s, reply);
            (LaunchdTaskOf::Start(next), effects)
        },
        LaunchdTaskOf::Stop(s) => {
            let (next, effects) = macos_service::service_stop(&world.mac, s, reply);
            (LaunchdTaskOf::Stop(next), effects)
        },
        LaunchdTaskOf::Restart(s) => {
            let (next, effects) = macos_service::service_restart(&world.mac, s, reply);
            (LaunchdTaskOf::Restart(next), effects)
        },
        LaunchdTaskOf::SetAutostart(enabled, s) => {
            let (next, effects) = macos_service::set_autostart(&world.mac, enabled, s, reply);
            (LaunchdTaskOf::SetAutostart(enabled, next), effects)
        },
    }
}

fn answer_launchd(task: LaunchdTask) -> (r: Result<Reply, LaunchdTask>)
    ensures
        match r {
            Ok(reply) => launchd_answer(task@) == Some(reply@),
            Err(t) => launchd_answer(task@) is None && t@ == task@,
        },
{
    match task {
        LaunchdTaskOf::PlistXml(_, _, RenderOf::Ended(r)) => Ok(ReplyOf::Text(r)),
        LaunchdTaskOf::WritePlist(_, macos_service::WriteOf::Ended(r)) => Ok(ReplyOf::Done(r)),
        LaunchdTaskOf::WritePlistKeepaliveOff(macos_service::RewriteOf::Ended(r)) => Ok(
            ReplyOf::Done(r),
        ),
        LaunchdTaskOf::Ensure(macos_service::EnsureOf::Ended(r)) => Ok(ReplyOf::Done(r)),
        LaunchdTaskOf::Autostart(Query::Ended(r)) => Ok(ReplyOf::Flag(r)),
        LaunchdTaskOf::Running(Query::Ended(r)) => Ok(ReplyOf::Flag(r)),
        LaunchdTaskOf::Start(Phase::Ended) => Ok(ReplyOf::Nothing),
        LaunchdTaskOf::Stop(Phase::Ended) => Ok(ReplyOf::Nothing),
        LaunchdTaskOf::Restart(Phase::Ended) => Ok(ReplyOf::Nothing),
        LaunchdTaskOf::SetAutostart(_, Phase::Ended) => Ok(ReplyOf::Nothing),
        other => Err(other),
    }
}

/// An operation under systemd and its state, over texts `T` and lists of texts `L`.
#[derive(Debug, PartialEq, Eq)]
pub enum SystemdTaskOf<T, L> {
    /// `unit_content`.
    UnitContent(bool, RenderOf<T, L>),
    /// `write_unit`.
    WriteUnit(bool, linux_service::WriteOf<T>),
    /// `ensure_definition` under systemd.
    Ensure(linux_service::EnsureOf<T>),
    /// `read_autostart` under systemd.
    Autostart(Query),
    /// `service_is_running` under systemd.
    Running(Query),
    /// `service_start` under systemd.
    Start(Phase),
    /// `service_stop` under systemd.
    Stop(Phase),
    /// `service_restart` under systemd.
    Restart(Phase),
    /// `set_autostart` under systemd.
    SetAutostart(bool, Phase),
}

/// An operation under systemd and its state.
pub type SystemdTask = SystemdTaskOf<String, Vec<String>>;

/// An operation under systemd and its state as the contracts speak of it.
pub type SystemdTaskView = SystemdTaskOf<Seq<char>, Seq<Seq<char>>>;

impl SystemdTaskOf<String, Vec<String>> {
    pub open spec fn view(&self) -> SystemdTaskView {
        match *self {
            SystemdTaskOf::UnitContent(enabled, s) => SystemdTaskOf::UnitContent(enabled, s@),
            SystemdTaskOf::WriteUnit(enabled, s) => SystemdTaskOf::WriteUnit(enabled, s@),
            SystemdTaskOf::Ensure(s) => SystemdTaskOf::Ensure(s@),
            SystemdTaskOf::Autostart(s) => SystemdTaskOf::Autostart(s),
            SystemdTaskOf::Running(s) => SystemdTaskOf::Running(s),
            SystemdTaskOf::Start(s) => SystemdTaskOf::Start(s),
            SystemdTaskOf::Stop(s) => SystemdTaskOf::Stop(s),
            SystemdTaskOf::Restart(s) => SystemdTaskOf::Restart(s),
            SystemdTaskOf::SetAutostart(enabled, s) => SystemdTaskOf::SetAutostart(enabled, s),
        }
    }
}

/// One step of an operation under systemd.
#[verifier::opaque]
pub open spec fn systemd_step(world: World, task: SystemdTaskView, reply: ReplyView) -> (
    SystemdTaskView,
    Seq<EffectView>,
) {
    match task {
        SystemdTaskOf::UnitContent(enabled, s) => {
            let (next, effects) = linux_service::content_step(world.linux, s, reply);
            (SystemdTaskOf::UnitContent(enabled, next), effects)
        },
        SystemdTaskOf::WriteUnit(enabled, s) => {
            let (next, effects) = linux_service::write_step(world.linux, enabled, s, reply);
            (SystemdTaskOf::WriteUnit(enabled, next), effects)
        },
        SystemdTaskOf::Ensure(s) => {
            let (next, effects) = linux_service::ensure_step(world.linux, s, reply);
            (SystemdTaskOf::Ensure(next), effects)
        },
        SystemdTaskOf::Autostart(s) => {
            let (next, effects) = linux_service::autostart_step(world.linux, s, reply);
            (SystemdTaskOf::Autostart(next), effects)
        },
        SystemdTaskOf::Running(s) => {
            let (next, effects) = linux_service::running_step(s, reply);
            (SystemdTaskOf::Running(next), effects)
        },
        SystemdTaskOf::Start(s) => {
            let (next, effects) = linux_service::start_step(s, reply);
            (SystemdTaskOf::Start(next), effects)
        },
        SystemdTaskOf::Stop(s) => {
            let (next, effects) = linux_service::stop_step(s);
            (SystemdTaskOf::Stop(next), effects)
        },
        SystemdTaskOf::Restart(s) => {
            let (next, effects) = linux_service::restart_step(s, reply);
            (SystemdTaskOf::Restart(next), effects)
        },
        SystemdTaskOf::SetAutostart(enabled, s) => {
            let (next, effects) = linux_service::set_autostart_step(enabled, s, reply);
            (SystemdTaskOf::SetAutostart(enabled, next), effects)
        },
    }
}

/// The answer that an operation under systemd ends in.
pub open spec fn systemd_answer(task: SystemdTaskView) -> Option<ReplyView> {
    match task {
        SystemdTaskOf::UnitContent(_, RenderOf::Ended(r)) => Some(ReplyOf::Text(r)),
        SystemdTaskOf::WriteUnit(_, linux_service::WriteOf::Ended(r)) => Some(ReplyOf::Done(r)),
        SystemdTaskOf::Ensure(linux_service::EnsureOf::Ended(r)) => Some(ReplyOf::Done(r)),
        SystemdTaskOf::Autostart(Query::Ended(r)) => Some(ReplyOf::Flag(r)),
        SystemdTaskOf::Running(Query::Ended(r)) => Some(ReplyOf::Flag(r)),
        SystemdTaskOf::Start(Phase::Ended) => Some(ReplyOf::Nothing),
        SystemdTaskOf::Stop(Phase::Ended) => Some(ReplyOf::Nothing),
        SystemdTaskOf::Restart(Phase::Ended) => Some(ReplyOf::Nothing),
        SystemdTaskOf::SetAutostart(_, Phase::Ended) => Some(ReplyOf::Nothing),
        _ => None,
    }
}

fn step_systemd(world: &World, task: SystemdTask, reply: Reply) -> (r: (SystemdTask, Vec<Effect>))
    ensures
        (r.0@, shown(r.1@)) == systemd_step(*world, task@, reply@),
{
    reveal(systemd_step);
    match task {
        SystemdTaskOf::UnitContent(enabled, s) => {
            let (next, effects) = linux_service::unit_content(&world.linux, s, reply);
            (SystemdTaskOf::UnitContent(enabled, next), effects)
        },
        SystemdTaskOf::WriteUnit(enabled, s) => {
            let (next, effects) = linux_service::write_unit(&world.linux, enabled, s, reply);
            (SystemdTaskOf::WriteUnit(enabled, next), effects)
        },
        SystemdTaskOf::Ensure(s) => {
            let (next, effects) = linux_service::ensure_definition(&world.linux, s, reply);
            (SystemdTaskOf::Ensure(next), effects)
        },
        SystemdTaskOf::Autostart(s) => {
            let (next, effects) = linux_service::read_autostart(&world.linux, s, reply);
            (SystemdTaskOf::Autostart(next), effects)
        },
        SystemdTaskOf::Running(s) => {
            let (next, effects) = linux_service::service_is_running(s, reply);
            (SystemdTaskOf::Running(next), effects)
        },
        SystemdTaskOf::Start(s) => {
            let (next, effects) = linux_service::service_start(s, reply);
            (SystemdTaskOf::Start(next), effects)
        },
        SystemdTaskOf::Stop(s) => {
            let (next, effects) = linux_service::service_stop(s);
            (SystemdTaskOf::Stop(next), effects)
        },
        SystemdTaskOf::Restart(s) => {
            let (next, effects) = linux_service::service_restart(s, reply);
            (SystemdTaskOf::Restart(next), effects)
        },
        SystemdTaskOf::SetAutostart(enabled, s) => {
            let (next, effects) = linux_service::set_autostart(enabled, s, reply);
            (SystemdTaskOf::SetAutostart(enabled, next), effects)
        },
    }
}

fn answer_systemd(task: SystemdTask) -> (r: Result<Reply, SystemdTask>)
    ensures
        match r {
            Ok(reply) => systemd_answer(task@) == Some(reply@),
            Err(t) => systemd_answer(task@) is None && t@ == task@,
        },
{
    match task {
        SystemdTaskOf::UnitContent(_, RenderOf::Ended(r)) => Ok(ReplyOf::Text(r)),
        SystemdTaskOf::WriteUnit(_, linux_service::WriteOf::Ended(r)) => Ok(ReplyOf::Done(r)),
        SystemdTaskOf::Ensure(linux_service::EnsureOf::Ended(r)) => Ok(ReplyOf::Done(r)),
        SystemdTaskOf::Autostart(Query::Ended(r)) => Ok(ReplyOf::Flag(r)),
        SystemdTaskOf::Running(Query::Ended(r)) => Ok(ReplyOf::Flag(r)),
        SystemdTaskOf::Start(Phase::Ended) => Ok(ReplyOf::Nothing),
        SystemdTaskOf::Stop(Phase::Ended) => Ok(ReplyOf::Nothing),
        SystemdTaskOf::Restart(Phase::Ended) => Ok(ReplyOf::Nothing),
        SystemdTaskOf::SetAutostart(_, Phase::Ended) => Ok(ReplyOf::Nothing),
        other => Err(other),
    }
}

/// An operation of the desktop and its state, over texts `T`.
#[derive(Debug, PartialEq, Eq)]
pub enum DesktopTaskOf<T> {
    /// `open_dsh_ui`.
    OpenDshUi(Opening),
    /// `handle_menu`.
    Menu(T, Choice),
    /// The launcher's `run`.
    Setup(SetupOf<T>),
}

/// An operation of the desktop and its state.
pub type DesktopTask = DesktopTaskOf<String>;

/// An operation of the desktop and its state as the contracts speak of it.
pub type DesktopTaskView = DesktopTaskOf<Seq<char>>;

impl DesktopTaskOf<String> {
    pub open spec fn view(&self) -> DesktopTaskView {
        match *self {
            DesktopTaskOf::OpenDshUi(s) => DesktopTaskOf::OpenDshUi(s),
            DesktopTaskOf::Menu(id, s) => DesktopTaskOf::Menu(id@, s),
            DesktopTaskOf::Setup(s) => DesktopTaskOf::Setup(s@),
        }
    }
}

/// One step of an operation of the desktop.
#[verifier::opaque]
pub open spec fn desktop_step(world: World, task: DesktopTaskView, reply: ReplyView) -> (
    DesktopTaskView,
    Seq<EffectView>,
) {
    match task {
        DesktopTaskOf::OpenDshUi(s) => {
            let (next, effects) = open_step(world.platform, world.now, s, reply);
            (DesktopTaskOf::OpenDshUi(next), effects)
        },
        DesktopTaskOf::Menu(id, s) => {
            let (next, effects) = menu_step(
                world.platform,
                id,
                world.mac.autostart,
                world.log_file@,
                s,
                reply,
            );
            (DesktopTaskOf::Menu(id, next), effects)
        },
        DesktopTaskOf::Setup(s) => {
            let (next, effects) = setup_step(world.platform, s, reply);
            (DesktopTaskOf::Setup(next), effects)
        },
    }
}

/// The answer that an operation of the desktop ends in.
pub open spec fn desktop_answer(task: DesktopTaskView) -> Option<ReplyView> {
    match task {
        DesktopTaskOf::OpenDshUi(Opening::Ended) => Some(ReplyOf::Nothing),
        DesktopTaskOf::Menu(_, Choice::Ended) => Some(ReplyOf::Nothing),
        DesktopTaskOf::Setup(SetupOf::Ended(r)) => Some(ReplyOf::Done(r)),
        _ => None,
    }
}

fn step_desktop(world: &World, task: DesktopTask, reply: Reply) -> (r: (DesktopTask, Vec<Effect>))
    requires
        world.now + WINDOW_SIZE_SAVE_DELAY <= u64::MAX,
    ensures
        (r.0@, shown(r.1@)) == desktop_step(*world, task@, reply@),
{
    reveal(desktop_step);
    match task {
        DesktopTaskOf::OpenDshUi(s) => {
            let (next, effects) = open_dsh_ui(world.platform, world.now, s, reply);
            (DesktopTaskOf::OpenDshUi(next), effects)
        },
        DesktopTaskOf::Menu(id, s) => {
            let (next, effects) = handle_menu(
                world.platform,
                id.as_str(),
                world.mac.autostart,
                &world.log_file,
                s,
                reply,
            );
            (DesktopTaskOf::Menu(id, next), effects)
        },
        DesktopTaskOf::Setup(s) => {
            let (next, effects) = run(world.platform, s, reply);
            (DesktopTaskOf::Setup(next), effects)
        },
    }
}

fn answer_desktop(task: DesktopTask) -> (r: Result<Reply, DesktopTask>)
    ensures
        match r {
            Ok(reply) => desktop_answer(task@) == Some(reply@),
            Err(t) => desktop_answer(task@) is None && t@ == task@,
        },
{
    match task {
        DesktopTaskOf::OpenDshUi(Opening::Ended) => Ok(ReplyOf::Nothing),
        DesktopTaskOf::Menu(_, Choice::Ended) => Ok(ReplyOf::Nothing),
        DesktopTaskOf::Setup(SetupOf::Ended(r)) => Ok(ReplyOf::Done(r)),
        other => Err(other),
    }
}

// ---- any operation ----

/// An operation and its state, over texts `T`, paths `P`, lists of texts `L`, lists of names `N`
/// and lists of variables `E`.
#[derive(Debug, PartialEq, Eq)]
pub enum TaskOf<T, P, L, N, E> {
    /// A search or a command.
    Search(SearchTaskOf<T, P, L, N, E>),
    /// An operation under launchd.
    Launchd(LaunchdTaskOf<T, L>),
    /// An operation under systemd.
    Systemd(SystemdTaskOf<T, L>),
    /// An operation of the desktop.
    Desktop(DesktopTaskOf<T>),
}

/// An operation and its state.
pub type Task = TaskOf<
    String,
    Vec<u8>,
    Vec<String>,
    Vec<Vec<u8>>,
    Vec<(String, String)>,
>;

/// An operation and its state as the contracts speak of it.
pub type TaskView = TaskOf<
    Seq<char>,
    Seq<u8>,
    Seq<Seq<char>>,
    Seq<Seq<u8>>,
    Seq<(Seq<char>, Seq<char>)>,
>;

impl TaskOf<String, Vec<u8>, Vec<String>, Vec<Vec<u8>>, Vec<(String, String)>> {
    pub open spec fn view(&self) -> TaskView {
        match *self {
            TaskOf::Search(t) => TaskOf::Search(t@),
            TaskOf::Launchd(t) => TaskOf::Launchd(t@),
            TaskOf::Systemd(t) => TaskOf::Systemd(t@),
            TaskOf::Desktop(t) => TaskOf::Desktop(t@),
        }
    }
}

/// One step of an operation.
pub open spec fn task_step(world: World, task: TaskView, reply: ReplyView) -> (
    TaskView,
    Seq<EffectView>,
) {
    match task {
        TaskOf::Search(t) => {
            let (next, effects) = search_step(world, t, reply);
            (TaskOf::Search(next), effects)
        },
        TaskOf::Launchd(t) => {
            let (next, effects) = launchd_step(world, t, reply);
            (TaskOf::Launchd(next), effects)
        },
        TaskOf::Systemd(t) => {
            let (next, effects) = systemd_step(world, t, reply);
            (TaskOf::Systemd(next), effects)
        },
        TaskOf::Desktop(t) => {
            let (next, effects) = desktop_step(world, t, reply);
            (TaskOf::Desktop(next), effects)
        },
    }
}

/// The answer that an operation gives when it has ended.
pub open spec fn task_answer(task: TaskView) -> Option<ReplyView> {
    match task {
        TaskOf::Search(t) => search_answer(t),
        TaskOf::Launchd(t) => launchd_answer(t),
        TaskOf::Systemd(t) => systemd_answer(t),
        TaskOf::Desktop(t) => desktop_answer(t),
    }
}

/// The operation that an effect names, at its start; there is none where it names none, or none
/// of the platform.
pub open spec fn begun(platform: Platform, effect: EffectView) -> Option<TaskView> {
    match effect {
        EffectOf::Launchctl(args) => Some(
            TaskOf::Search(SearchTaskOf::Launchctl(args, LoggedOf::Start)),
        ),
        EffectOf::Systemctl(args) => Some(
            TaskOf::Search(SearchTaskOf::Systemctl(args, LoggedOf::Start)),
        ),
        EffectOf::WhichFromLoginShell(name) => Some(
            TaskOf::Search(SearchTaskOf::WhichFromLoginShell(name, ShellSearchOf::Start)),
        ),
        EffectOf::WhichFromCommonPaths(name) => Some(
            TaskOf::Search(SearchTaskOf::WhichFromCommonPaths(name, PlaceSearchOf::Start)),
        ),
        EffectOf::Which(name) => Some(
            TaskOf::Search(SearchTaskOf::Which(name, WhichOf::Start)),
        ),
        EffectOf::NodeForDsh(dsh) => Some(
            TaskOf::Search(SearchTaskOf::NodeForDsh(dsh, NodeSearchOf::Start)),
        ),
        EffectOf::LoginShellPath => Some(
            TaskOf::Search(SearchTaskOf::LoginShellPath(PathSearchOf::Start)),
        ),
        EffectOf::DshProgram => Some(
            TaskOf::Search(SearchTaskOf::DshProgram(ProgramSearchOf::Start)),
        ),
        EffectOf::ServiceEnv => Some(
            TaskOf::Search(SearchTaskOf::ServiceEnv(EnvSearchOf::Start)),
        ),
        EffectOf::PlistXml { run_at_load, keep_alive } => Some(
            TaskOf::Launchd(LaunchdTaskOf::PlistXml(run_at_load, keep_alive, RenderOf::Start)),
        ),
        EffectOf::WritePlist { run_at_load } => Some(
            TaskOf::Launchd(LaunchdTaskOf::WritePlist(run_at_load, macos_service::WriteOf::Start)),
        ),
        EffectOf::WritePlistKeepaliveOff => Some(
            TaskOf::Launchd(LaunchdTaskOf::WritePlistKeepaliveOff(macos_service::RewriteOf::Start)),
        ),
        EffectOf::UnitContent { enabled } => Some(
            TaskOf::Systemd(SystemdTaskOf::UnitContent(enabled, RenderOf::Start)),
        ),
        EffectOf::WriteUnit { enabled } => Some(
            TaskOf::Systemd(SystemdTaskOf::WriteUnit(enabled, linux_service::WriteOf::Start)),
        ),
        EffectOf::EnsureDefinition => match platform {
            Platform::MacOs => Some(
                TaskOf::Launchd(LaunchdTaskOf::Ensure(macos_service::EnsureOf::Start)),
            ),
            Platform::Linux => Some(
                TaskOf::Systemd(SystemdTaskOf::Ensure(linux_service::EnsureOf::Start)),
            ),
            Platform::Windows => None,
        },
        EffectOf::ReadAutostart => match platform {
            Platform::MacOs => Some(TaskOf::Launchd(LaunchdTaskOf::Autostart(Query::Start))),
            Platform::Linux => Some(TaskOf::Systemd(SystemdTaskOf::Autostart(Query::Start))),
            Platform::Windows => None,
        },
        EffectOf::ServiceIsRunning => match platform {
            Platform::MacOs => Some(TaskOf::Launchd(LaunchdTaskOf::Running(Query::Start))),
            Platform::Linux => Some(TaskOf::Systemd(SystemdTaskOf::Running(Query::Start))),
            Platform::Windows => None,
        },
        EffectOf::ServiceStart => match platform {
            Platform::MacOs => Some(TaskOf::Launchd(LaunchdTaskOf::Start(Phase::Start))),
            Platform::Linux => Some(TaskOf::Systemd(SystemdTaskOf::Start(Phase::Start))),
            Platform::Windows => None,
        },
        EffectOf::ServiceStop => match platform {
            Platform::MacOs => Some(TaskOf::Launchd(LaunchdTaskOf::Stop(Phase::Start))),
            Platform::Linux => Some(TaskOf::Systemd(SystemdTaskOf::Stop(Phase::Start))),
            Platform::Windows => None,
        },
        EffectOf::ServiceRestart => match platform {
            Platform::MacOs => Some(TaskOf::Launchd(LaunchdTaskOf::Restart(Phase::Start))),
            Platform::Linux => Some(TaskOf::Systemd(SystemdTaskOf::Restart(Phase::Start))),
            Platform::Windows => None,
        },
        EffectOf::SetAutostart(enabled) => match platform {
            Platform::MacOs => Some(
                TaskOf::Launchd(LaunchdTaskOf::SetAutostart(enabled, Phase::Start)),
            ),
            Platform::Linux => Some(
                TaskOf::Systemd(SystemdTaskOf::SetAutostart(enabled, Phase::Start)),
            ),
            Platform::Windows => None,
        },
        EffectOf::OpenDshUi => Some(
            TaskOf::Desktop(DesktopTaskOf::OpenDshUi(Opening::Start)),
        ),
        _ => None,
    }
}

fn step(world: &World, task: Task, reply: Reply) -> (r: (Task, Vec<Effect>))
    requires
        world.now + WINDOW_SIZE_SAVE_DELAY <= u64::MAX,
    ensures
        (r.0@, shown(r.1@)) == task_step(*world, task@, reply@),
{
    match task {
        TaskOf::Search(t) => {
            let (next, effects) = step_search(world, t, reply);
            (TaskOf::Search(next), effects)
        },
        TaskOf::Launchd(t) => {
            let (next, effects) = step_launchd(world, t, reply);
            (TaskOf::Launchd(next), effects)
        },
        TaskOf::Systemd(t) => {
            let (next, effects) = step_systemd(world, t, reply);
            (TaskOf::Systemd(next), effects)
        },
        TaskOf::Desktop(t) => {
            let (next, effects) = step_desktop(world, t, reply);
            (TaskOf::Desktop(next), effects)
        },
    }
}

/// The answer of an operation that has ended, or the operation itself.
fn answer(task: Task) -> (r: Result<Reply, Task>)
    ensures
        match r {
            Ok(reply) => task_answer(task@) == Some(reply@),
            Err(t) => task_answer(task@) is None && t@ == task@,
        },
{
    match task {
        TaskOf::Search(t) => match answer_search(t) {
            Ok(r) => Ok(r),
            Err(t) => Err(TaskOf::Search(t)),
        },
        TaskOf::Launchd(t) => match answer_launchd(t) {
            Ok(r) => Ok(r),
            Err(t) => Err(TaskOf::Launchd(t)),
        },
        TaskOf::Systemd(t) => match answer_systemd(t) {
            Ok(r) => Ok(r),
            Err(t) => Err(TaskOf::Systemd(t)),
        },
        TaskOf::Desktop(t) => match answer_desktop(t) {
            Ok(r) => Ok(r),
            Err(t) => Err(TaskOf::Desktop(t)),
        },
    }
}

/// The operation that an effect names, at its start, or the effect itself.
fn begin(platform: Platform, effect: Effect) -> (r: Result<Task, Effect>)
    ensures
        match r {
            Ok(task) => begun(platform, effect@) == Some(task@),
            Err(e) => begun(platform, effect@) is None && e@ == effect@,
        },
{
    match effect {
        EffectOf::Launchctl(args) => Ok(
            TaskOf::Search(SearchTaskOf::Launchctl(args, LoggedOf::Start)),
        ),
        EffectOf::Systemctl(args) => Ok(
            TaskOf::Search(SearchTaskOf::Systemctl(args, LoggedOf::Start)),
        ),
        EffectOf::WhichFromLoginShell(name) => Ok(
            TaskOf::Search(SearchTaskOf::WhichFromLoginShell(name, ShellSearchOf::Start)),
        ),
        EffectOf::WhichFromCommonPaths(name) => Ok(
            TaskOf::Search(SearchTaskOf::WhichFromCommonPaths(name, PlaceSearchOf::Start)),
        ),
        EffectOf::Which(name) => Ok(
            TaskOf::Search(SearchTaskOf::Which(name, WhichOf::Start)),
        ),
        EffectOf::NodeForDsh(dsh) => Ok(
            TaskOf::Search(SearchTaskOf::NodeForDsh(dsh, NodeSearchOf::Start)),
        ),
        EffectOf::LoginShellPath => Ok(
            TaskOf::Search(SearchTaskOf::LoginShellPath(PathSearchOf::Start)),
        ),
        EffectOf::DshProgram => Ok(
            TaskOf::Search(SearchTaskOf::DshProgram(ProgramSearchOf::Start)),
        ),
        EffectOf::ServiceEnv => Ok(
            TaskOf::Search(SearchTaskOf::ServiceEnv(EnvSearchOf::Start)),
        ),
        EffectOf::PlistXml { run_at_load, keep_alive } => Ok(
            TaskOf::Launchd(LaunchdTaskOf::PlistXml(run_at_load, keep_alive, RenderOf::Start)),
        ),
        EffectOf::WritePlist { run_at_load } => Ok(
            TaskOf::Launchd(LaunchdTaskOf::WritePlist(run_at_load, macos_service::WriteOf::Start)),
        ),
        EffectOf::WritePlistKeepaliveOff => Ok(
            TaskOf::Launchd(LaunchdTaskOf::WritePlistKeepaliveOff(macos_service::RewriteOf::Start)),
        ),
        EffectOf::UnitContent { enabled } => Ok(
            TaskOf::Systemd(SystemdTaskOf::UnitContent(enabled, RenderOf::Start)),
        ),
        EffectOf::WriteUnit { enabled } => Ok(
            TaskOf::Systemd(SystemdTaskOf::WriteUnit(enabled, linux_service::WriteOf::Start)),
        ),
        EffectOf::EnsureDefinition => match platform {
            Platform::MacOs => Ok(
                TaskOf::Launchd(LaunchdTaskOf::Ensure(macos_service::EnsureOf::Start)),
            ),
            Platform::Linux => Ok(
                TaskOf::Systemd(SystemdTaskOf::Ensure(linux_service::EnsureOf::Start)),
            ),
            Platform::Windows => Err(EffectOf::EnsureDefinition),
        },
        EffectOf::ReadAutostart => match platform {
            Platform::MacOs => Ok(TaskOf::Launchd(LaunchdTaskOf::Autostart(Query::Start))),
            Platform::Linux => Ok(TaskOf::Systemd(SystemdTaskOf::Autostart(Query::Start))),
            Platform::Windows => Err(EffectOf::ReadAutostart),
        },
        EffectOf::ServiceIsRunning => match platform {
            Platform::MacOs => Ok(TaskOf::Launchd(LaunchdTaskOf::Running(Query::Start))),
            Platform::Linux => Ok(TaskOf::Systemd(SystemdTaskOf::Running(Query::Start))),
            Platform::Windows => Err(EffectOf::ServiceIsRunning),
        },
        EffectOf::ServiceStart => match platform {
            Platform::MacOs => Ok(TaskOf::Launchd(LaunchdTaskOf::Start(Phase::Start))),
            Platform::Linux => Ok(TaskOf::Systemd(SystemdTaskOf::Start(Phase::Start))),
            Platform::Windows => Err(EffectOf::ServiceStart),
        },
        EffectOf::ServiceStop => match platform {
            Platform::MacOs => Ok(TaskOf::Launchd(LaunchdTaskOf::Stop(Phase::Start))),
            Platform::Linux => Ok(TaskOf::Systemd(SystemdTaskOf::Stop(Phase::Start))),
            Platform::Windows => Err(EffectOf::ServiceStop),
        },
        EffectOf::ServiceRestart => match platform {
            Platform::MacOs => Ok(TaskOf::Launchd(LaunchdTaskOf::Restart(Phase::Start))),
            Platform::Linux => Ok(TaskOf::Systemd(SystemdTaskOf::Restart(Phase::Start))),
            Platform::Windows => Err(EffectOf::ServiceRestart),
        },
        EffectOf::SetAutostart(enabled) => match platform {
            Platform::MacOs => Ok(
                TaskOf::Launchd(LaunchdTaskOf::SetAutostart(enabled, Phase::Start)),
            ),
            Platform::Linux => Ok(
                TaskOf::Systemd(SystemdTaskOf::SetAutostart(enabled, Phase::Start)),
            ),
            Platform::Windows => Err(EffectOf::SetAutostart(enabled)),
        },
        EffectOf::OpenDshUi => Ok(
            TaskOf::Desktop(DesktopTaskOf::OpenDshUi(Opening::Start)),
        ),
        other => Err(other),
    }
}

// ---- the stack ----

/// An operation on the stack, over tasks `K` and lists of effects `Q`.
#[derive(Debug, PartialEq, Eq)]
pub struct FrameOf<K, Q> {
    /// The operation and its state.
    pub task: K,
    /// What it has asked for and what has not been begun yet, in order.
    pub pending: Q,
}

/// An operation on the stack.
pub type Frame = FrameOf<Task, Vec<Effect>>;

/// An operation on the stack as the contracts speak of it.
pub type FrameView = FrameOf<TaskView, Seq<EffectView>>;

impl FrameOf<Task, Vec<Effect>> {
    pub open spec fn view(&self) -> FrameView {
        FrameOf { task: self.task@, pending: shown(self.pending@) }
    }
}

/// The views of a stack.
pub open spec fn frames(stack: Seq<Frame>) -> Seq<FrameView> {
    stack.map_values(|f: Frame| f@)
}

/// What comes next, over effects `F` and answers `R`.
#[derive(Debug, PartialEq, Eq)]
pub enum NextOf<F, R> {
    /// The surroundings carry this out, and their answer goes into the next step.
    Do(F),
    /// This goes into the next step.
    Go(R),
    /// All has ended with this answer.
    Done(R),
}

/// What comes next.
pub type Next = NextOf<Effect, Reply>;

/// What comes next as the contracts speak of it.
pub type NextView = NextOf<EffectView, ReplyView>;

impl NextOf<Effect, Reply> {
    pub open spec fn view(&self) -> NextView {
        match *self {
            NextOf::Do(e) => NextOf::Do(e@),
            NextOf::Go(r) => NextOf::Go(r@),
            NextOf::Done(r) => NextOf::Done(r@),
        }
    }
}

/// One step of the operations on the stack. What the uppermost one has asked for is begun, one
/// after the other; then its end answers the one below, or it takes a step with the last answer.
pub open spec fn stack_step(world: World, stack: Seq<FrameView>, reply: ReplyView) -> (
    Seq<FrameView>,
    NextView,
) {
    if stack.len() == 0 {
        (stack, NextOf::Done(reply))
    } else {
        let top = stack.last();
        let below = stack.drop_last();
        if top.pending.len() > 0 {
            let effect = top.pending[0];
            let waiting = below.push(
                FrameOf { task: top.task, pending: top.pending.drop_first() },
            );
            match begun(world.platform, effect) {
                Some(task) => (
                    waiting.push(FrameOf { task, pending: Seq::empty() }),
                    NextOf::Go(ReplyOf::Nothing),
                ),
                None => (waiting, NextOf::Do(effect)),
            }
        } else {
            match task_answer(top.task) {
                Some(r) => if below.len() == 0 {
                    (below, NextOf::Done(r))
                } else {
                    (below, NextOf::Go(r))
                },
                None => {
                    let (task, pending) = task_step(world, top.task, reply);
                    (below.push(FrameOf { task, pending }), NextOf::Go(ReplyOf::Nothing))
                },
            }
        }
    }
}

/// A stack that holds only the operation `task`.
pub fn stack_of(task: Task) -> (r: Vec<Frame>)
    ensures
        frames(r@) == seq![FrameView { task: task@, pending: Seq::empty() }],
{
    let mut stack: Vec<Frame> = Vec::new();
    let pending: Vec<Effect> = Vec::new();
    assert(shown(pending@) =~= Seq::<EffectView>::empty());
    stack.push(FrameOf { task, pending });
    assert(frames(stack@) =~= seq![FrameView { task: task@, pending: Seq::empty() }]);
    stack
}

/// One step of the operations on the stack. `reply` is the answer to what came last.
pub fn advance(world: &World, stack: &mut Vec<Frame>, reply: Reply) -> (r: Next)
    requires
        world.now + WINDOW_SIZE_SAVE_DELAY <= u64::MAX,
    ensures
        (frames(final(stack)@), r@) == stack_step(*world, frames(old(stack)@), reply@),
{
    let ghost whole = stack_step(*world, frames(old(stack)@), reply@);
    match stack.pop() {
        None => {
            assert(frames(stack@) =~= whole.0);
            NextOf::Done(reply)
        },
        Some(frame) => {
            let ghost below = frames(old(stack)@).drop_last();
            assert(frames(stack@) =~= below);
            assert(frames(old(stack)@).last() == frame@);
            let FrameOf { task, pending } = frame;
            let mut pending = pending;
            if pending.len() > 0 {
                let ghost all = shown(pending@);
                let effect = pending.remove(0);
                assert(shown(pending@) =~= all.drop_first());
                assert(effect@ == all[0]);
                stack.push(FrameOf { task, pending });
                let ghost waiting = frames(stack@);
                assert(waiting =~= below.push(FrameOf { task: task@, pending: all.drop_first() }));
                match begin(world.platform, effect) {
                    Ok(inner) => {
                        let none: Vec<Effect> = Vec::new();
                        assert(shown(none@) =~= Seq::<EffectView>::empty());
                        stack.push(FrameOf { task: inner, pending: none });
                        assert(frames(stack@) =~= whole.0);
                        NextOf::Go(ReplyOf::Nothing)
                    },
                    Err(e) => NextOf::Do(e),
                }
            } else {
                match answer(task) {
                    Ok(r) => if stack.len() == 0 {
                        NextOf::Done(r)
                    } else {
                        NextOf::Go(r)
                    },
                    Err(t) => {
                        let (next, effects) = step(world, t, reply);
                        stack.push(FrameOf { task: next, pending: effects });
                        assert(frames(stack@) =~= whole.0);
                        NextOf::Go(ReplyOf::Nothing)
                    },
                }
            }
        },
    }
}

} // verus!

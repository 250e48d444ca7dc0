//! Every operation comes to an end, and until then it waits for an answer.
//!
//! For each operation there is a number that every step lowers and that is zero exactly when the
//! operation has ended. A step that does not end the operation asks for something, so that there
//! is an answer for the next one. A step after the end changes nothing and asks for nothing.

use vstd::prelude::*;

use crate::commands::logged_step;
use crate::commands::LoggedOf;
use crate::commands::LoggedView;
use crate::definition::RenderOf;
use crate::definition::RenderView;
use crate::effect::EffectView;
use crate::effect::Phase;
use crate::effect::Query;
use crate::effect::ReplyView;
use crate::launcher::setup_step;
use crate::launcher::SetupOf;
use crate::launcher::SetupView;
use crate::linux_service;
use crate::linux_service::LinuxService;
use crate::locations::Platform;
use crate::macos_service;
use crate::macos_service::MacService;
use crate::programs::node_step;
use crate::programs::program_step;
use crate::programs::which_step;
use crate::programs::NodeSearchOf;
use crate::programs::NodeSearchView;
use crate::programs::ProgramSearchOf;
use crate::programs::ProgramSearchView;
use crate::programs::WhichOf;
use crate::programs::WhichView;
use crate::search::env_step;
use crate::search::EnvSearchOf;
use crate::search::EnvSearchView;
use crate::tray::menu_step;
use crate::tray::Choice;
use crate::window::load_step;
use crate::window::open_step;
use crate::window::save_step;
use crate::window::startup_step;
use crate::window::LoadingOf;
use crate::window::LoadingView;
use crate::window::Opening;
use crate::window::Saving;
use crate::window::Waiting;

verus! {

/// What a step does to the answers that an operation still takes: `before` and `after` are their
/// numbers, and `effects` is what the step asks for.
pub open spec fn winds_down(before: int, after: int, effects: Seq<EffectView>) -> bool {
    &&& 0 <= after <= before
    &&& before > 0 ==> after < before
    &&& before == 0 ==> effects.len() == 0
    &&& after > 0 ==> effects.len() > 0
}

/// The steps that a query takes at most.
pub open spec fn query_rank(state: Query) -> int {
    match state {
        Query::Start => 3,
        Query::Waiting => 2,
        Query::Asking => 1,
        Query::Ended(_) => 0,
    }
}

/// The steps that an operation on the service takes at most.
pub open spec fn phase_rank(state: Phase) -> int {
    match state {
        Phase::Start => 3,
        Phase::Defining => 2,
        Phase::Checking => 1,
        Phase::Ended => 0,
    }
}

/// The steps that the making of a definition takes at most.
pub open spec fn render_rank(state: RenderView) -> int {
    match state {
        RenderOf::Start => 3,
        RenderOf::Program => 2,
        RenderOf::Env(_) => 1,
        RenderOf::Ended(_) => 0,
    }
}

/// Queries about the service end.
pub proof fn law_queries_end(mac: MacService, linux: LinuxService, state: Query, reply: ReplyView)
    ensures
        ({
            let (next, effects) = macos_service::running_step(mac, state, reply);
            winds_down(query_rank(state), query_rank(next), effects)
        }),
        ({
            let (next, effects) = macos_service::autostart_step(mac, state, reply);
            winds_down(query_rank(state), query_rank(next), effects)
        }),
        ({
            let (next, effects) = linux_service::running_step(state, reply);
            winds_down(query_rank(state), query_rank(next), effects)
        }),
        ({
            let (next, effects) = linux_service::autostart_step(linux, state, reply);
            winds_down(query_rank(state), query_rank(next), effects)
        }),
{
}

/// Starting, stopping, restarting and choosing about login end under launchd.
pub proof fn law_launchd_operations_end(
    mac: MacService,
    enabled: bool,
    state: Phase,
    reply: ReplyView,
)
    ensures
        ({
            let (next, effects) = macos_service::start_step(mac, state, reply);
            winds_down(phase_rank(state), phase_rank(next), effects)
        }),
        ({
            let (next, effects) = macos_service::stop_step(mac, state, reply);
            winds_down(phase_rank(state), phase_rank(next), effects)
        }),
        ({
            let (next, effects) = macos_service::restart_step(mac, state, reply);
            winds_down(phase_rank(state), phase_rank(next), effects)
        }),
        ({
            let (next, effects) = macos_service::set_autostart_step(mac, enabled, state, reply);
            winds_down(phase_rank(state), phase_rank(next), effects)
        }),
{
}

/// Starting, stopping, restarting and choosing about login end under systemd.
pub proof fn law_systemd_operations_end(enabled: bool, state: Phase, reply: ReplyView)
    ensures
        ({
            let (next, effects) = linux_service::start_step(state, reply);
            winds_down(phase_rank(state), phase_rank(next), effects)
        }),
        ({
            let (next, effects) = linux_service::stop_step(state);
            winds_down(phase_rank(state), phase_rank(next), effects)
        }),
        ({
            let (next, effects) = linux_service::restart_step(state, reply);
            winds_down(phase_rank(state), phase_rank(next), effects)
        }),
        ({
            let (next, effects) = linux_service::set_autostart_step(enabled, state, reply);
            winds_down(phase_rank(state), phase_rank(next), effects)
        }),
{
}

/// The making of a definition ends.
pub proof fn law_making_ends(
    mac: MacService,
    linux: LinuxService,
    run_at_load: bool,
    keep_alive: bool,
    state: RenderView,
    reply: ReplyView,
)
    ensures
        ({
            let (next, effects) = macos_service::xml_step(
                mac,
                run_at_load,
                keep_alive,
                state,
                reply,
            );
            winds_down(render_rank(state), render_rank(next), effects)
        }),
        ({
            let (next, effects) = linux_service::content_step(linux, state, reply);
            winds_down(render_rank(state), render_rank(next), effects)
        }),
{
}

/// The steps that the writing of a launchd definition takes at most.
pub open spec fn plist_write_rank(state: macos_service::WriteView) -> int {
    match state {
        macos_service::WriteOf::Start => 4,
        macos_service::WriteOf::Directory => 3,
        macos_service::WriteOf::Text => 2,
        macos_service::WriteOf::File(_) => 1,
        macos_service::WriteOf::Ended(_) => 0,
    }
}

/// The steps that turning the restart switch off takes at most.
pub open spec fn rewrite_rank(state: macos_service::RewriteView) -> int {
    match state {
        macos_service::RewriteOf::Start => 3,
        macos_service::RewriteOf::Reading => 2,
        macos_service::RewriteOf::Writing => 1,
        macos_service::RewriteOf::Ended(_) => 0,
    }
}

/// The steps that seeing to a launchd definition takes at most.
pub open spec fn plist_ensure_rank(state: macos_service::EnsureView) -> int {
    match state {
        macos_service::EnsureOf::Start => 8,
        macos_service::EnsureOf::Looking => 7,
        macos_service::EnsureOf::NewDirectory => 3,
        macos_service::EnsureOf::NewText => 2,
        macos_service::EnsureOf::NewFile(_) => 1,
        macos_service::EnsureOf::Inspecting => 6,
        macos_service::EnsureOf::OldLogin => 5,
        macos_service::EnsureOf::OldAlive(_) => 4,
        macos_service::EnsureOf::OldText => 3,
        macos_service::EnsureOf::OldFile => 2,
        macos_service::EnsureOf::Reloaded => 1,
        macos_service::EnsureOf::Ended(_) => 0,
    }
}

/// Writing, rewriting and seeing to a launchd definition end.
pub proof fn law_plist_writing_ends(
    mac: MacService,
    run_at_load: bool,
    write: macos_service::WriteView,
    rewrite: macos_service::RewriteView,
    ensure: macos_service::EnsureView,
    reply: ReplyView,
)
    ensures
        ({
            let (next, effects) = macos_service::write_step(mac, run_at_load, write, reply);
            winds_down(plist_write_rank(write), plist_write_rank(next), effects)
        }),
        ({
            let (next, effects) = macos_service::off_step(mac, rewrite, reply);
            winds_down(rewrite_rank(rewrite), rewrite_rank(next), effects)
        }),
        ({
            let (next, effects) = macos_service::ensure_step(mac, ensure, reply);
            winds_down(plist_ensure_rank(ensure), plist_ensure_rank(next), effects)
        }),
{
}

/// The steps that the writing of a unit takes at most.
pub open spec fn unit_write_rank(state: linux_service::WriteView) -> int {
    match state {
        linux_service::WriteOf::Start => 4,
        linux_service::WriteOf::Directory => 3,
        linux_service::WriteOf::Text => 2,
        linux_service::WriteOf::File => 1,
        linux_service::WriteOf::Ended(_) => 0,
    }
}

/// The steps that seeing to a unit takes at most.
pub open spec fn unit_ensure_rank(state: linux_service::EnsureView) -> int {
    match state {
        linux_service::EnsureOf::Start => 5,
        linux_service::EnsureOf::Looking => 4,
        linux_service::EnsureOf::New => 1,
        linux_service::EnsureOf::Inspecting => 3,
        linux_service::EnsureOf::Old => 2,
        linux_service::EnsureOf::Reloaded => 1,
        linux_service::EnsureOf::Ended(_) => 0,
    }
}

/// Writing and seeing to a unit end.
pub proof fn law_unit_writing_ends(
    linux: LinuxService,
    enabled: bool,
    write: linux_service::WriteView,
    ensure: linux_service::EnsureView,
    reply: ReplyView,
)
    ensures
        ({
            let (next, effects) = linux_service::write_step(linux, enabled, write, reply);
            winds_down(unit_write_rank(write), unit_write_rank(next), effects)
        }),
        ({
            let (next, effects) = linux_service::ensure_step(linux, ensure, reply);
            winds_down(unit_ensure_rank(ensure), unit_ensure_rank(next), effects)
        }),
{
}

/// The steps that a search everywhere takes at most.
pub open spec fn which_rank(state: WhichView) -> int {
    match state {
        WhichOf::Start => 3,
        WhichOf::Shells => 2,
        WhichOf::Places => 1,
        WhichOf::Ended(_) => 0,
    }
}

/// The steps that the search for node takes at most.
pub open spec fn node_rank(state: NodeSearchView) -> int {
    match state {
        NodeSearchOf::Start => 3,
        NodeSearchOf::Beside(_) => 2,
        NodeSearchOf::Anywhere => 1,
        NodeSearchOf::Ended(_) => 0,
    }
}

/// The steps that the making of the command line takes at most.
pub open spec fn program_rank(state: ProgramSearchView) -> int {
    match state {
        ProgramSearchOf::Start => 3,
        ProgramSearchOf::Dsh => 2,
        ProgramSearchOf::Node(_) => 1,
        ProgramSearchOf::Ended(_) => 0,
    }
}

/// The steps that the making of the environment takes at most.
pub open spec fn env_rank(state: EnvSearchView) -> int {
    match state {
        EnvSearchOf::Start => 2,
        EnvSearchOf::Waiting => 1,
        EnvSearchOf::Ended(_) => 0,
    }
}

/// The searches that lead to the command line and to the environment end.
pub proof fn law_searches_end(
    name: Seq<char>,
    dsh: Seq<u8>,
    own: Option<Seq<char>>,
    which: WhichView,
    node: NodeSearchView,
    program: ProgramSearchView,
    env: EnvSearchView,
    reply: ReplyView,
)
    ensures
        ({
            let (next, effects) = which_step(name, which, reply);
            winds_down(which_rank(which), which_rank(next), effects)
        }),
        ({
            let (next, effects) = node_step(dsh, node, reply);
            winds_down(node_rank(node), node_rank(next), effects)
        }),
        ({
            let (next, effects) = program_step(program, reply);
            winds_down(program_rank(program), program_rank(next), effects)
        }),
        ({
            let (next, effects) = env_step(own, env, reply);
            winds_down(env_rank(env), env_rank(next), effects)
        }),
{
}

/// The steps that a logged command takes at most.
pub open spec fn logged_rank(state: LoggedView) -> int {
    match state {
        LoggedOf::Start => 2,
        LoggedOf::Running => 1,
        LoggedOf::Ended(_) => 0,
    }
}

/// Logged commands end.
pub proof fn law_logged_commands_end(
    line: Seq<char>,
    program: Seq<char>,
    args: Seq<Seq<char>>,
    state: LoggedView,
    reply: ReplyView,
)
    ensures
        ({
            let (next, effects) = logged_step(line, program, args, state, reply);
            winds_down(logged_rank(state), logged_rank(next), effects)
        }),
{
}

/// The steps that opening the window takes at most.
pub open spec fn opening_rank(state: Opening) -> int {
    match state {
        Opening::Start => 3,
        Opening::Looking => 2,
        Opening::Making { .. } => 1,
        Opening::Ended => 0,
    }
}

/// The steps that remembering a size takes at most.
pub open spec fn saving_rank(state: Saving) -> int {
    match state {
        Saving::Start => 3,
        Saving::Directory => 2,
        Saving::File => 1,
        Saving::Ended => 0,
    }
}

/// The steps that looking up a size takes at most.
pub open spec fn loading_rank(state: LoadingView) -> int {
    match state {
        LoadingOf::Start => 2,
        LoadingOf::Reading => 1,
        LoadingOf::Ended(_) => 0,
    }
}

/// The steps that a menu choice takes at most.
pub open spec fn choice_rank(state: Choice) -> int {
    match state {
        Choice::Start => 2,
        Choice::Log => 1,
        Choice::Ended => 0,
    }
}

/// The steps that the launcher's coming up takes at most.
pub open spec fn setup_rank(state: SetupView) -> int {
    match state {
        SetupOf::Start => 6,
        SetupOf::Autostart => 5,
        SetupOf::Definition => 4,
        SetupOf::Probing => 3,
        SetupOf::Menu => 2,
        SetupOf::Tray => 1,
        SetupOf::Ended(_) => 0,
    }
}

/// Opening the window, remembering and looking up a size, a menu choice and the launcher's
/// coming up end.
pub proof fn law_desktop_operations_end(
    platform: Platform,
    now: u64,
    opening: Opening,
    saving: Saving,
    choice: Choice,
    setup: SetupView,
    loading: LoadingView,
    dir: Option<Seq<u8>>,
    path: Seq<u8>,
    valid: bool,
    raw: Result<Seq<char>, Seq<char>>,
    id: Seq<char>,
    autostart: bool,
    reply: ReplyView,
)
    ensures
        ({
            let (next, effects) = open_step(platform, now, opening, reply);
            winds_down(opening_rank(opening), opening_rank(next), effects)
        }),
        ({
            let (next, effects) = save_step(dir, path, valid, raw, saving, reply);
            winds_down(saving_rank(saving), saving_rank(next), effects)
        }),
        ({
            let (next, effects) = load_step(path, loading, reply);
            winds_down(loading_rank(loading), loading_rank(next), effects)
        }),
        ({
            let (next, effects) = menu_step(platform, id, autostart, path, choice, reply);
            winds_down(choice_rank(choice), choice_rank(next), effects)
        }),
        ({
            let (next, effects) = setup_step(platform, setup, reply);
            winds_down(setup_rank(setup), setup_rank(next), effects)
        }),
{
}

/// The steps that opening the window at startup takes at most once its time is over.
pub open spec fn waiting_rank(state: Waiting) -> int {
    match state {
        Waiting::Start => 4,
        Waiting::Polling { .. } => 3,
        Waiting::Last => 2,
        Waiting::Opening => 1,
        Waiting::Ended => 0,
    }
}

/// Opening the window at startup ends once the service answers or the time is over, and always
/// waits for an answer until then.
pub proof fn law_waiting_ends(now: u64, state: Waiting, reply: ReplyView)
    ensures
        ({
            let (next, effects) = startup_step(now, state, reply);
            &&& waiting_rank(next) > 0 ==> effects.len() > 0
            &&& waiting_rank(next) <= waiting_rank(state)
            &&& (state matches Waiting::Polling { deadline } ==> now >= deadline
                || crate::effect::yes(reply)) ==> winds_down(
                waiting_rank(state),
                waiting_rank(next),
                effects,
            )
        }),
{
}

} // verus!

//! What holds through whole runs of operations that call each other, whatever the surroundings
//! answer.

use vstd::prelude::*;

use crate::calls::begun;
use crate::calls::desktop_step;
use crate::calls::launchd_step;
use crate::calls::search_step;
use crate::calls::stack_step;
use crate::calls::systemd_step;
use crate::calls::task_answer;
use crate::calls::task_step;
use crate::calls::DesktopTaskOf;
use crate::calls::DesktopTaskView;
use crate::calls::FrameView;
use crate::calls::LaunchdTaskOf;
use crate::calls::LaunchdTaskView;
use crate::calls::NextOf;
use crate::calls::SearchTaskOf;
use crate::calls::SearchTaskView;
use crate::calls::SystemdTaskOf;
use crate::calls::SystemdTaskView;
use crate::calls::TaskOf;
use crate::calls::TaskView;
use crate::calls::World;
use crate::definition::RenderOf;
use crate::definition::RenderView;
use crate::effect::EffectOf;
use crate::effect::EffectView;
use crate::effect::Query;
use crate::effect::ReplyOf;
use crate::effect::ReplyView;
use crate::launcher::SetupOf;
use crate::linux_service;
use crate::linux_service::all_quoted;
use crate::linux_service::law_unit_sets_path;
use crate::linux_service::sets_path;
use crate::linux_service::unit;
use crate::locations::home_path;
use crate::locations::Platform;
use crate::macos_service;
use crate::macos_service::MacService;
use crate::native::decoded;
use crate::path::absolute;
use crate::plist::keeps_alive;
use crate::plist::plist;
use crate::plist::runs_at_load;
use crate::plist::sets_environment;
use crate::plist::without_keepalive;
use crate::plist_laws::law_keepalive_off_keeps_the_rest;
use crate::plist_laws::law_keepalive_off_stays_off;
use crate::plist_laws::law_plist_reads_back;
use crate::programs::command_line;
use crate::programs::later;
use crate::programs::place_search_step;
use crate::programs::try_version;
use crate::programs::PlaceSearchOf;
use crate::programs::PlaceSearchView;
use crate::programs::ProgramSearchOf;
use crate::programs::VersionView;
use crate::search::service_variables;
use crate::search::EnvSearchOf;
use crate::search::ShellSearchOf;
use crate::search_laws::looks_at_absolute;
use crate::tray::Choice;

verus! {

// ---- what the launcher makes ----

/// Whether a command line is one of node, dsh and the words behind them.
pub open spec fn is_command(words: Seq<Seq<char>>) -> bool {
    exists|node: Seq<char>, dsh: Seq<char>| words == #[trigger] command_line(node, dsh)
}

/// Whether an environment is a search path and the terminal.
pub open spec fn is_environment(vars: Seq<(Seq<char>, Seq<char>)>) -> bool {
    exists|path: Seq<char>| vars == #[trigger] service_variables(path)
}

/// Whether a text is the launchd definition for some command line and environment of the
/// launcher, with these two switches.
pub open spec fn is_definition(xml: Seq<char>, run_at_load: bool, keep_alive: bool) -> bool {
    exists|words: Seq<Seq<char>>, path: Seq<char>, log: Seq<char>|
        is_command(words) && xml == #[trigger] plist(
            words,
            service_variables(path),
            run_at_load,
            keep_alive,
            log,
        )
}

/// Whether a text is the unit for some command line and environment of the launcher.
pub open spec fn is_unit(text: Seq<char>) -> bool {
    exists|words: Seq<Seq<char>>, path: Seq<char>, log: Seq<char>|
        is_command(words) && text == #[trigger] unit(
            all_quoted(words),
            service_variables(path),
            log,
        )
}

/// A definition of the launcher reads back as it was made.
pub proof fn law_definition_reads_back(xml: Seq<char>, run_at_load: bool, keep_alive: bool)
    requires
        is_definition(xml, run_at_load, keep_alive),
    ensures
        runs_at_load(Some(xml)) == run_at_load,
        keeps_alive(Some(xml)) == keep_alive,
        sets_environment(Some(xml)),
{
    let (words, path, log) = choose|words: Seq<Seq<char>>, path: Seq<char>, log: Seq<char>|
        is_command(words) && xml == #[trigger] plist(
            words,
            service_variables(path),
            run_at_load,
            keep_alive,
            log,
        );
    law_plist_reads_back(words, path, run_at_load, keep_alive, log);
}

/// A definition of the launcher tells about login what it was made with, is not made anew, and
/// can be turned off, which leaves its start-at-login switch as it was.
pub proof fn law_definition_serves(
    mac: MacService,
    xml: Seq<char>,
    run_at_load: bool,
    keep_alive: bool,
)
    requires
        is_definition(xml, run_at_load, keep_alive),
    ensures
        macos_service::autostart_step(mac, Query::Waiting, ReplyOf::Text(Ok(xml))).0
            == Query::Ended(run_at_load),
        macos_service::ensure_step(
            mac,
            macos_service::EnsureOf::Inspecting,
            ReplyOf::Text(Ok(xml)),
        ) == (macos_service::EnsureView::Ended(Ok(())), Seq::<EffectView>::empty()),
        without_keepalive(xml) matches Ok(off) && !keeps_alive(Some(off)) && runs_at_load(Some(off))
            == run_at_load,
{
    law_definition_reads_back(xml, run_at_load, keep_alive);
    let (words, path, log) = choose|words: Seq<Seq<char>>, path: Seq<char>, log: Seq<char>|
        is_command(words) && xml == #[trigger] plist(
            words,
            service_variables(path),
            run_at_load,
            keep_alive,
            log,
        );
    law_keepalive_off_keeps_the_rest(words, path, run_at_load, keep_alive, log);
}

/// A unit of the launcher hands the service a search path.
pub proof fn law_unit_reads_back(text: Seq<char>)
    requires
        is_unit(text),
    ensures
        sets_path(text),
{
    let (words, path, log) = choose|words: Seq<Seq<char>>, path: Seq<char>, log: Seq<char>|
        is_command(words) && text == #[trigger] unit(
            all_quoted(words),
            service_variables(path),
            log,
        );
    law_unit_sets_path(all_quoted(words), path, log);
}

// ---- answers ----

/// What the operation that an effect names answers, if it answers at all: the text that making a
/// definition ends in is one with the switches that were asked for, and so on.
pub open spec fn honest(effect: EffectView, reply: ReplyView) -> bool {
    match effect {
        EffectOf::ServiceEnv => reply matches ReplyOf::Env(v) ==> is_environment(v),
        EffectOf::DshProgram => reply matches ReplyOf::Program(Ok(words)) ==> is_command(words),
        EffectOf::WhichFromLoginShell(_) => reply matches ReplyOf::Found(Some(p)) ==> absolute(p),
        EffectOf::PlistXml { run_at_load, keep_alive } => reply matches ReplyOf::Text(Ok(xml))
            ==> is_definition(xml, run_at_load, keep_alive),
        EffectOf::UnitContent { .. } => reply matches ReplyOf::Text(Ok(text)) ==> is_unit(text),
        _ => true,
    }
}

/// The same by the operation itself.
pub open spec fn told(task: TaskView, reply: ReplyView) -> bool {
    match task {
        TaskOf::Search(SearchTaskOf::ServiceEnv(_)) => honest(EffectOf::ServiceEnv, reply),
        TaskOf::Search(SearchTaskOf::DshProgram(_)) => honest(EffectOf::DshProgram, reply),
        TaskOf::Search(SearchTaskOf::WhichFromLoginShell(name, _)) => honest(
            EffectOf::WhichFromLoginShell(name),
            reply,
        ),
        TaskOf::Launchd(LaunchdTaskOf::PlistXml(run_at_load, keep_alive, _)) => honest(
            EffectOf::PlistXml { run_at_load, keep_alive },
            reply,
        ),
        TaskOf::Systemd(SystemdTaskOf::UnitContent(enabled, _)) => honest(
            EffectOf::UnitContent { enabled },
            reply,
        ),
        _ => true,
    }
}

/// What the next answer is, for an operation that has asked for it.
pub open spec fn expects(task: TaskView, reply: ReplyView) -> bool {
    match task {
        TaskOf::Launchd(LaunchdTaskOf::PlistXml(_, _, RenderOf::Program)) => honest(
            EffectOf::DshProgram,
            reply,
        ),
        TaskOf::Launchd(LaunchdTaskOf::PlistXml(_, _, RenderOf::Env(_))) => honest(
            EffectOf::ServiceEnv,
            reply,
        ),
        TaskOf::Systemd(SystemdTaskOf::UnitContent(_, RenderOf::Program)) => honest(
            EffectOf::DshProgram,
            reply,
        ),
        TaskOf::Systemd(SystemdTaskOf::UnitContent(_, RenderOf::Env(_))) => honest(
            EffectOf::ServiceEnv,
            reply,
        ),
        TaskOf::Launchd(LaunchdTaskOf::WritePlist(run_at_load, macos_service::WriteOf::Text)) =>
        honest(EffectOf::PlistXml { run_at_load, keep_alive: true }, reply),
        TaskOf::Launchd(LaunchdTaskOf::Ensure(macos_service::EnsureOf::NewText)) => (
        reply matches ReplyOf::Text(Ok(xml)) ==> exists|login: bool| #[trigger]
            is_definition(xml, login, true)),
        TaskOf::Launchd(LaunchdTaskOf::Ensure(macos_service::EnsureOf::OldText)) => (
        reply matches ReplyOf::Text(Ok(xml)) ==> exists|login: bool, alive: bool| #[trigger]
            is_definition(xml, login, alive)),
        TaskOf::Systemd(SystemdTaskOf::WriteUnit(_, linux_service::WriteOf::Text)) => (
        reply matches ReplyOf::Text(Ok(text)) ==> is_unit(text)),
        _ => true,
    }
}

/// What holds of an operation in its state.
pub open spec fn sound(task: TaskView) -> bool {
    match task {
        TaskOf::Search(SearchTaskOf::ServiceEnv(EnvSearchOf::Ended(v))) => is_environment(v),
        TaskOf::Search(SearchTaskOf::DshProgram(ProgramSearchOf::Ended(Ok(words)))) => is_command(
            words,
        ),
        TaskOf::Search(SearchTaskOf::WhichFromLoginShell(_, s)) => looks_at_absolute(s) && (
        s matches ShellSearchOf::Ended(Some(p)) ==> absolute(p)),
        TaskOf::Launchd(LaunchdTaskOf::PlistXml(_, _, RenderOf::Env(words))) => is_command(words),
        TaskOf::Launchd(
            LaunchdTaskOf::PlistXml(run_at_load, keep_alive, RenderOf::Ended(Ok(xml))),
        ) => is_definition(xml, run_at_load, keep_alive),
        TaskOf::Systemd(SystemdTaskOf::UnitContent(_, RenderOf::Env(words))) => is_command(words),
        TaskOf::Systemd(SystemdTaskOf::UnitContent(_, RenderOf::Ended(Ok(text)))) => is_unit(text),
        _ => true,
    }
}

/// What an operation writes, if an effect is a writing: a definition with the switches that it
/// was asked for, one that keeps a stopped service stopped, a unit, or an empty log file.
pub open spec fn writes_well(task: TaskView, effect: EffectView) -> bool {
    effect matches EffectOf::WriteText { path, text } ==> match task {
        TaskOf::Launchd(LaunchdTaskOf::WritePlist(run_at_load, _)) => is_definition(
            text,
            run_at_load,
            true,
        ),
        TaskOf::Launchd(LaunchdTaskOf::Ensure(_)) => exists|login: bool, alive: bool| #[trigger]
            is_definition(text, login, alive),
        TaskOf::Launchd(LaunchdTaskOf::WritePlistKeepaliveOff(_)) => !keeps_alive(Some(text)),
        TaskOf::Systemd(SystemdTaskOf::WriteUnit(_, _)) => is_unit(text),
        TaskOf::Desktop(DesktopTaskOf::Menu(_, _)) => text.len() == 0,
        _ => false,
    }
}

/// Whether every answer to an effect is one that the operation expects.
pub open spec fn leads_to(effect: EffectView, task: TaskView) -> bool {
    forall|r: ReplyView| honest(effect, r) ==> #[trigger] expects(task, r)
}

/// What a step does: it keeps an operation sound, and whatever it asks for is written well and
/// leads to an answer that is expected.
pub open spec fn steps_well(before: TaskView, after: TaskView, effects: Seq<EffectView>) -> bool {
    &&& sound(after)
    &&& forall|r: ReplyView| #[trigger] told(after, r) == told(before, r)
    &&& forall|i: int| 0 <= i < effects.len() ==> writes_well(after, #[trigger] effects[i])
    &&& effects.len() > 0 ==> leads_to(effects.last(), after)
    &&& expects(after, ReplyOf::Nothing)
}

proof fn lemma_search_steps_well(world: World, task: SearchTaskView, reply: ReplyView)
    requires
        sound(TaskOf::Search(task)),
    ensures
        ({
            let (next, effects) = search_step(world, task, reply);
            steps_well(TaskOf::Search(task), TaskOf::Search(next), effects)
        }),
{
    reveal(search_step);
}

proof fn lemma_making_steps_well(world: World, task: LaunchdTaskView, reply: ReplyView)
    requires
        task is PlistXml,
        sound(TaskOf::Launchd(task)),
        expects(TaskOf::Launchd(task), reply),
    ensures
        ({
            let (next, effects) = launchd_step(world, task, reply);
            steps_well(TaskOf::Launchd(task), TaskOf::Launchd(next), effects)
        }),
{
    reveal(launchd_step);
}

proof fn lemma_writing_steps_well(world: World, task: LaunchdTaskView, reply: ReplyView)
    requires
        task is WritePlist,
        sound(TaskOf::Launchd(task)),
        expects(TaskOf::Launchd(task), reply),
    ensures
        ({
            let (next, effects) = launchd_step(world, task, reply);
            steps_well(TaskOf::Launchd(task), TaskOf::Launchd(next), effects)
        }),
{
    reveal(launchd_step);
}

proof fn lemma_turning_off_steps_well(world: World, task: LaunchdTaskView, reply: ReplyView)
    requires
        task is WritePlistKeepaliveOff,
        sound(TaskOf::Launchd(task)),
        expects(TaskOf::Launchd(task), reply),
    ensures
        ({
            let (next, effects) = launchd_step(world, task, reply);
            steps_well(TaskOf::Launchd(task), TaskOf::Launchd(next), effects)
        }),
{
    reveal(launchd_step);
    match reply {
        ReplyOf::Text(Ok(xml)) => if without_keepalive(xml) is Ok {
            law_keepalive_off_stays_off(xml);
        },
        _ => {},
    }
}

/// A making of a definition leads to the text that seeing to the definition expects.
proof fn lemma_making_leads_to_text(login: bool, alive: bool)
    ensures
        leads_to(
            EffectOf::PlistXml { run_at_load: login, keep_alive: true },
            TaskOf::Launchd(LaunchdTaskOf::Ensure(macos_service::EnsureOf::NewText)),
        ),
        leads_to(
            EffectOf::PlistXml { run_at_load: login, keep_alive: alive },
            TaskOf::Launchd(LaunchdTaskOf::Ensure(macos_service::EnsureOf::OldText)),
        ),
{
}

/// An operation that expects nothing in particular is led to by everything.
proof fn lemma_all_lead_to_open_tasks(effect: EffectView, s: macos_service::EnsureView)
    requires
        s !is NewText,
        s !is OldText,
    ensures
        leads_to(effect, TaskOf::Launchd(LaunchdTaskOf::Ensure(s))),
        expects(TaskOf::Launchd(LaunchdTaskOf::Ensure(s)), ReplyOf::Nothing),
{
}

proof fn lemma_ensuring_steps_well(
    world: World,
    s: macos_service::EnsureView,
    reply: ReplyView,
)
    requires
        expects(TaskOf::Launchd(LaunchdTaskOf::Ensure(s)), reply),
    ensures
        ({
            let (next, effects) = macos_service::ensure_step(world.mac, s, reply);
            steps_well(
                TaskOf::Launchd(LaunchdTaskOf::Ensure(s)),
                TaskOf::Launchd(LaunchdTaskOf::Ensure(next)),
                effects,
            )
        }),
{
    let (next, effects) = macos_service::ensure_step(world.mac, s, reply);
    let after: TaskView = TaskOf::Launchd(LaunchdTaskOf::Ensure(next));
    lemma_making_leads_to_text(world.mac.autostart, true);
    match s {
        macos_service::EnsureOf::OldAlive(login) => {
            lemma_making_leads_to_text(login, keeps_alive(macos_service::readable_reply(reply)));
        },
        _ => {
            if next !is NewText && effects.len() > 0 {
                lemma_all_lead_to_open_tasks(effects.last(), next);
            }
        },
    }
    assert(effects.len() > 0 ==> leads_to(effects.last(), after));
    assert(expects(after, ReplyOf::Nothing));
    assert forall|i: int| 0 <= i < effects.len() implies writes_well(
        after,
        #[trigger] effects[i],
    ) by {
        match s {
            macos_service::EnsureOf::NewText => {
                let xml = effects[0]->WriteText_text;
                assert(reply == ReplyView::Text(Ok(xml)));
                let login = choose|login: bool| #[trigger] is_definition(xml, login, true);
                assert(is_definition(xml, login, true));
                assert(i == 0);
            },
            macos_service::EnsureOf::OldText => {
                let xml = effects[0]->WriteText_text;
                assert(reply == ReplyView::Text(Ok(xml)));
                assert(i == 0);
            },
            _ => {
                assert(effects[i] !is WriteText);
            },
        }
    }
}

proof fn lemma_launchd_queries_step_well(world: World, task: LaunchdTaskView, reply: ReplyView)
    requires
        task is Autostart || task is Running,
        sound(TaskOf::Launchd(task)),
        expects(TaskOf::Launchd(task), reply),
    ensures
        ({
            let (next, effects) = launchd_step(world, task, reply);
            steps_well(TaskOf::Launchd(task), TaskOf::Launchd(next), effects)
        }),
{
    reveal(launchd_step);
}

proof fn lemma_launchd_phases_step_well(world: World, task: LaunchdTaskView, reply: ReplyView)
    requires
        task is Start || task is Stop || task is Restart || task is SetAutostart,
        sound(TaskOf::Launchd(task)),
        expects(TaskOf::Launchd(task), reply),
    ensures
        ({
            let (next, effects) = launchd_step(world, task, reply);
            steps_well(TaskOf::Launchd(task), TaskOf::Launchd(next), effects)
        }),
{
    reveal(launchd_step);
}

proof fn lemma_launchd_steps_well(world: World, task: LaunchdTaskView, reply: ReplyView)
    requires
        sound(TaskOf::Launchd(task)),
        expects(TaskOf::Launchd(task), reply),
    ensures
        ({
            let (next, effects) = launchd_step(world, task, reply);
            steps_well(TaskOf::Launchd(task), TaskOf::Launchd(next), effects)
        }),
{
    match task {
        LaunchdTaskOf::PlistXml(_, _, _) => lemma_making_steps_well(world, task, reply),
        LaunchdTaskOf::WritePlist(_, _) => lemma_writing_steps_well(world, task, reply),
        LaunchdTaskOf::WritePlistKeepaliveOff(_) => lemma_turning_off_steps_well(
            world,
            task,
            reply,
        ),
        LaunchdTaskOf::Ensure(s) => {
            lemma_ensuring_steps_well(world, s, reply);
            reveal(launchd_step);
        },
        LaunchdTaskOf::Autostart(_) => lemma_launchd_queries_step_well(world, task, reply),
        LaunchdTaskOf::Running(_) => lemma_launchd_queries_step_well(world, task, reply),
        _ => lemma_launchd_phases_step_well(world, task, reply),
    }
}

proof fn lemma_systemd_steps_well(world: World, task: SystemdTaskView, reply: ReplyView)
    requires
        sound(TaskOf::Systemd(task)),
        expects(TaskOf::Systemd(task), reply),
    ensures
        ({
            let (next, effects) = systemd_step(world, task, reply);
            steps_well(TaskOf::Systemd(task), TaskOf::Systemd(next), effects)
        }),
{
    reveal(systemd_step);
}

proof fn lemma_desktop_steps_well(world: World, task: DesktopTaskView, reply: ReplyView)
    ensures
        ({
            let (next, effects) = desktop_step(world, task, reply);
            steps_well(TaskOf::Desktop(task), TaskOf::Desktop(next), effects)
        }),
{
    reveal(desktop_step);
    reveal_strlit("");
}

/// Every step of an operation whose last answer was one that it expects keeps it sound, and what
/// it asks for is written well and leads to an answer that it expects.
pub proof fn law_steps_keep_operations_sound(world: World, task: TaskView, reply: ReplyView)
    requires
        sound(task),
        expects(task, reply),
    ensures
        ({
            let (next, effects) = task_step(world, task, reply);
            steps_well(task, next, effects)
        }),
{
    match task {
        TaskOf::Search(t) => lemma_search_steps_well(world, t, reply),
        TaskOf::Launchd(t) => lemma_launchd_steps_well(world, t, reply),
        TaskOf::Systemd(t) => lemma_systemd_steps_well(world, t, reply),
        TaskOf::Desktop(t) => lemma_desktop_steps_well(world, t, reply),
    }
}

/// A sound operation that has ended answers as the effect that names it promises.
pub proof fn law_ended_operations_answer_honestly(task: TaskView, reply: ReplyView)
    requires
        sound(task),
        task_answer(task) == Some(reply),
    ensures
        told(task, reply),
{
}

/// The operation that an effect names is sound at its start, expects nothing yet, and answers
/// what the effect promises.
pub proof fn law_begun_operations_are_sound(platform: Platform, effect: EffectView)
    ensures
        begun(platform, effect) matches Some(task) ==> sound(task) && (forall|r: ReplyView|
            #[trigger] told(task, r) == honest(effect, r)) && (forall|r: ReplyView| #[trigger]
            expects(task, r)),
        begun(platform, effect) is None ==> forall|r: ReplyView| #[trigger] honest(effect, r),
{
}

// ---- the stack ----

/// What holds of an operation on the stack.
pub open spec fn frame_sound(f: FrameView) -> bool {
    &&& sound(f.task)
    &&& forall|i: int| 0 <= i < f.pending.len() ==> writes_well(f.task, #[trigger] f.pending[i])
    &&& f.pending.len() > 0 ==> leads_to(f.pending.last(), f.task)
}

/// Whether an operation waits for the end of the one above it, and for nothing else.
pub open spec fn waits_for(f: FrameView, above: FrameView) -> bool {
    f.pending.len() == 0 ==> forall|r: ReplyView| told(above.task, r) ==> #[trigger] expects(
        f.task,
        r,
    )
}

/// What holds of the stack and the last answer.
pub open spec fn stack_sound(stack: Seq<FrameView>, reply: ReplyView) -> bool {
    &&& forall|i: int| 0 <= i < stack.len() ==> frame_sound(#[trigger] stack[i])
    &&& forall|i: int|
        0 <= i < stack.len() - 1 ==> waits_for(#[trigger] stack[i], stack[i + 1])
    &&& stack.len() > 0 && stack.last().pending.len() == 0 ==> expects(stack.last().task, reply)
}

/// A stack with one operation at its start is sound: any that an effect names, a menu choice, or
/// the launcher's coming up.
pub proof fn law_new_stacks_are_sound(
    platform: Platform,
    effect: EffectView,
    id: Seq<char>,
    reply: ReplyView,
)
    ensures
        begun(platform, effect) matches Some(task) ==> stack_sound(
            seq![FrameView { task, pending: Seq::empty() }],
            reply,
        ),
        stack_sound(
            seq![
                FrameView {
                    task: TaskOf::Desktop(DesktopTaskOf::Menu(id, Choice::Start)),
                    pending: Seq::empty(),
                },
            ],
            reply,
        ),
        stack_sound(
            seq![
                FrameView {
                    task: TaskOf::Desktop(DesktopTaskOf::Setup(SetupOf::Start)),
                    pending: Seq::empty(),
                },
            ],
            reply,
        ),
{
    law_begun_operations_are_sound(platform, effect);
}

/// Whatever the surroundings answer, a sound stack stays sound; everything that it has the
/// surroundings write is written well; and the operation at its bottom ends in the answer that
/// the effect that names it promises.
pub proof fn law_stacks_stay_sound(world: World, stack: Seq<FrameView>, reply: ReplyView)
    requires
        stack_sound(stack, reply),
        stack.len() > 0,
    ensures
        ({
            let (next, outcome) = stack_step(world, stack, reply);
            match outcome {
                NextOf::Go(r) => stack_sound(next, r),
                NextOf::Do(effect) => next.len() == stack.len() && writes_well(
                    next.last().task,
                    effect,
                ) && forall|r: ReplyView| #[trigger] stack_sound(next, r),
                NextOf::Done(r) => told(stack[0].task, r),
            }
        }),
{
    let top = stack.last();
    let below = stack.drop_last();
    let (next, outcome) = stack_step(world, stack, reply);
    assert(frame_sound(stack[stack.len() - 1]));
    assert forall|i: int| 0 <= i < below.len() implies frame_sound(#[trigger] below[i]) by {
        assert(below[i] == stack[i]);
    }
    assert forall|i: int| 0 <= i < below.len() - 1 implies waits_for(
        #[trigger] below[i],
        below[i + 1],
    ) by {
        assert(waits_for(stack[i], stack[i + 1]));
    }
    if below.len() > 0 {
        assert(waits_for(stack[below.len() - 1], stack[below.len() as int]));
    }
    if top.pending.len() > 0 {
        let effect = top.pending[0];
        let rest = top.pending.drop_first();
        let kept = FrameView { task: top.task, pending: rest };
        law_begun_operations_are_sound(world.platform, effect);
        assert(writes_well(top.task, top.pending[0]));
        assert(frame_sound(kept)) by {
            assert forall|i: int| 0 <= i < rest.len() implies writes_well(
                top.task,
                #[trigger] rest[i],
            ) by {
                assert(rest[i] == top.pending[i + 1]);
            }
            if rest.len() > 0 {
                assert(rest.last() == top.pending.last());
            }
        }
        if rest.len() == 0 {
            assert(top.pending.last() == effect);
        }
        let waiting = below.push(kept);
        assert forall|i: int| 0 <= i < waiting.len() implies frame_sound(#[trigger] waiting[i]) by {
            if i < below.len() {
                assert(waiting[i] == below[i]);
            }
        }
        assert forall|i: int| 0 <= i < waiting.len() - 1 implies waits_for(
            #[trigger] waiting[i],
            waiting[i + 1],
        ) by {
            assert(waiting[i] == below[i]);
            if i + 1 < below.len() {
                assert(waiting[i + 1] == below[i + 1]);
            }
        }
        match begun(world.platform, effect) {
            Some(task) => {
                let started = FrameView { task, pending: Seq::empty() };
                assert(next == waiting.push(started));
                assert(waits_for(kept, started));
                assert forall|i: int| 0 <= i < next.len() implies frame_sound(
                    #[trigger] next[i],
                ) by {
                    if i < waiting.len() {
                        assert(next[i] == waiting[i]);
                    }
                }
                assert forall|i: int| 0 <= i < next.len() - 1 implies waits_for(
                    #[trigger] next[i],
                    next[i + 1],
                ) by {
                    assert(next[i] == waiting[i]);
                    if i + 1 < waiting.len() {
                        assert(next[i + 1] == waiting[i + 1]);
                    }
                }
            },
            None => {
                assert(next == waiting);
                assert forall|r: ReplyView| #[trigger] stack_sound(next, r) by {
                    if rest.len() == 0 {
                        assert(honest(effect, r));
                        assert(expects(top.task, r));
                    }
                }
            },
        }
    } else {
        match task_answer(top.task) {
            Some(r) => {
                law_ended_operations_answer_honestly(top.task, r);
                if below.len() > 0 {
                    assert(below.last() == stack[below.len() - 1]);
                    assert(stack[below.len() as int] == top);
                }
            },
            None => {
                law_steps_keep_operations_sound(world, top.task, reply);
                let (task, pending) = task_step(world, top.task, reply);
                let moved = FrameView { task, pending };
                assert(next == below.push(moved));
                assert(frame_sound(moved));
                assert forall|i: int| 0 <= i < next.len() implies frame_sound(
                    #[trigger] next[i],
                ) by {
                    if i < below.len() {
                        assert(next[i] == below[i]);
                    }
                }
                assert forall|i: int| 0 <= i < next.len() - 1 implies waits_for(
                    #[trigger] next[i],
                    next[i + 1],
                ) by {
                    assert(next[i] == below[i]);
                    if i + 1 < below.len() {
                        assert(next[i + 1] == below[i + 1]);
                    } else {
                        assert(waits_for(stack[i], top));
                        assert forall|r: ReplyView| told(moved.task, r) && next[i].pending.len()
                            == 0 implies #[trigger] expects(next[i].task, r) by {
                            assert(told(top.task, r));
                        }
                    }
                }
            },
        }
    }
}

/// Whether the service is to be enabled makes no difference to the unit: both makings take the
/// same steps, ask for the same things and end in the same text.
pub proof fn law_unit_is_the_same_when_disabled(
    world: World,
    state: RenderView,
    reply: ReplyView,
)
    ensures
        ({
            let (on, first) = systemd_step(
                world,
                SystemdTaskOf::UnitContent(true, state),
                reply,
            );
            let (off, second) = systemd_step(
                world,
                SystemdTaskOf::UnitContent(false, state),
                reply,
            );
            first == second && (on matches SystemdTaskOf::UnitContent(_, s) && off
                == SystemdTaskView::UnitContent(false, s))
        }),
{
    reveal(systemd_step);
}

// ---- no operation calls itself ----

/// How many operations can stand on top of each other, with this one at the bottom.
pub open spec fn level(task: TaskView) -> int {
    match task {
        TaskOf::Search(t) => match t {
            SearchTaskOf::Which(_, _) => 2,
            SearchTaskOf::ServiceEnv(_) => 2,
            SearchTaskOf::NodeForDsh(_, _) => 3,
            SearchTaskOf::DshProgram(_) => 4,
            _ => 1,
        },
        TaskOf::Launchd(t) => match t {
            LaunchdTaskOf::WritePlistKeepaliveOff(_) => 1,
            LaunchdTaskOf::Autostart(_) => 2,
            LaunchdTaskOf::Running(_) => 2,
            LaunchdTaskOf::PlistXml(_, _, _) => 5,
            LaunchdTaskOf::WritePlist(_, _) => 6,
            LaunchdTaskOf::Ensure(_) => 7,
            _ => 8,
        },
        TaskOf::Systemd(t) => match t {
            SystemdTaskOf::Autostart(_) => 2,
            SystemdTaskOf::Running(_) => 2,
            SystemdTaskOf::UnitContent(_, _) => 5,
            SystemdTaskOf::WriteUnit(_, _) => 6,
            SystemdTaskOf::Ensure(_) => 7,
            _ => 8,
        },
        TaskOf::Desktop(t) => match t {
            DesktopTaskOf::OpenDshUi(_) => 1,
            _ => 9,
        },
    }
}

/// The same for the operation that an effect names, if any.
pub open spec fn effect_level(effect: EffectView) -> int {
    match effect {
        EffectOf::Launchctl(_) => 1,
        EffectOf::Systemctl(_) => 1,
        EffectOf::WhichFromLoginShell(_) => 1,
        EffectOf::WhichFromCommonPaths(_) => 1,
        EffectOf::LoginShellPath => 1,
        EffectOf::WritePlistKeepaliveOff => 1,
        EffectOf::OpenDshUi => 1,
        EffectOf::Which(_) => 2,
        EffectOf::ServiceEnv => 2,
        EffectOf::ReadAutostart => 2,
        EffectOf::ServiceIsRunning => 2,
        EffectOf::NodeForDsh(_) => 3,
        EffectOf::DshProgram => 4,
        EffectOf::PlistXml { .. } => 5,
        EffectOf::UnitContent { .. } => 5,
        EffectOf::WritePlist { .. } => 6,
        EffectOf::WriteUnit { .. } => 6,
        EffectOf::EnsureDefinition => 7,
        EffectOf::ServiceStart => 8,
        EffectOf::ServiceStop => 8,
        EffectOf::ServiceRestart => 8,
        EffectOf::SetAutostart(_) => 8,
        _ => 0,
    }
}

/// An operation is of the level of the effect that names it.
pub proof fn law_begun_operations_have_their_level(platform: Platform, effect: EffectView)
    ensures
        begun(platform, effect) matches Some(task) ==> level(task) == effect_level(effect),
{
}

/// Whether a step keeps to the level of its operation and asks for lower ones only.
pub open spec fn descends(before: TaskView, after: TaskView, effects: Seq<EffectView>) -> bool {
    &&& level(after) == level(before)
    &&& forall|i: int|
        0 <= i < effects.len() ==> effect_level(#[trigger] effects[i]) < level(before)
}

/// Whether an effect is a look at a file or a directory.
pub open spec fn looks(effect: EffectView) -> bool {
    effect is IsFile || effect is List
}

proof fn lemma_version_looks(
    home: Seq<u8>,
    name: Seq<char>,
    versions: Seq<Seq<u8>>,
    i: int,
    best: Option<VersionView>,
)
    ensures
        ({
            let effects = try_version(home, name, versions, i, best).1;
            effects.len() <= 1 && (effects.len() == 1 ==> looks(effects[0]))
        }),
{
}

pub proof fn lemma_place_search_looks(
    home: Seq<u8>,
    name: Seq<char>,
    state: PlaceSearchView,
    reply: ReplyView,
)
    ensures
        ({
            let effects = place_search_step(home, name, state, reply).1;
            effects.len() <= 1 && (effects.len() == 1 ==> looks(effects[0]))
        }),
{
    match state {
        PlaceSearchOf::Listing => match reply {
            ReplyOf::Names(Some(versions)) => lemma_version_looks(home, name, versions, 0, None),
            _ => {},
        },
        PlaceSearchOf::Probing { versions, index, bin, best } => {
            lemma_version_looks(home, name, versions, index as int, best);
            lemma_version_looks(home, name, versions, index + 1, best);
            lemma_version_looks(
                home,
                name,
                versions,
                index + 1,
                Some(later(best, (decoded(versions[index as int]), bin))),
            );
        },
        _ => {},
    }
}

proof fn lemma_place_search_descends(
    world: World,
    name: Seq<char>,
    state: PlaceSearchView,
    reply: ReplyView,
)
    ensures
        ({
            let task = SearchTaskOf::WhichFromCommonPaths(name, state);
            let (next, effects) = search_step(world, task, reply);
            descends(TaskOf::Search(task), TaskOf::Search(next), effects)
        }),
{
    lemma_place_search_looks(home_path(world.mac.env), name, state, reply);
    reveal(search_step);
}

proof fn lemma_shells_descend(world: World, task: SearchTaskView, reply: ReplyView)
    requires
        task is WhichFromLoginShell || task is LoginShellPath || task is ServiceEnv,
    ensures
        ({
            let (next, effects) = search_step(world, task, reply);
            descends(TaskOf::Search(task), TaskOf::Search(next), effects)
        }),
{
    reveal(search_step);
}

proof fn lemma_programs_descend(world: World, task: SearchTaskView, reply: ReplyView)
    requires
        task is Which || task is NodeForDsh || task is DshProgram,
    ensures
        ({
            let (next, effects) = search_step(world, task, reply);
            descends(TaskOf::Search(task), TaskOf::Search(next), effects)
        }),
{
    reveal(search_step);
}

proof fn lemma_commands_descend(world: World, task: SearchTaskView, reply: ReplyView)
    requires
        task is Launchctl || task is Systemctl,
    ensures
        ({
            let (next, effects) = search_step(world, task, reply);
            descends(TaskOf::Search(task), TaskOf::Search(next), effects)
        }),
{
    reveal(search_step);
}

proof fn lemma_search_descends(world: World, task: SearchTaskView, reply: ReplyView)
    ensures
        ({
            let (next, effects) = search_step(world, task, reply);
            descends(TaskOf::Search(task), TaskOf::Search(next), effects)
        }),
{
    match task {
        SearchTaskOf::WhichFromCommonPaths(name, s) => lemma_place_search_descends(
            world,
            name,
            s,
            reply,
        ),
        SearchTaskOf::WhichFromLoginShell(_, _) => lemma_shells_descend(world, task, reply),
        SearchTaskOf::LoginShellPath(_) => lemma_shells_descend(world, task, reply),
        SearchTaskOf::ServiceEnv(_) => lemma_shells_descend(world, task, reply),
        SearchTaskOf::Launchctl(_, _) => lemma_commands_descend(world, task, reply),
        SearchTaskOf::Systemctl(_, _) => lemma_commands_descend(world, task, reply),
        _ => lemma_programs_descend(world, task, reply),
    }
}

proof fn lemma_launchd_files_descend(world: World, task: LaunchdTaskView, reply: ReplyView)
    requires
        task is PlistXml || task is WritePlist || task is WritePlistKeepaliveOff || task is Ensure,
    ensures
        ({
            let (next, effects) = launchd_step(world, task, reply);
            descends(TaskOf::Launchd(task), TaskOf::Launchd(next), effects)
        }),
{
    reveal(launchd_step);
}

proof fn lemma_launchd_questions_descend(world: World, task: LaunchdTaskView, reply: ReplyView)
    requires
        task is Autostart || task is Running,
    ensures
        ({
            let (next, effects) = launchd_step(world, task, reply);
            descends(TaskOf::Launchd(task), TaskOf::Launchd(next), effects)
        }),
{
    reveal(launchd_step);
}

proof fn lemma_launchd_commands_descend(world: World, task: LaunchdTaskView, reply: ReplyView)
    requires
        task is Start || task is Stop || task is Restart || task is SetAutostart,
    ensures
        ({
            let (next, effects) = launchd_step(world, task, reply);
            descends(TaskOf::Launchd(task), TaskOf::Launchd(next), effects)
        }),
{
    reveal(launchd_step);
}

proof fn lemma_launchd_descends(world: World, task: LaunchdTaskView, reply: ReplyView)
    ensures
        ({
            let (next, effects) = launchd_step(world, task, reply);
            descends(TaskOf::Launchd(task), TaskOf::Launchd(next), effects)
        }),
{
    match task {
        LaunchdTaskOf::Autostart(_) => lemma_launchd_questions_descend(world, task, reply),
        LaunchdTaskOf::Running(_) => lemma_launchd_questions_descend(world, task, reply),
        LaunchdTaskOf::Start(_) => lemma_launchd_commands_descend(world, task, reply),
        LaunchdTaskOf::Stop(_) => lemma_launchd_commands_descend(world, task, reply),
        LaunchdTaskOf::Restart(_) => lemma_launchd_commands_descend(world, task, reply),
        LaunchdTaskOf::SetAutostart(_, _) => lemma_launchd_commands_descend(world, task, reply),
        _ => lemma_launchd_files_descend(world, task, reply),
    }
}

proof fn lemma_systemd_descends(world: World, task: SystemdTaskView, reply: ReplyView)
    ensures
        ({
            let (next, effects) = systemd_step(world, task, reply);
            descends(TaskOf::Systemd(task), TaskOf::Systemd(next), effects)
        }),
{
    reveal(systemd_step);
}

proof fn lemma_desktop_descends(world: World, task: DesktopTaskView, reply: ReplyView)
    ensures
        ({
            let (next, effects) = desktop_step(world, task, reply);
            descends(TaskOf::Desktop(task), TaskOf::Desktop(next), effects)
        }),
{
    reveal(desktop_step);
}

/// What an operation asks for is of a lower level than itself.
pub proof fn law_calls_descend(world: World, task: TaskView, reply: ReplyView)
    ensures
        ({
            let (next, effects) = task_step(world, task, reply);
            descends(task, next, effects)
        }),
{
    match task {
        TaskOf::Search(t) => lemma_search_descends(world, t, reply),
        TaskOf::Launchd(t) => lemma_launchd_descends(world, t, reply),
        TaskOf::Systemd(t) => lemma_systemd_descends(world, t, reply),
        TaskOf::Desktop(t) => lemma_desktop_descends(world, t, reply),
    }
}

/// Whether each operation on the stack is of a lower level than the one below it, and asks for
/// lower ones only.
pub open spec fn stack_descends(stack: Seq<FrameView>) -> bool {
    &&& forall|i: int, k: int|
        0 <= i < stack.len() && 0 <= k < stack[i].pending.len() ==> effect_level(
            #[trigger] stack[i].pending[k],
        ) < level(stack[i].task)
    &&& forall|i: int, j: int|
        0 <= i < j < stack.len() ==> level(#[trigger] stack[j].task) < level(
            #[trigger] stack[i].task,
        )
}

/// The stack never holds more than nine operations: none of them calls itself, however far down.
pub proof fn law_stacks_stay_low(world: World, stack: Seq<FrameView>, reply: ReplyView)
    requires
        stack_descends(stack),
        stack.len() > 0,
    ensures
        stack_descends(stack_step(world, stack, reply).0),
        stack.len() <= 9,
{
    let top = stack.last();
    let below = stack.drop_last();
    let next = stack_step(world, stack, reply).0;
    lemma_height(stack, stack.len() as int);
    if top.pending.len() > 0 {
        let effect = top.pending[0];
        law_begun_operations_have_their_level(world.platform, effect);
        assert(effect_level(stack[stack.len() - 1].pending[0]) < level(top.task));
        assert forall|i: int, k: int|
            0 <= i < next.len() && 0 <= k < next[i].pending.len() implies effect_level(
            #[trigger] next[i].pending[k],
        ) < level(next[i].task) by {
            if i < below.len() {
                assert(next[i] == stack[i]);
                assert(next[i].pending[k] == stack[i].pending[k]);
            } else if i == below.len() {
                assert(next[i].pending[k] == stack[i].pending[k + 1]);
            }
        }
    } else if task_answer(top.task) is None {
        law_calls_descend(world, top.task, reply);
        let (task, effects) = task_step(world, top.task, reply);
        assert forall|i: int, k: int|
            0 <= i < next.len() && 0 <= k < next[i].pending.len() implies effect_level(
            #[trigger] next[i].pending[k],
        ) < level(next[i].task) by {
            if i < below.len() {
                assert(next[i] == stack[i]);
                assert(next[i].pending[k] == stack[i].pending[k]);
            } else {
                assert(next[i].pending[k] == effects[k]);
            }
        }
    } else {
        assert forall|i: int, k: int|
            0 <= i < next.len() && 0 <= k < next[i].pending.len() implies effect_level(
            #[trigger] next[i].pending[k],
        ) < level(next[i].task) by {
            assert(next[i].pending[k] == stack[i].pending[k]);
        }
    }
}

proof fn lemma_height(stack: Seq<FrameView>, n: int)
    requires
        stack_descends(stack),
        1 <= n <= stack.len(),
    ensures
        1 <= level(stack[n - 1].task) <= 10 - n,
    decreases n,
{
    if n > 1 {
        lemma_height(stack, n - 1);
        assert(level(stack[n - 1].task) < level(stack[n - 2].task));
    }
}

} // verus!

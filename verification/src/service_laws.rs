//! What the operations on the service promise, on both platforms.

use vstd::prelude::*;

use crate::definition::RenderOf;
use crate::definition::RenderView;
use crate::effect::outcome;
use crate::effect::yes;
use crate::effect::EffectOf;
use crate::effect::EffectView;
use crate::effect::Phase;
use crate::effect::Query;
use crate::effect::ReplyOf;
use crate::effect::ReplyView;
use crate::linux_service;
use crate::linux_service::daemon_reload;
use crate::linux_service::law_unit_sets_path;
use crate::linux_service::unit_command;
use crate::linux_service::LinuxService;
use crate::locations::service_log_path;
use crate::locations::Platform;
use crate::macos_service;
use crate::macos_service::bootout;
use crate::macos_service::bootstrap;
use crate::macos_service::kickstart;
use crate::macos_service::kickstart_anew;
use crate::macos_service::readable_reply;
use crate::macos_service::terminate;
use crate::macos_service::MacService;
use crate::native::decoded;
use crate::plist::keeps_alive;
use crate::plist::runs_at_load;
use crate::plist::sets_environment;
use crate::plist::without_keepalive;
use crate::plist_laws::law_keepalive_off_keeps_the_rest;
use crate::plist_laws::law_keepalive_off_stays_off;
use crate::plist_laws::law_plist_reads_back;
use crate::search::service_variables;
use crate::text::contains;
use crate::text::occurs_at;

verus! {

/// The commands to launchd and systemd among some effects, in their order.
pub open spec fn commands(effects: Seq<EffectView>) -> Seq<EffectView>
    decreases effects.len(),
{
    if effects.len() == 0 {
        Seq::empty()
    } else {
        let rest = commands(effects.drop_last());
        match effects.last() {
            EffectOf::Launchctl(_) => rest.push(effects.last()),
            EffectOf::Systemctl(_) => rest.push(effects.last()),
            _ => rest,
        }
    }
}

proof fn lemma_commands_add(a: Seq<EffectView>, b: Seq<EffectView>)
    ensures
        commands(a + b) == commands(a) + commands(b),
    decreases b.len(),
{
    if b.len() == 0 {
        assert(a + b == a);
    } else {
        lemma_commands_add(a, b.drop_last());
        assert((a + b).drop_last() == a + b.drop_last());
        assert(commands(a + b) == commands(a) + commands(b));
    }
}

// ---- launchd: the definition ----

/// The definition that the launcher makes from a command line, the environment that it gives the
/// service, and the two switches.
pub open spec fn made(
    mac: MacService,
    program: Seq<Seq<char>>,
    path: Seq<char>,
    run_at_load: bool,
    keep_alive: bool,
) -> (RenderView, Seq<EffectView>) {
    macos_service::xml_step(
        mac,
        run_at_load,
        keep_alive,
        RenderOf::Env(program),
        ReplyOf::Env(service_variables(path)),
    )
}

/// Every definition that the launcher makes reads back with the switches that it was made with,
/// and sets an environment.
pub proof fn law_made_definition_reads_back(
    mac: MacService,
    program: Seq<Seq<char>>,
    path: Seq<char>,
    run_at_load: bool,
    keep_alive: bool,
)
    ensures
        made(mac, program, path, run_at_load, keep_alive).0 matches RenderOf::Ended(Ok(xml))
            && runs_at_load(Some(xml)) == run_at_load && keeps_alive(Some(xml)) == keep_alive
            && sets_environment(Some(xml)),
{
    let log = decoded(service_log_path(Platform::MacOs, mac.env));
    law_plist_reads_back(program, path, run_at_load, keep_alive, log);
}

/// What is chosen about login is what is read later: the definition that is written for the
/// choice reads back as that choice.
pub proof fn law_chosen_login_reads_back(
    mac: MacService,
    program: Seq<Seq<char>>,
    path: Seq<char>,
    enabled: bool,
    reply: ReplyView,
)
    ensures
        macos_service::set_autostart_step(mac, enabled, Phase::Start, reply).1 == seq![
            EffectView::StoreAutostart(enabled),
            EffectView::WritePlist { run_at_load: enabled },
        ],
        made(mac, program, path, enabled, true).0 matches RenderOf::Ended(Ok(xml))
            && macos_service::autostart_step(mac, Query::Waiting, ReplyOf::Text(Ok(xml))).0
            == Query::Ended(enabled),
{
    law_made_definition_reads_back(mac, program, path, enabled, true);
}

/// Without a definition that can be read, the service does not start at login.
pub proof fn law_no_definition_no_login(mac: MacService, reply: ReplyView)
    requires
        readable_reply(reply) is None,
    ensures
        macos_service::autostart_step(mac, Query::Waiting, reply).0 == Query::Ended(false),
{
}

/// The definitions that starting, restarting and choosing about login write heal a crash, with
/// the start-at-login switch as chosen, and go to the one file that defines the service.
pub proof fn law_written_definition_heals_crashes(
    mac: MacService,
    program: Seq<Seq<char>>,
    path: Seq<char>,
    run_at_load: bool,
    reply: ReplyView,
)
    requires
        outcome(reply) is Ok,
    ensures
        macos_service::write_step(
            mac,
            run_at_load,
            macos_service::WriteOf::Directory,
            reply,
        ).1 == seq![EffectView::PlistXml { run_at_load, keep_alive: true }],
        made(mac, program, path, run_at_load, true).0 matches RenderOf::Ended(Ok(xml))
            && keeps_alive(Some(xml)) && runs_at_load(Some(xml)) == run_at_load
            && macos_service::write_step(
            mac,
            run_at_load,
            macos_service::WriteOf::Text,
            ReplyOf::Text(Ok(xml)),
        ).1 == seq![
            EffectView::WriteText { path: macos_service::definition_path(mac.env), text: xml },
        ],
{
    law_made_definition_reads_back(mac, program, path, run_at_load, true);
}

/// A definition that the launcher made is never made anew, neither as it was written nor after
/// its restart switch was turned off.
pub proof fn law_made_definition_is_left_alone(
    mac: MacService,
    program: Seq<Seq<char>>,
    path: Seq<char>,
    run_at_load: bool,
    keep_alive: bool,
)
    ensures
        made(mac, program, path, run_at_load, keep_alive).0 matches RenderOf::Ended(Ok(xml)) && {
            &&& macos_service::ensure_step(
                mac,
                macos_service::EnsureOf::Inspecting,
                ReplyOf::Text(Ok(xml)),
            ) == (macos_service::EnsureView::Ended(Ok(())), Seq::<EffectView>::empty())
            &&& without_keepalive(xml) matches Ok(new) && macos_service::ensure_step(
                mac,
                macos_service::EnsureOf::Inspecting,
                ReplyOf::Text(Ok(new)),
            ) == (macos_service::EnsureView::Ended(Ok(())), Seq::<EffectView>::empty())
        },
{
    let log = decoded(service_log_path(Platform::MacOs, mac.env));
    law_plist_reads_back(program, path, run_at_load, keep_alive, log);
    law_keepalive_off_keeps_the_rest(program, path, run_at_load, keep_alive, log);
}

/// Making an old definition anew keeps both of its switches: a service that was stopped stays
/// stopped, and one that starts at login goes on to do so.
pub proof fn law_upgrade_keeps_switches(
    mac: MacService,
    old: Seq<char>,
    program: Seq<Seq<char>>,
    path: Seq<char>,
)
    ensures
        ({
            let read = ReplyView::Text(Ok(old));
            let login = macos_service::ensure_step(mac, macos_service::EnsureOf::OldLogin, read).0;
            let (next, effects) = macos_service::ensure_step(mac, login, read);
            &&& next == macos_service::EnsureView::OldText
            &&& effects == seq![
                EffectView::PlistXml {
                    run_at_load: runs_at_load(Some(old)),
                    keep_alive: keeps_alive(Some(old)),
                },
            ]
            &&& made(
                mac,
                program,
                path,
                runs_at_load(Some(old)),
                keeps_alive(Some(old)),
            ).0 matches RenderOf::Ended(Ok(new)) && runs_at_load(Some(new)) == runs_at_load(
                Some(old),
            ) && keeps_alive(Some(new)) == keeps_alive(Some(old)) && sets_environment(Some(new))
        }),
{
    law_made_definition_reads_back(
        mac,
        program,
        path,
        runs_at_load(Some(old)),
        keeps_alive(Some(old)),
    );
}

/// Seeing to the definition asks the service to start only where launchd has just said that it
/// runs.
pub proof fn law_upgrade_wakes_nobody(
    mac: MacService,
    state: macos_service::EnsureView,
    reply: ReplyView,
)
    requires
        macos_service::ensure_step(mac, state, reply).1.contains(kickstart(mac)),
    ensures
        state is Reloaded,
        yes(reply),
{
    assert(kickstart(mac)->Launchctl_0.len() == 2);
    assert(bootout(mac)->Launchctl_0.len() == 3);
    assert(bootstrap(mac)->Launchctl_0.len() == 3);
}

/// All that turning the restart switch off ever writes is a definition under which launchd does
/// not bring the service back, in the one file that defines the service.
pub proof fn law_stop_turns_restart_off(
    mac: MacService,
    state: macos_service::RewriteView,
    reply: ReplyView,
    path: Seq<u8>,
    text: Seq<char>,
)
    requires
        macos_service::off_step(mac, state, reply).1.contains(EffectView::WriteText { path, text }),
    ensures
        path == macos_service::definition_path(mac.env),
        !keeps_alive(Some(text)),
{
    match reply {
        ReplyOf::Text(Ok(xml)) => {
            if without_keepalive(xml) is Ok {
                law_keepalive_off_stays_off(xml);
            }
        },
        _ => {},
    }
}

/// Turning the restart switch off succeeds on every definition that the launcher made, and
/// leaves its start-at-login switch as it was.
pub proof fn law_stop_keeps_login(
    mac: MacService,
    program: Seq<Seq<char>>,
    path: Seq<char>,
    run_at_load: bool,
    keep_alive: bool,
)
    ensures
        made(mac, program, path, run_at_load, keep_alive).0 matches RenderOf::Ended(Ok(old))
            && without_keepalive(old) matches Ok(new) && !keeps_alive(Some(new)) && runs_at_load(
            Some(new),
        ) == run_at_load && macos_service::off_step(
            mac,
            macos_service::RewriteOf::Reading,
            ReplyOf::Text(Ok(old)),
        ).1 == seq![
            EffectView::WriteText { path: macos_service::definition_path(mac.env), text: new },
        ],
{
    let log = decoded(service_log_path(Platform::MacOs, mac.env));
    law_keepalive_off_keeps_the_rest(program, path, run_at_load, keep_alive, log);
}

// ---- launchd: the order of the commands ----

/// Starting takes one answer, and whatever it is, the definition goes out of launchd, into it,
/// and the service is started, in this order.
pub proof fn law_start_commands(mac: MacService, first: ReplyView, second: ReplyView)
    ensures
        ({
            let (s1, e1) = macos_service::start_step(mac, Phase::Start, first);
            let (s2, e2) = macos_service::start_step(mac, s1, second);
            &&& s2 == Phase::Ended
            &&& e1.last() == EffectView::WritePlist { run_at_load: mac.autostart }
            &&& commands(e1 + e2) == seq![bootout(mac), bootstrap(mac), kickstart(mac)]
        }),
{
    reveal_with_fuel(commands, 7);
    let (s1, e1) = macos_service::start_step(mac, Phase::Start, first);
    let (s2, e2) = macos_service::start_step(mac, s1, second);
    lemma_commands_add(e1, e2);
    lemma_drops(e1);
    lemma_drops(e2);
}

/// Stopping takes two answers. The definition goes out of launchd before its restart switch is
/// turned off, and into it afterwards; the service is asked to end only where it still runs.
pub proof fn law_stop_commands(
    mac: MacService,
    first: ReplyView,
    second: ReplyView,
    third: ReplyView,
)
    ensures
        ({
            let (s1, e1) = macos_service::stop_step(mac, Phase::Start, first);
            let (s2, e2) = macos_service::stop_step(mac, s1, second);
            let (s3, e3) = macos_service::stop_step(mac, s2, third);
            &&& s3 == Phase::Ended
            &&& commands(e1) == seq![bootout(mac)]
            &&& e1.last() == EffectView::WritePlistKeepaliveOff
            &&& commands(e2) == seq![bootstrap(mac)]
            &&& e2.last() == EffectView::ServiceIsRunning
            &&& commands(e3) == if yes(third) {
                seq![terminate(mac)]
            } else {
                seq![]
            }
        }),
{
    reveal_with_fuel(commands, 7);
    let (s1, e1) = macos_service::stop_step(mac, Phase::Start, first);
    let (s2, e2) = macos_service::stop_step(mac, s1, second);
    let (s3, e3) = macos_service::stop_step(mac, s2, third);
    lemma_drops(e1);
    lemma_drops(e2);
    lemma_drops(e3);
}

/// Restarting takes one answer, and whatever it is, the service is ended and started in one.
pub proof fn law_restart_commands(mac: MacService, first: ReplyView, second: ReplyView)
    ensures
        ({
            let (s1, e1) = macos_service::restart_step(mac, Phase::Start, first);
            let (s2, e2) = macos_service::restart_step(mac, s1, second);
            &&& s2 == Phase::Ended
            &&& e1.last() == EffectView::WritePlist { run_at_load: mac.autostart }
            &&& commands(e1 + e2) == seq![kickstart_anew(mac)]
        }),
{
    reveal_with_fuel(commands, 7);
    let (s1, e1) = macos_service::restart_step(mac, Phase::Start, first);
    let (s2, e2) = macos_service::restart_step(mac, s1, second);
    lemma_commands_add(e1, e2);
    lemma_drops(e1);
    lemma_drops(e2);
}

/// Choosing about login takes two answers: the definition goes out of launchd and into it, and
/// the service is asked to start exactly where it runs then.
pub proof fn law_login_commands(
    mac: MacService,
    enabled: bool,
    first: ReplyView,
    second: ReplyView,
    third: ReplyView,
)
    ensures
        ({
            let (s1, e1) = macos_service::set_autostart_step(mac, enabled, Phase::Start, first);
            let (s2, e2) = macos_service::set_autostart_step(mac, enabled, s1, second);
            let (s3, e3) = macos_service::set_autostart_step(mac, enabled, s2, third);
            &&& s3 == Phase::Ended
            &&& commands(e1 + e2) == seq![bootout(mac), bootstrap(mac)]
            &&& e2.last() == EffectView::ServiceIsRunning
            &&& commands(e3) == if yes(third) {
                seq![kickstart(mac)]
            } else {
                seq![]
            }
        }),
{
    reveal_with_fuel(commands, 7);
    let (s1, e1) = macos_service::set_autostart_step(mac, enabled, Phase::Start, first);
    let (s2, e2) = macos_service::set_autostart_step(mac, enabled, s1, second);
    let (s3, e3) = macos_service::set_autostart_step(mac, enabled, s2, third);
    lemma_commands_add(e1, e2);
    lemma_drops(e1);
    lemma_drops(e2);
    lemma_drops(e3);
}

// ---- systemd ----

/// The unit that the launcher makes from a command line and the environment that it gives the
/// service.
pub open spec fn made_unit(linux: LinuxService, program: Seq<Seq<char>>, path: Seq<char>) -> (
    RenderView,
    Seq<EffectView>,
) {
    linux_service::content_step(
        linux,
        RenderOf::Env(program),
        ReplyOf::Env(service_variables(path)),
    )
}

/// A unit that the launcher made is never made anew.
pub proof fn law_made_unit_is_left_alone(
    linux: LinuxService,
    program: Seq<Seq<char>>,
    path: Seq<char>,
)
    ensures
        made_unit(linux, program, path).0 matches RenderOf::Ended(Ok(unit))
            && linux_service::ensure_step(
            linux,
            linux_service::EnsureOf::Inspecting,
            ReplyOf::Text(Ok(unit)),
        ) == (linux_service::EnsureView::Ended(Ok(())), Seq::<EffectView>::empty()),
{
    law_unit_sets_path(
        linux_service::all_quoted(program),
        path,
        decoded(service_log_path(Platform::Linux, linux.env)),
    );
}

/// Under every unit that the launcher makes, systemd brings the service back after a crash.
pub proof fn law_made_unit_heals_crashes(
    linux: LinuxService,
    program: Seq<Seq<char>>,
    path: Seq<char>,
)
    ensures
        made_unit(linux, program, path).0 matches RenderOf::Ended(Ok(unit)) && contains(
            unit,
            "\nRestart=always\nRestartSec=2\n"@,
        ),
{
    let unit = match made_unit(linux, program, path).0 {
        RenderOf::Ended(Ok(unit)) => unit,
        _ => Seq::empty(),
    };
    let key = "\nRestart=always\nRestartSec=2\n"@;
    let line = "\nRestart=always\nRestartSec=2\nStandardOutput=append:"@;
    let log = decoded(service_log_path(Platform::Linux, linux.env));
    let tail = log + "\nStandardError=append:"@ + log
        + "\n\n[Install]\nWantedBy=default.target\n"@;
    let head = unit.take(unit.len() - tail.len() - line.len());
    let i = head.len() as int;
    assert(unit == head + line + tail);
    assert(line.take(key.len() as int) == key) by {
        reveal_strlit("\nRestart=always\nRestartSec=2\n");
        reveal_strlit("\nRestart=always\nRestartSec=2\nStandardOutput=append:");
    }
    assert(key.len() <= line.len()) by {
        reveal_strlit("\nRestart=always\nRestartSec=2\n");
        reveal_strlit("\nRestart=always\nRestartSec=2\nStandardOutput=append:");
    }
    assert(unit.subrange(i, i + key.len()) == line.take(key.len() as int));
    assert(occurs_at(unit, key, i));
}

/// Without a unit the service does not start at login, and systemd is not asked.
pub proof fn law_no_unit_no_login(linux: LinuxService, reply: ReplyView)
    requires
        !yes(reply),
    ensures
        linux_service::autostart_step(linux, Query::Waiting, reply) == (
            Query::Ended(false),
            Seq::<EffectView>::empty(),
        ),
{
}

/// Starting takes one answer, and whatever it is, systemd reads its units, enables the service
/// and starts it, in this order.
pub proof fn law_unit_start_commands(first: ReplyView, second: ReplyView)
    ensures
        ({
            let (s1, e1) = linux_service::start_step(Phase::Start, first);
            let (s2, e2) = linux_service::start_step(s1, second);
            &&& s2 == Phase::Ended
            &&& e1.last() == EffectView::EnsureDefinition
            &&& commands(e1 + e2) == seq![
                daemon_reload(),
                unit_command("enable"@),
                unit_command("start"@),
            ]
        }),
{
    reveal_with_fuel(commands, 7);
    let (s1, e1) = linux_service::start_step(Phase::Start, first);
    let (s2, e2) = linux_service::start_step(s1, second);
    lemma_commands_add(e1, e2);
    lemma_drops(e1);
    lemma_drops(e2);
}

/// Stopping is one command and takes no answer.
pub proof fn law_unit_stop_commands()
    ensures
        linux_service::stop_step(Phase::Start).0 == Phase::Ended,
        commands(linux_service::stop_step(Phase::Start).1) == seq![unit_command("stop"@)],
{
    reveal_with_fuel(commands, 4);
    lemma_drops(linux_service::stop_step(Phase::Start).1);
}

/// Restarting takes one answer, and whatever it is, systemd reads its units and restarts the
/// service.
pub proof fn law_unit_restart_commands(first: ReplyView, second: ReplyView)
    ensures
        ({
            let (s1, e1) = linux_service::restart_step(Phase::Start, first);
            let (s2, e2) = linux_service::restart_step(s1, second);
            &&& s2 == Phase::Ended
            &&& e1.last() == EffectView::EnsureDefinition
            &&& commands(e1 + e2) == seq![daemon_reload(), unit_command("restart"@)]
        }),
{
    reveal_with_fuel(commands, 7);
    let (s1, e1) = linux_service::restart_step(Phase::Start, first);
    let (s2, e2) = linux_service::restart_step(s1, second);
    lemma_commands_add(e1, e2);
    lemma_drops(e1);
    lemma_drops(e2);
}

/// Choosing about login only enables or disables the service: nothing starts, stops or restarts
/// it.
pub proof fn law_unit_login_commands(enabled: bool, first: ReplyView, second: ReplyView)
    ensures
        ({
            let (s1, e1) = linux_service::set_autostart_step(enabled, Phase::Start, first);
            let (s2, e2) = linux_service::set_autostart_step(enabled, s1, second);
            &&& s2 == Phase::Ended
            &&& e1 == seq![
                EffectView::StoreAutostart(enabled),
                EffectView::WriteUnit { enabled },
            ]
            &&& commands(e1 + e2) == seq![
                daemon_reload(),
                unit_command(
                    if enabled {
                        "enable"@
                    } else {
                        "disable"@
                    },
                ),
            ]
        }),
{
    reveal_with_fuel(commands, 7);
    let (s1, e1) = linux_service::set_autostart_step(enabled, Phase::Start, first);
    let (s2, e2) = linux_service::set_autostart_step(enabled, s1, second);
    lemma_commands_add(e1, e2);
    lemma_drops(e1);
    lemma_drops(e2);
}

/// Seeing to the unit restarts the service only where systemd has just said that it runs.
pub proof fn law_unit_upgrade_wakes_nobody(
    linux: LinuxService,
    state: linux_service::EnsureView,
    reply: ReplyView,
)
    requires
        linux_service::ensure_step(linux, state, reply).1.contains(unit_command("restart"@)),
    ensures
        state is Reloaded,
        yes(reply),
{
    assert(daemon_reload()->Systemctl_0.len() == 1);
    assert(unit_command("restart"@)->Systemctl_0.len() == 2);
}

/// The beginnings of a short list of effects, by its elements.
proof fn lemma_drops(e: Seq<EffectView>)
    ensures
        e.len() == 1 ==> e.drop_last() == Seq::<EffectView>::empty(),
        e.len() == 2 ==> e.drop_last() == seq![e[0]],
        e.len() == 3 ==> e.drop_last() == seq![e[0], e[1]],
        e.len() == 4 ==> e.drop_last() == seq![e[0], e[1], e[2]],
        e.len() == 5 ==> e.drop_last() == seq![e[0], e[1], e[2], e[3]],
{
}

} // verus!

//! What whole runs of menu choices and of opening the window promise.

use vstd::prelude::*;

use crate::calls::begun;
use crate::calls::desktop_step;
use crate::calls::task_answer;
use crate::calls::task_step;
use crate::calls::DesktopTaskOf;
use crate::calls::TaskOf;
use crate::calls::TaskView;
use crate::calls::World;
use crate::effect::outcome;
use crate::effect::yes;
use crate::effect::Activation;
use crate::effect::EffectOf;
use crate::effect::EffectView;
use crate::effect::ReplyOf;
use crate::effect::ReplyView;
use crate::launchd_run_laws;
use crate::launcher::SetupOf;
use crate::locations::Platform;
use crate::run_laws::alike;
use crate::run_laws::carried_out;
use crate::run_laws::done;
use crate::run_laws::lemma_ask;
use crate::run_laws::lemma_ask_last;
use crate::run_laws::lemma_end;
use crate::run_laws::lemma_picked_add;
use crate::run_laws::lemma_picked_none;
use crate::run_laws::lemma_step;
use crate::run_laws::lemma_unfold;
use crate::run_laws::picked;
use crate::run_laws::Exchange;
use crate::run_laws::Moment;
use crate::run_laws::Place;
use crate::service_run_laws::answered;
use crate::service_run_laws::order;
use crate::service_run_laws::stored;
use crate::service_run_laws::written_file;
use crate::systemd_run_laws;
use crate::tray::menu_step;
use crate::tray::Choice;
use crate::window::open_step;
use crate::window::Opening;

verus! {

// ---- the operations that effects name ----

/// Starting the service is, on each platform, a whole start under its manager.
pub proof fn law_service_start(place: Place, login: bool, x: Seq<Exchange>, a: ReplyView)
    requires
        place.login == Some(login),
        carried_out(place, EffectOf::ServiceStart, x, a),
    ensures
        place.platform == Platform::MacOs ==> launchd_run_laws::service_told(
            place,
            login,
            seq![
                launchd_run_laws::out_of_launchd(place),
                launchd_run_laws::into_launchd(place),
                launchd_run_laws::start_it(place),
            ],
            x,
            a,
        ),
        place.platform == Platform::Linux ==> systemd_run_laws::service_told(
            place,
            seq![
                systemd_run_laws::read_units(),
                systemd_run_laws::to_unit("enable"@),
                systemd_run_laws::to_unit("start"@),
            ],
            x,
            a,
        ),
{
    if place.platform != Platform::Windows {
        let moments = lemma_unfold(place, EffectOf::ServiceStart, x, a);
        if place.platform == Platform::MacOs {
            launchd_run_laws::law_whole_start(place, login, ReplyOf::Nothing, moments);
        } else {
            systemd_run_laws::law_whole_start(place, ReplyOf::Nothing, moments);
        }
    }
}

/// Restarting the service is, on each platform, a whole restart under its manager.
pub proof fn law_service_restart(place: Place, login: bool, x: Seq<Exchange>, a: ReplyView)
    requires
        place.login == Some(login),
        carried_out(place, EffectOf::ServiceRestart, x, a),
    ensures
        place.platform == Platform::MacOs ==> launchd_run_laws::service_told(
            place,
            login,
            seq![launchd_run_laws::start_it_anew(place)],
            x,
            a,
        ),
        place.platform == Platform::Linux ==> systemd_run_laws::service_told(
            place,
            seq![systemd_run_laws::read_units(), systemd_run_laws::to_unit("restart"@)],
            x,
            a,
        ),
{
    if place.platform != Platform::Windows {
        let moments = lemma_unfold(place, EffectOf::ServiceRestart, x, a);
        if place.platform == Platform::MacOs {
            launchd_run_laws::law_whole_restart(place, login, ReplyOf::Nothing, moments);
        } else {
            systemd_run_laws::law_whole_restart(place, ReplyOf::Nothing, moments);
        }
    }
}

/// What a stop under systemd leaves behind.
pub open spec fn unit_stopped(x: Seq<Exchange>, a: ReplyView) -> bool {
    &&& a == ReplyView::Nothing
    &&& picked(x, order()) == seq![systemd_run_laws::to_unit("stop"@)]
    &&& picked(x, stored()) == Seq::<bool>::empty()
    &&& picked(x, written_file()) == Seq::<(Seq<u8>, Seq<char>)>::empty()
}

/// Stopping the service is, on each platform, a whole stop under its manager.
pub proof fn law_service_stop(place: Place, x: Seq<Exchange>, a: ReplyView)
    requires
        carried_out(place, EffectOf::ServiceStop, x, a),
    ensures
        place.platform == Platform::MacOs ==> launchd_run_laws::stop_told(place, x, a),
        place.platform == Platform::Linux ==> unit_stopped(x, a),
{
    if place.platform != Platform::Windows {
        let moments = lemma_unfold(place, EffectOf::ServiceStop, x, a);
        if place.platform == Platform::MacOs {
            launchd_run_laws::law_whole_stop(place, ReplyOf::Nothing, moments);
        } else {
            systemd_run_laws::law_whole_stop(place, ReplyOf::Nothing, moments);
        }
    }
}

/// Choosing about login is, on each platform, a whole choice under its manager, and it is the
/// choice that was asked for.
pub proof fn law_set_autostart(place: Place, enabled: bool, x: Seq<Exchange>, a: ReplyView)
    requires
        carried_out(place, EffectOf::SetAutostart(enabled), x, a),
    ensures
        place.platform == Platform::MacOs ==> launchd_run_laws::login_told(place, enabled, x, a),
        place.platform == Platform::Linux ==> systemd_run_laws::login_told(place, enabled, x, a),
{
    if place.platform != Platform::Windows {
        let moments = lemma_unfold(place, EffectOf::SetAutostart(enabled), x, a);
        if place.platform == Platform::MacOs {
            launchd_run_laws::law_whole_login_choice(place, enabled, ReplyOf::Nothing, moments);
        } else {
            systemd_run_laws::law_whole_login_choice(place, enabled, ReplyOf::Nothing, moments);
        }
    }
}

/// Seeing to the definition is, on each platform, a whole seeing to it under its manager.
pub proof fn law_ensure_definition(place: Place, login: bool, x: Seq<Exchange>, a: ReplyView)
    requires
        place.login == Some(login),
        carried_out(place, EffectOf::EnsureDefinition, x, a),
    ensures
        place.platform == Platform::MacOs ==> launchd_run_laws::ensure_told(place, login, x, a),
        place.platform == Platform::Linux ==> systemd_run_laws::ensure_told(place, x, a),
{
    if place.platform != Platform::Windows {
        let moments = lemma_unfold(place, EffectOf::EnsureDefinition, x, a);
        if place.platform == Platform::MacOs {
            launchd_run_laws::law_whole_seeing_to_the_definition(
                place,
                login,
                ReplyOf::Nothing,
                moments,
            );
        } else {
            systemd_run_laws::law_whole_seeing_to_the_unit(place, ReplyOf::Nothing, moments);
        }
    }
}

/// Asking whether the service starts at login looks at the definition of the platform.
pub proof fn law_read_autostart(place: Place, x: Seq<Exchange>, a: ReplyView)
    requires
        place.platform != Platform::Windows,
        carried_out(place, EffectOf::ReadAutostart, x, a),
    ensures
        a is Flag,
        x.len() > 0,
        place.platform == Platform::MacOs ==> x[0].0 == EffectView::ReadText(
            launchd_run_laws::mac_definition(place),
        ) && a == ReplyView::Flag(
            match x[0].1 {
                ReplyOf::Text(Ok(text)) => crate::plist::runs_at_load(Some(text)),
                _ => false,
            },
        ),
        place.platform == Platform::Linux ==> x[0].0 == EffectView::Exists(
            systemd_run_laws::unit_file(place),
        ) && (!yes(x[0].1) ==> a == ReplyView::Flag(false)),
{
    let moments = lemma_unfold(place, EffectOf::ReadAutostart, x, a);
    if place.platform == Platform::MacOs {
        launchd_run_laws::law_whole_login_question(place, ReplyOf::Nothing, moments);
    } else {
        systemd_run_laws::law_whole_login_question(place, ReplyOf::Nothing, moments);
    }
}

// ---- the menu ----

proof fn lemma_menu_task(w: World, id: Seq<char>, s: Choice, reply: ReplyView)
    ensures
        ({
            let (next, effects) = menu_step(
                w.platform,
                id,
                w.mac.autostart,
                w.log_file@,
                s,
                reply,
            );
            task_step(w, TaskOf::Desktop(DesktopTaskOf::Menu(id, s)), reply) == (
                TaskView::Desktop(DesktopTaskOf::Menu(id, next)),
                effects,
            )
        }),
{
    reveal(desktop_step);
}

proof fn lemma_ids()
    ensures
        "open"@.len() == 4 && "open"@[0] == 'o',
        "restart"@.len() == 7,
        "stop"@.len() == 4 && "stop"@[0] == 's',
        "start"@.len() == 5,
        "autostart"@.len() == 9,
        "log"@.len() == 3,
        "quit"@.len() == 4 && "quit"@[0] == 'q',
{
    reveal_strlit("open");
    reveal_strlit("restart");
    reveal_strlit("stop");
    reveal_strlit("start");
    reveal_strlit("autostart");
    reveal_strlit("log");
    reveal_strlit("quit");
}

/// Whether an exchange is a line for the log.
pub open spec fn is_line(e: Exchange) -> bool {
    e.0 is Log
}

/// Lines for the log hold no commands, stored choices or files.
proof fn lemma_lines(
    lines: Seq<Exchange>,
    x: Seq<Exchange>,
    command: (Seq<char>, Seq<Seq<char>>),
)
    requires
        forall|i: int| 0 <= i < lines.len() ==> is_line(#[trigger] lines[i]),
    ensures
        picked(lines + x, order()) == picked(x, order()),
        picked(lines + x, stored()) == picked(x, stored()),
        picked(lines + x, written_file()) == picked(x, written_file()),
        picked(lines + x, answered(command)) == picked(x, answered(command)),
{
    assert forall|i: int| 0 <= i < lines.len() implies order()(#[trigger] lines[i]) is None
        && stored()(lines[i]) is None && written_file()(lines[i]) is None && answered(command)(
        lines[i],
    ) is None by {
        assert(is_line(lines[i]));
    }
    lemma_picked_none(lines, order());
    lemma_picked_none(lines, stored());
    lemma_picked_none(lines, written_file());
    lemma_picked_none(lines, answered(command));
    lemma_picked_add(lines, x, order());
    lemma_picked_add(lines, x, stored());
    lemma_picked_add(lines, x, written_file());
    lemma_picked_add(lines, x, answered(command));
    assert(picked(lines + x, order()) =~= picked(x, order()));
    assert(picked(lines + x, stored()) =~= picked(x, stored()));
    assert(picked(lines + x, written_file()) =~= picked(x, written_file()));
    assert(picked(lines + x, answered(command)) =~= picked(x, answered(command)));
}

/// A menu choice that is one line in the log and one effect, at most, and another line before it.
proof fn lemma_choice(
    place: Place,
    id: Seq<char>,
    asked: Seq<EffectView>,
    k: int,
    reply: ReplyView,
    moments: Seq<Moment>,
) -> (r: (Seq<Exchange>, Seq<Exchange>, ReplyView))
    requires
        alike(place, moments),
        1 <= k <= 2,
        k <= asked.len() <= k + 1,
        forall|i: int| 0 <= i < k ==> #[trigger] asked[i] is Log,
        done(
            TaskOf::Desktop(DesktopTaskOf::Menu(id, Choice::Ended)),
            asked,
            reply,
            moments,
        ) is Some,
    ensures
        ({
            let (lines, y, r1) = r;
            let (x, a) = done(
                TaskOf::Desktop(DesktopTaskOf::Menu(id, Choice::Ended)),
                asked,
                reply,
                moments,
            )->0;
            &&& x == lines + y
            &&& a == ReplyView::Nothing
            &&& lines.len() == k
            &&& forall|i: int| 0 <= i < k ==> (#[trigger] lines[i]).0 == asked[i]
            &&& asked.len() == k ==> y.len() == 0
            &&& asked.len() == k + 1 ==> carried_out(place, asked[k], y, r1)
        }),
{
    let task: TaskView = TaskOf::Desktop(DesktopTaskOf::Menu(id, Choice::Ended));
    let (x, a) = done(task, asked, reply, moments)->0;
    let (x1, r1, m1, y1) = lemma_ask(place, task, asked, reply, moments);
    assert(asked[0] is Log);
    let rest1 = asked.drop_first();
    let (lines, r2, m2, y2, rest2) = if k == 2 {
        assert(rest1[0] == asked[1]);
        let (x2, r2, m2, y2) = lemma_ask(place, task, rest1, r1, m1);
        (x1 + x2, r2, m2, y2, rest1.drop_first())
    } else {
        (x1, r1, m1, y1, rest1)
    };
    assert(lines.len() == k);
    assert(x =~= lines + y2);
    if asked.len() == k {
        assert(rest2 =~= Seq::empty());
        lemma_end(task, r2, m2);
        (lines, y2, r2)
    } else {
        assert(rest2.len() == 1 && rest2[0] == asked[k]);
        let (x3, r3, m3, y3) = lemma_ask_last(place, task, rest2, r2, m2);
        lemma_end(task, r3, m3);
        assert(y2 =~= x3);
        (lines, x3, r3)
    }
}

/// A whole choice of the restart entry restarts the service, and does nothing else to it.
pub proof fn law_menu_restarts(place: Place, login: bool, reply: ReplyView, moments: Seq<Moment>)
    requires
        alike(place, moments),
        place.login == Some(login),
        done(
            TaskOf::Desktop(DesktopTaskOf::Menu("restart"@, Choice::Start)),
            Seq::empty(),
            reply,
            moments,
        ) is Some,
    ensures
        ({
            let (x, a) = done(
                TaskOf::Desktop(DesktopTaskOf::Menu("restart"@, Choice::Start)),
                Seq::empty(),
                reply,
                moments,
            )->0;
            match place.platform {
                Platform::MacOs => launchd_run_laws::service_told(
                    place,
                    login,
                    seq![launchd_run_laws::start_it_anew(place)],
                    x,
                    a,
                ),
                Platform::Linux => systemd_run_laws::service_told(
                    place,
                    seq![systemd_run_laws::read_units(), systemd_run_laws::to_unit("restart"@)],
                    x,
                    a,
                ),
                Platform::Windows => x.len() == 1 && is_line(x[0]),
            }
        }),
{
    let task: TaskView = TaskOf::Desktop(DesktopTaskOf::Menu("restart"@, Choice::Start));
    lemma_ids();
    lemma_step(place, task, reply, moments);
    lemma_menu_task(moments[0].0, "restart"@, Choice::Start, reply);
    let (next, asked) = task_step(moments[0].0, task, reply);
    let (lines, y, r1) = lemma_choice(
        place,
        "restart"@,
        asked,
        1,
        ReplyOf::Nothing,
        moments.drop_first(),
    );
    lemma_lines(lines, y, launchd_run_laws::ask_about_it(place));
    if place.platform != Platform::Windows {
        assert(asked[1] == EffectView::ServiceRestart);
        law_service_restart(place, login, y, r1);
    }
}

/// A whole choice of the start entry starts the service, and does nothing else to it.
pub proof fn law_menu_starts(place: Place, login: bool, reply: ReplyView, moments: Seq<Moment>)
    requires
        alike(place, moments),
        place.login == Some(login),
        done(
            TaskOf::Desktop(DesktopTaskOf::Menu("start"@, Choice::Start)),
            Seq::empty(),
            reply,
            moments,
        ) is Some,
    ensures
        ({
            let (x, a) = done(
                TaskOf::Desktop(DesktopTaskOf::Menu("start"@, Choice::Start)),
                Seq::empty(),
                reply,
                moments,
            )->0;
            match place.platform {
                Platform::MacOs => launchd_run_laws::service_told(
                    place,
                    login,
                    seq![
                        launchd_run_laws::out_of_launchd(place),
                        launchd_run_laws::into_launchd(place),
                        launchd_run_laws::start_it(place),
                    ],
                    x,
                    a,
                ),
                Platform::Linux => systemd_run_laws::service_told(
                    place,
                    seq![
                        systemd_run_laws::read_units(),
                        systemd_run_laws::to_unit("enable"@),
                        systemd_run_laws::to_unit("start"@),
                    ],
                    x,
                    a,
                ),
                Platform::Windows => x.len() == 1 && is_line(x[0]),
            }
        }),
{
    let task: TaskView = TaskOf::Desktop(DesktopTaskOf::Menu("start"@, Choice::Start));
    lemma_ids();
    lemma_step(place, task, reply, moments);
    lemma_menu_task(moments[0].0, "start"@, Choice::Start, reply);
    let (next, asked) = task_step(moments[0].0, task, reply);
    let (lines, y, r1) = lemma_choice(
        place,
        "start"@,
        asked,
        1,
        ReplyOf::Nothing,
        moments.drop_first(),
    );
    lemma_lines(lines, y, launchd_run_laws::ask_about_it(place));
    if place.platform != Platform::Windows {
        assert(asked[1] == EffectView::ServiceStart);
        law_service_start(place, login, y, r1);
    }
}

/// A whole choice of the stop entry stops the service, and does nothing else to it.
pub proof fn law_menu_stops(place: Place, reply: ReplyView, moments: Seq<Moment>)
    requires
        alike(place, moments),
        done(
            TaskOf::Desktop(DesktopTaskOf::Menu("stop"@, Choice::Start)),
            Seq::empty(),
            reply,
            moments,
        ) is Some,
    ensures
        ({
            let (x, a) = done(
                TaskOf::Desktop(DesktopTaskOf::Menu("stop"@, Choice::Start)),
                Seq::empty(),
                reply,
                moments,
            )->0;
            match place.platform {
                Platform::MacOs => launchd_run_laws::stop_told(place, x, a),
                Platform::Linux => unit_stopped(x, a),
                Platform::Windows => x.len() == 1 && is_line(x[0]),
            }
        }),
{
    let task: TaskView = TaskOf::Desktop(DesktopTaskOf::Menu("stop"@, Choice::Start));
    lemma_ids();
    lemma_step(place, task, reply, moments);
    lemma_menu_task(moments[0].0, "stop"@, Choice::Start, reply);
    let (next, asked) = task_step(moments[0].0, task, reply);
    let (lines, y, r1) = lemma_choice(
        place,
        "stop"@,
        asked,
        1,
        ReplyOf::Nothing,
        moments.drop_first(),
    );
    lemma_lines(lines, y, launchd_run_laws::ask_about_it(place));
    if place.platform != Platform::Windows {
        assert(asked[1] == EffectView::ServiceStop);
        law_service_stop(place, y, r1);
    }
}

/// A whole choice of the login entry turns the stored choice round: what is stored is the
/// opposite of what was stored when the entry was chosen, and the definition that is written says
/// the same.
pub proof fn law_menu_turns_login_round(place: Place, reply: ReplyView, moments: Seq<Moment>)
    requires
        alike(place, moments),
        done(
            TaskOf::Desktop(DesktopTaskOf::Menu("autostart"@, Choice::Start)),
            Seq::empty(),
            reply,
            moments,
        ) is Some,
    ensures
        moments.len() > 0,
        ({
            let before = moments[0].0.mac.autostart;
            let (x, a) = done(
                TaskOf::Desktop(DesktopTaskOf::Menu("autostart"@, Choice::Start)),
                Seq::empty(),
                reply,
                moments,
            )->0;
            match place.platform {
                Platform::MacOs => launchd_run_laws::login_told(place, !before, x, a),
                Platform::Linux => systemd_run_laws::login_told(place, !before, x, a),
                Platform::Windows => x.len() == 2 && is_line(x[0]) && is_line(x[1]),
            }
        }),
{
    let task: TaskView = TaskOf::Desktop(DesktopTaskOf::Menu("autostart"@, Choice::Start));
    lemma_ids();
    lemma_step(place, task, reply, moments);
    lemma_menu_task(moments[0].0, "autostart"@, Choice::Start, reply);
    let (next, asked) = task_step(moments[0].0, task, reply);
    let (lines, y, r1) = lemma_choice(
        place,
        "autostart"@,
        asked,
        2,
        ReplyOf::Nothing,
        moments.drop_first(),
    );
    lemma_lines(lines, y, launchd_run_laws::ask_about_it(place));
    if place.platform != Platform::Windows {
        assert(asked[2] == EffectView::SetAutostart(!moments[0].0.mac.autostart));
        law_set_autostart(place, !moments[0].0.mac.autostart, y, r1);
    } else {
        assert(is_line(lines[0]) && is_line(lines[1]));
    }
}

/// A whole choice of the entry for leaving, of the status line, or of anything that is no entry.
pub proof fn law_menu_leaves_or_does_nothing(
    place: Place,
    id: Seq<char>,
    reply: ReplyView,
    moments: Seq<Moment>,
)
    requires
        alike(place, moments),
        id != "open"@,
        id != "restart"@,
        id != "stop"@,
        id != "start"@,
        id != "autostart"@,
        id != "log"@,
        done(
            TaskOf::Desktop(DesktopTaskOf::Menu(id, Choice::Start)),
            Seq::empty(),
            reply,
            moments,
        ) is Some,
    ensures
        ({
            let (x, a) = done(
                TaskOf::Desktop(DesktopTaskOf::Menu(id, Choice::Start)),
                Seq::empty(),
                reply,
                moments,
            )->0;
            &&& x.len() > 0
            &&& is_line(x[0])
            &&& if id == "quit"@ {
                x.len() == 2 && x[1].0 == EffectView::Exit(0)
            } else {
                x.len() == 1
            }
        }),
{
    let task: TaskView = TaskOf::Desktop(DesktopTaskOf::Menu(id, Choice::Start));
    lemma_step(place, task, reply, moments);
    lemma_menu_task(moments[0].0, id, Choice::Start, reply);
    let (next, asked) = task_step(moments[0].0, task, reply);
    let (lines, y, r1) = lemma_choice(
        place,
        id,
        asked,
        1,
        ReplyOf::Nothing,
        moments.drop_first(),
    );
    assert(is_line(lines[0]));
    if id == "quit"@ {
        assert(asked[1] == EffectView::Exit(0));
    }
}

/// What opens a file on a platform.
pub open spec fn file_opener(platform: Platform, path: Seq<u8>) -> Seq<EffectView> {
    match platform {
        Platform::MacOs => seq![EffectView::SpawnOn { program: "open"@, path }],
        Platform::Linux => seq![EffectView::SpawnOn { program: "xdg-open"@, path }],
        Platform::Windows => seq![],
    }
}

/// What was asked for, without the answers.
pub open spec fn asked_for(x: Seq<Exchange>) -> Seq<EffectView> {
    x.map_values(|e: Exchange| e.0)
}

/// A whole choice of the log entry asks whether the log file is there. Where it is, all that
/// follows is opening it; where it is not, an empty one is made before.
pub proof fn law_menu_shows_the_log(place: Place, reply: ReplyView, moments: Seq<Moment>)
    requires
        alike(place, moments),
        done(
            TaskOf::Desktop(DesktopTaskOf::Menu("log"@, Choice::Start)),
            Seq::empty(),
            reply,
            moments,
        ) is Some,
    ensures
        ({
            let (x, a) = done(
                TaskOf::Desktop(DesktopTaskOf::Menu("log"@, Choice::Start)),
                Seq::empty(),
                reply,
                moments,
            )->0;
            &&& x.len() >= 2
            &&& is_line(x[0])
            &&& x[1].0 == EffectView::Exists(place.log_file)
            &&& if x[1].1 == ReplyView::Flag(true) {
                asked_for(x.skip(2)) == file_opener(place.platform, place.log_file)
            } else {
                asked_for(x.skip(2)) == seq![
                    EffectView::WriteText { path: place.log_file, text: Seq::empty() },
                ] + file_opener(place.platform, place.log_file)
            }
        }),
{
    let task: TaskView = TaskOf::Desktop(DesktopTaskOf::Menu("log"@, Choice::Start));
    let (x, a) = done(task, Seq::empty(), reply, moments)->0;
    lemma_ids();
    reveal_strlit("");
    assert(""@ =~= Seq::empty());
    lemma_step(place, task, reply, moments);
    lemma_menu_task(moments[0].0, "log"@, Choice::Start, reply);
    let (t1, asked) = task_step(moments[0].0, task, reply);
    let (x1, r1, m1, y1) = lemma_ask(place, t1, asked, ReplyOf::Nothing, moments.drop_first());
    let rest = asked.drop_first();
    let (x2, r2, m2, y2) = lemma_ask_last(place, t1, rest, r1, m1);
    lemma_step(place, t1, r2, m2);
    lemma_menu_task(m2[0].0, "log"@, Choice::Log, r2);
    let (end, last) = task_step(m2[0].0, t1, r2);
    let m3 = m2.drop_first();
    lemma_single(place, end, last, ReplyOf::Nothing, m3);
    assert(x =~= x1 + x2 + y2);
    assert(x.skip(2) =~= y2);
    assert(last =~= if yes(r2) {
        file_opener(place.platform, place.log_file)
    } else {
        seq![EffectView::WriteText { path: place.log_file, text: Seq::empty() }] + file_opener(
            place.platform,
            place.log_file,
        )
    });
}

/// An operation that has ended and still has effects to carry out that name no operation carries
/// them out in their order, and nothing else.
proof fn lemma_single(
    place: Place,
    task: TaskView,
    pending: Seq<EffectView>,
    reply: ReplyView,
    moments: Seq<Moment>,
)
    requires
        alike(place, moments),
        task_answer(task) is Some,
        forall|i: int| 0 <= i < pending.len() ==> begun(place.platform, #[trigger] pending[i]) is None,
        done(task, pending, reply, moments) is Some,
    ensures
        ({
            let (x, a) = done(task, pending, reply, moments)->0;
            &&& asked_for(x) == pending
            &&& a == task_answer(task)->0
        }),
    decreases pending.len(),
{
    let (x, a) = done(task, pending, reply, moments)->0;
    if pending.len() == 0 {
        assert(pending =~= Seq::empty());
        lemma_end(task, reply, moments);
        assert(asked_for(x) =~= pending);
    } else {
        let (x1, r1, m1, y1) = lemma_ask(place, task, pending, reply, moments);
        let rest = pending.drop_first();
        assert forall|i: int| 0 <= i < rest.len() implies begun(
            place.platform,
            #[trigger] rest[i],
        ) is None by {
            assert(rest[i] == pending[i + 1]);
        }
        assert(begun(place.platform, pending[0]) is None);
        lemma_single(place, task, rest, r1, m1);
        assert forall|i: int| 0 <= i < x.len() implies asked_for(x)[i] == pending[i] by {
            if i > 0 {
                assert(x[i] == y1[i - 1]);
                assert(asked_for(y1)[i - 1] == rest[i - 1]);
            }
        }
        assert(asked_for(y1).len() == rest.len());
        assert(asked_for(x) =~= pending);
    }
}

// ---- opening the window ----

proof fn lemma_open_task(w: World, s: Opening, reply: ReplyView)
    ensures
        ({
            let (next, effects) = open_step(w.platform, w.now, s, reply);
            task_step(w, TaskOf::Desktop(DesktopTaskOf::OpenDshUi(s)), reply) == (
                TaskView::Desktop(DesktopTaskOf::OpenDshUi(next)),
                effects,
            )
        }),
{
    reveal(desktop_step);
}

/// What opens an address in the user's browser on a platform.
pub open spec fn browser(platform: Platform, url: Seq<char>) -> EffectView {
    match platform {
        Platform::MacOs => EffectOf::Spawn { program: "open"@, args: seq![url] },
        Platform::Linux => EffectOf::Spawn { program: "xdg-open"@, args: seq![url] },
        Platform::Windows => EffectOf::Spawn {
            program: "cmd"@,
            args: seq!["/c"@, "start"@, ""@, url],
        },
    }
}

/// What opening the window does, once it is known whether there is one: the one that there is
/// comes to the front; otherwise one is made for the web interface and comes to the front, and
/// where none can be made the web interface opens in the browser.
pub open spec fn window_told(platform: Platform, x: Seq<Exchange>) -> bool {
    &&& x.len() > 0
    &&& x[0].0 == EffectView::FindWindow("dsh-ui"@)
    &&& if x[0].1 == ReplyView::Flag(true) {
        &&& x.len() == 4
        &&& x[1].0 is ShowWindow
        &&& x[2].0 is FocusWindow
        &&& x[3].0 is Log
    } else {
        &&& x.len() >= 2
        &&& x[1].0 == (EffectView::CreateWindow {
            label: "dsh-ui"@,
            url: "http://127.0.0.1:3080"@,
            title: "dsh 界面"@,
        })
        &&& if outcome(x[1].1) is Ok {
            &&& x.len() == 6
            &&& x[2].0 is Log
            &&& x[3].0 is WatchWindow
            &&& x[4].0 is ShowWindow
            &&& x[5].0 is FocusWindow
        } else {
            &&& x.len() == 4
            &&& x[2].0 is Log
            &&& x[3].0 == browser(platform, "http://127.0.0.1:3080"@)
        }
    }
}

/// A whole opening of the window shows exactly one window, or the browser where there can be
/// none; macOS shows the launcher as an ordinary application first.
pub proof fn law_whole_opening(place: Place, reply: ReplyView, moments: Seq<Moment>)
    requires
        alike(place, moments),
        done(
            TaskOf::Desktop(DesktopTaskOf::OpenDshUi(Opening::Start)),
            Seq::empty(),
            reply,
            moments,
        ) is Some,
    ensures
        ({
            let (x, a) = done(
                TaskOf::Desktop(DesktopTaskOf::OpenDshUi(Opening::Start)),
                Seq::empty(),
                reply,
                moments,
            )->0;
            &&& a == ReplyView::Nothing
            &&& x.len() > 0
            &&& is_line(x[0])
            &&& if place.platform == Platform::MacOs {
                &&& x.len() > 1
                &&& x[1].0 == EffectView::SetActivation(Activation::Regular)
                &&& window_told(place.platform, x.skip(2))
            } else {
                window_told(place.platform, x.skip(1))
            }
        }),
{
    let task: TaskView = TaskOf::Desktop(DesktopTaskOf::OpenDshUi(Opening::Start));
    let (x, a) = done(task, Seq::empty(), reply, moments)->0;
    lemma_step(place, task, reply, moments);
    lemma_open_task(moments[0].0, Opening::Start, reply);
    let (t1, asked) = task_step(moments[0].0, task, reply);
    let (x1, r1, m1, y1) = lemma_ask(place, t1, asked, ReplyOf::Nothing, moments.drop_first());
    let rest = asked.drop_first();
    if place.platform == Platform::MacOs {
        let (x2, r2, m2, y2) = lemma_ask(place, t1, rest, r1, m1);
        lemma_window(place, t1, rest.drop_first(), r2, m2);
        assert(x =~= x1 + x2 + y2);
        assert(x.skip(2) =~= y2);
    } else {
        lemma_window(place, t1, rest, r1, m1);
        assert(x.skip(1) =~= y1);
    }
}

proof fn lemma_window(
    place: Place,
    task: TaskView,
    asked: Seq<EffectView>,
    reply: ReplyView,
    moments: Seq<Moment>,
)
    requires
        alike(place, moments),
        task == TaskView::Desktop(DesktopTaskOf::OpenDshUi(Opening::Looking)),
        asked.len() == 1,
        asked[0] == EffectView::FindWindow("dsh-ui"@),
        done(task, asked, reply, moments) is Some,
    ensures
        ({
            let (x, a) = done(task, asked, reply, moments)->0;
            &&& window_told(place.platform, x)
            &&& a == ReplyView::Nothing
        }),
{
    let (x, a) = done(task, asked, reply, moments)->0;
    let (x1, r1, m1, y1) = lemma_ask_last(place, task, asked, reply, moments);
    lemma_step(place, task, r1, m1);
    lemma_open_task(m1[0].0, Opening::Looking, r1);
    let (t2, more) = task_step(m1[0].0, task, r1);
    let m2 = m1.drop_first();
    if yes(r1) {
        lemma_single(place, t2, more, ReplyOf::Nothing, m2);
        assert(asked_for(y1).len() == y1.len());
        assert forall|i: int| 0 <= i < y1.len() implies y1[i].0 == more[i] by {
            assert(asked_for(y1)[i] == more[i]);
        }
        assert(x =~= x1 + y1);
    } else {
        let (x2, r2, m3, y2) = lemma_ask_last(place, t2, more, ReplyOf::Nothing, m2);
        lemma_step(place, t2, r2, m3);
        let at = t2->Desktop_0->OpenDshUi_0;
        lemma_open_task(m3[0].0, at, r2);
        let (end, last) = task_step(m3[0].0, t2, r2);
        lemma_single(place, end, last, ReplyOf::Nothing, m3.drop_first());
        assert(asked_for(y2).len() == y2.len());
        assert forall|i: int| 0 <= i < y2.len() implies y2[i].0 == last[i] by {
            assert(asked_for(y2)[i] == last[i]);
        }
        assert(x =~= x1 + x2 + y2);
    }
}

/// A whole choice of the entry for the web interface opens the window.
pub proof fn law_menu_opens_the_window(place: Place, reply: ReplyView, moments: Seq<Moment>)
    requires
        alike(place, moments),
        done(
            TaskOf::Desktop(DesktopTaskOf::Menu("open"@, Choice::Start)),
            Seq::empty(),
            reply,
            moments,
        ) is Some,
    ensures
        ({
            let (x, a) = done(
                TaskOf::Desktop(DesktopTaskOf::Menu("open"@, Choice::Start)),
                Seq::empty(),
                reply,
                moments,
            )->0;
            &&& x.len() > 1
            &&& is_line(x[0])
            &&& is_line(x[1])
            &&& if place.platform == Platform::MacOs {
                &&& x.len() > 2
                &&& x[2].0 == EffectView::SetActivation(Activation::Regular)
                &&& window_told(place.platform, x.skip(3))
            } else {
                window_told(place.platform, x.skip(2))
            }
        }),
{
    let task: TaskView = TaskOf::Desktop(DesktopTaskOf::Menu("open"@, Choice::Start));
    let (x, a) = done(task, Seq::empty(), reply, moments)->0;
    lemma_ids();
    lemma_step(place, task, reply, moments);
    lemma_menu_task(moments[0].0, "open"@, Choice::Start, reply);
    let (next, asked) = task_step(moments[0].0, task, reply);
    let (lines, y, r1) = lemma_choice(
        place,
        "open"@,
        asked,
        1,
        ReplyOf::Nothing,
        moments.drop_first(),
    );
    assert(asked[1] == EffectView::OpenDshUi);
    assert(is_line(lines[0]));
    let inner = lemma_unfold(place, EffectOf::OpenDshUi, y, r1);
    law_whole_opening(place, ReplyOf::Nothing, inner);
    assert(x[1] == y[0]);
    assert(x.skip(2) =~= y.skip(1));
    if place.platform == Platform::MacOs {
        assert(x[2] == y[1]);
        assert(x.skip(3) =~= y.skip(2));
    }
}

// ---- time, coming up, and platforms without a manager ----

/// The size of a new window is remembered from a second after the moment of its making on.
pub proof fn law_opening_goes_by_the_moment(w: World, later: World, u: ())
    requires
        w.now + 1_000_000_000 <= u64::MAX,
    ensures
        ({
            let looking: TaskView = TaskOf::Desktop(DesktopTaskOf::OpenDshUi(Opening::Looking));
            let (making, _) = task_step(w, looking, ReplyOf::Flag(false));
            let (end, asked) = task_step(later, making, ReplyOf::Done(Ok(u)));
            &&& asked.contains(
                EffectView::WatchWindow { persist_after: (w.now + 1_000_000_000) as u64 },
            )
            &&& task_answer(end) == Some(ReplyView::Nothing)
        }),
{
    reveal(desktop_step);
    let looking: TaskView = TaskOf::Desktop(DesktopTaskOf::OpenDshUi(Opening::Looking));
    let (making, _) = task_step(w, looking, ReplyOf::Flag(false));
    let (end, asked) = task_step(later, making, ReplyOf::Done(Ok(u)));
    assert(asked[1] == EffectView::WatchWindow {
        persist_after: (w.now + 1_000_000_000) as u64,
    });
}

/// The launcher's coming up asks about login and starts a service that does not answer where the
/// platform can run one, stores the answer about login as it was given, and ends in what became
/// of the menu and the icon.
pub proof fn law_coming_up_goes_by_the_platform(
    w: World,
    reply: ReplyView,
    login: bool,
    r: Result<(), Seq<char>>,
)
    ensures
        task_step(w, TaskOf::Desktop(DesktopTaskOf::Setup(SetupOf::Start)), reply).1.last() == if (
        w.platform == Platform::Windows) {
            EffectView::ProbePort(3080)
        } else {
            EffectView::ReadAutostart
        },
        task_step(
            w,
            TaskOf::Desktop(DesktopTaskOf::Setup(SetupOf::Autostart)),
            ReplyOf::Flag(login),
        ).1 == seq![EffectView::StoreAutostart(login), EffectView::EnsureDefinition],
        task_step(
            w,
            TaskOf::Desktop(DesktopTaskOf::Setup(SetupOf::Probing)),
            ReplyOf::Flag(false),
        ).1.contains(EffectView::ServiceStart) <==> w.platform != Platform::Windows,
        task_step(
            w,
            TaskOf::Desktop(DesktopTaskOf::Setup(SetupOf::Menu)),
            ReplyOf::Done(r),
        ).0 == TaskView::Desktop(
            DesktopTaskOf::Setup(
                if r is Ok {
                    SetupOf::Tray
                } else {
                    SetupOf::Ended(r)
                },
            ),
        ),
        task_step(
            w,
            TaskOf::Desktop(DesktopTaskOf::Setup(SetupOf::Tray)),
            ReplyOf::Done(r),
        ).0 == TaskView::Desktop(DesktopTaskOf::Setup(SetupOf::Ended(r))),
        task_answer(TaskOf::Desktop(DesktopTaskOf::Setup(SetupOf::Ended(r)))) == Some(
            ReplyView::Done(r),
        ),
{
    reveal(desktop_step);
    let silent = task_step(
        w,
        TaskOf::Desktop(DesktopTaskOf::Setup(SetupOf::Probing)),
        ReplyOf::Flag(false),
    ).1;
    if w.platform != Platform::Windows {
        assert(silent[1] == EffectView::ServiceStart);
    }
    match r {
        Ok(u) => {
            assert(u == ());
        },
        Err(_) => {},
    }
}

/// Whether an effect is about the service.
pub open spec fn is_about_service(e: EffectView) -> bool {
    ||| e is EnsureDefinition
    ||| e is ReadAutostart
    ||| e is ServiceIsRunning
    ||| e is ServiceStart
    ||| e is ServiceStop
    ||| e is ServiceRestart
    ||| e is SetAutostart
}

/// Where no manager runs the service nothing is begun for it; elsewhere each effect about it
/// begins an operation of the platform's own manager and of no other.
pub proof fn law_managers_keep_to_their_platform(e: EffectView)
    requires
        is_about_service(e),
    ensures
        begun(Platform::Windows, e) is None,
        begun(Platform::MacOs, e) matches Some(t) && t is Launchd,
        begun(Platform::Linux, e) matches Some(t) && t is Systemd,
{
}

/// Effects that reach the world outside begin no operation: they are handed on as they are.
pub proof fn law_outside_effects_are_handed_on(platform: Platform, e: EffectView)
    requires
        e is Log || e is Warn || e is Run || e is Spawn || e is SpawnOn || e is IsFile || e is Exists
            || e is List || e is ReadText || e is CreateDirs || e is WriteText
            || e is StoreAutostart || e is ProbePort || e is Sleep || e is ShowActionMsg
            || e is SetTooltip || e is SetMenuText || e is OpenDshUiOnMainThread
            || e is SetActivation || e is FindWindow || e is CreateWindow || e is WatchWindow
            || e is ShowWindow || e is FocusWindow || e is HideWindow || e is PreventClose
            || e is SaveWindowSize || e is SaveCurrentWindowSize || e is BuildMenu || e is KeepMenu
            || e is BuildTray || e is StartStatusPoller || e is StartStartupUi || e is Exit,
    ensures
        begun(platform, e) is None,
{
}

} // verus!

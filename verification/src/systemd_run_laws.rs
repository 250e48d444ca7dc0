//! What whole runs of the operations under systemd promise.

use vstd::prelude::*;

use crate::calls::systemd_step;
use crate::calls::task_step;
use crate::calls::SystemdTaskOf;
use crate::calls::TaskOf;
use crate::calls::TaskView;
use crate::calls::World;
use crate::definition::RenderOf;
use crate::definition::RenderView;
use crate::effect::outcome;
use crate::effect::yes;
use crate::effect::EffectOf;
use crate::effect::EffectView;
use crate::effect::Phase;
use crate::effect::Query;
use crate::effect::ReplyOf;
use crate::effect::ReplyView;
use crate::linux_service;
use crate::linux_service::definition_path;
use crate::linux_service::unit;
use crate::locations::home_path;
use crate::locations::service_log_path;
use crate::locations::Platform;
use crate::native::decoded;
use crate::native::quotation;
use crate::path::absolute;
use crate::path::path_parent;
use crate::run_laws::alike;
use crate::run_laws::carried_out;
use crate::run_laws::done;
use crate::run_laws::lemma_ask;
use crate::run_laws::lemma_ask_last;
use crate::run_laws::lemma_end;
use crate::run_laws::lemma_picked_add;
use crate::run_laws::lemma_picked_one;
use crate::run_laws::lemma_step;
use crate::run_laws::lemma_unfold;
use crate::run_laws::picked;
use crate::run_laws::Exchange;
use crate::run_laws::Moment;
use crate::run_laws::Place;
use crate::search_run_laws::env_told;
use crate::search_run_laws::lemma_env_effect;
use crate::search_run_laws::lemma_program_effect;
use crate::search_run_laws::program_told;
use crate::search_run_laws::under;
use crate::service_run_laws::answered;
use crate::service_run_laws::law_making_writes_nothing;
use crate::service_run_laws::law_quiet_effects_give_no_commands;
use crate::service_run_laws::law_systemctl_is_run;
use crate::service_run_laws::lemma_answered_once;
use crate::service_run_laws::lemma_lead;
use crate::service_run_laws::lemma_plain;
use crate::service_run_laws::lemma_short;
use crate::service_run_laws::lemma_three;
use crate::service_run_laws::lemma_unanswered;
use crate::service_run_laws::order;
use crate::service_run_laws::order_of;
use crate::service_run_laws::stored;
use crate::service_run_laws::systemctl;
use crate::service_run_laws::written_file;
use crate::text::contains;

verus! {

// ---- names ----

/// The directory for configuration, of all applications.
pub open spec fn linux_config(place: Place) -> Seq<u8> {
    match place.linux_env.xdg_config_home {
        Some(dir) if absolute(dir@) => dir@,
        _ => under(home_path(place.linux_env), seq![".config"@]),
    }
}

/// The directory for state and logs, of all applications.
pub open spec fn linux_state(place: Place) -> Seq<u8> {
    match place.linux_env.xdg_state_home {
        Some(dir) if absolute(dir@) => dir@,
        _ => under(home_path(place.linux_env), seq![".local/state"@]),
    }
}

/// The file that defines the service.
pub open spec fn unit_file(place: Place) -> Seq<u8> {
    under(linux_config(place), seq!["systemd/user"@, "dsh-launcher-web.service"@])
}

/// The file to which the service writes its output.
pub open spec fn linux_log(place: Place) -> Seq<u8> {
    under(linux_state(place), seq!["dsh-launcher"@, "dsh-web.log"@])
}

proof fn lemma_names(place: Place)
    ensures
        definition_path(place.linux_env) == unit_file(place),
        service_log_path(Platform::Linux, place.linux_env) == linux_log(place),
{
    reveal_with_fuel(under, 3);
    let a = "systemd/user"@;
    let b = "dsh-launcher-web.service"@;
    assert(seq![a, b].drop_last() =~= seq![a]);
    assert(seq![a].drop_last() =~= Seq::empty());
    let c = "dsh-launcher"@;
    let d = "dsh-web.log"@;
    assert(seq![c, d].drop_last() =~= seq![c]);
    assert(seq![c].drop_last() =~= Seq::empty());
    assert(seq![".config"@].drop_last() =~= Seq::empty());
    assert(seq![".local/state"@].drop_last() =~= Seq::empty());
}

// ---- single steps ----

proof fn lemma_content_task(w: World, enabled: bool, s: RenderView, reply: ReplyView)
    ensures
        ({
            let (next, effects) = linux_service::content_step(w.linux, s, reply);
            task_step(w, TaskOf::Systemd(SystemdTaskOf::UnitContent(enabled, s)), reply) == (
                TaskView::Systemd(SystemdTaskOf::UnitContent(enabled, next)),
                effects,
            )
        }),
{
    reveal(systemd_step);
}

proof fn lemma_write_task(
    w: World,
    enabled: bool,
    s: linux_service::WriteView,
    reply: ReplyView,
)
    ensures
        ({
            let (next, effects) = linux_service::write_step(w.linux, enabled, s, reply);
            task_step(w, TaskOf::Systemd(SystemdTaskOf::WriteUnit(enabled, s)), reply) == (
                TaskView::Systemd(SystemdTaskOf::WriteUnit(enabled, next)),
                effects,
            )
        }),
{
    reveal(systemd_step);
}

proof fn lemma_ensure_task(w: World, s: linux_service::EnsureView, reply: ReplyView)
    ensures
        ({
            let (next, effects) = linux_service::ensure_step(w.linux, s, reply);
            task_step(w, TaskOf::Systemd(SystemdTaskOf::Ensure(s)), reply) == (
                TaskView::Systemd(SystemdTaskOf::Ensure(next)),
                effects,
            )
        }),
{
    reveal(systemd_step);
}

proof fn lemma_query_tasks(w: World, s: Query, reply: ReplyView)
    ensures
        ({
            let (next, effects) = linux_service::running_step(s, reply);
            task_step(w, TaskOf::Systemd(SystemdTaskOf::Running(s)), reply) == (
                TaskView::Systemd(SystemdTaskOf::Running(next)),
                effects,
            )
        }),
        ({
            let (next, effects) = linux_service::autostart_step(w.linux, s, reply);
            task_step(w, TaskOf::Systemd(SystemdTaskOf::Autostart(s)), reply) == (
                TaskView::Systemd(SystemdTaskOf::Autostart(next)),
                effects,
            )
        }),
{
    reveal(systemd_step);
}

proof fn lemma_phase_tasks(w: World, enabled: bool, s: Phase, reply: ReplyView)
    ensures
        ({
            let (next, effects) = linux_service::start_step(s, reply);
            task_step(w, TaskOf::Systemd(SystemdTaskOf::Start(s)), reply) == (
                TaskView::Systemd(SystemdTaskOf::Start(next)),
                effects,
            )
        }),
        ({
            let (next, effects) = linux_service::stop_step(s);
            task_step(w, TaskOf::Systemd(SystemdTaskOf::Stop(s)), reply) == (
                TaskView::Systemd(SystemdTaskOf::Stop(next)),
                effects,
            )
        }),
        ({
            let (next, effects) = linux_service::restart_step(s, reply);
            task_step(w, TaskOf::Systemd(SystemdTaskOf::Restart(s)), reply) == (
                TaskView::Systemd(SystemdTaskOf::Restart(next)),
                effects,
            )
        }),
        ({
            let (next, effects) = linux_service::set_autostart_step(enabled, s, reply);
            task_step(w, TaskOf::Systemd(SystemdTaskOf::SetAutostart(enabled, s)), reply) == (
                TaskView::Systemd(SystemdTaskOf::SetAutostart(enabled, next)),
                effects,
            )
        }),
{
    reveal(systemd_step);
}

// ---- commands ----

/// Having systemd read its units anew.
pub open spec fn read_units() -> (Seq<char>, Seq<Seq<char>>) {
    ("systemctl"@, seq!["--user"@, "daemon-reload"@])
}

/// Having systemd do something to the service.
pub open spec fn to_unit(verb: Seq<char>) -> (Seq<char>, Seq<Seq<char>>) {
    ("systemctl"@, seq!["--user"@, verb, "dsh-launcher-web.service"@])
}

/// Asking systemd whether the service runs.
pub open spec fn ask_unit() -> (Seq<char>, Seq<Seq<char>>) {
    ("systemctl"@, seq!["--user"@, "is-active"@, "--quiet"@, "dsh-launcher-web.service"@])
}

proof fn lemma_unit_orders(verb: Seq<char>)
    ensures
        order_of(linux_service::daemon_reload()) == seq![read_units()],
        order_of(linux_service::unit_command(verb)) == seq![to_unit(verb)],
        systemctl(seq!["is-active"@, "--quiet"@, "dsh-launcher-web.service"@]) == ask_unit(),
{
    assert(seq!["--user"@] + seq!["daemon-reload"@] =~= seq!["--user"@, "daemon-reload"@]);
    assert(seq!["--user"@] + seq![verb, "dsh-launcher-web.service"@] =~= to_unit(verb).1);
    assert(seq!["--user"@] + seq!["is-active"@, "--quiet"@, "dsh-launcher-web.service"@]
        =~= ask_unit().1);
}

// ---- does it run, does it start at login? ----

/// Whether a command ran and ended with success.
pub open spec fn well_ended(reply: ReplyView) -> bool {
    reply matches ReplyOf::Command(Some(o)) && o.success
}

/// Whether systemd was asked about the service, once and nothing else, and `a` is whether it said
/// that the service runs.
pub open spec fn running_told(x: Seq<Exchange>, a: ReplyView) -> bool {
    let answers = picked(x, answered(ask_unit()));
    &&& picked(x, order()) == seq![ask_unit()]
    &&& answers.len() == 1
    &&& a == ReplyView::Flag(well_ended(answers[0]))
    &&& picked(x, stored()) == Seq::<bool>::empty()
    &&& picked(x, written_file()) == Seq::<(Seq<u8>, Seq<char>)>::empty()
}

/// A whole question whether the service runs is one question to systemd.
pub proof fn law_whole_running(place: Place, reply: ReplyView, moments: Seq<Moment>)
    requires
        alike(place, moments),
        done(
            TaskOf::Systemd(SystemdTaskOf::Running(Query::Start)),
            Seq::empty(),
            reply,
            moments,
        ) is Some,
    ensures
        ({
            let (x, a) = done(
                TaskOf::Systemd(SystemdTaskOf::Running(Query::Start)),
                Seq::empty(),
                reply,
                moments,
            )->0;
            running_told(x, a)
        }),
{
    let start: TaskView = TaskOf::Systemd(SystemdTaskOf::Running(Query::Start));
    let (x, a) = done(start, Seq::empty(), reply, moments)->0;
    lemma_step(place, start, reply, moments);
    lemma_query_tasks(moments[0].0, Query::Start, reply);
    lemma_unit_orders(Seq::empty());
    let args = seq!["is-active"@, "--quiet"@, "dsh-launcher-web.service"@];
    let (task, asked) = task_step(moments[0].0, start, reply);
    let (x1, r1, m1, y1) = lemma_ask_last(
        place,
        task,
        asked,
        ReplyOf::Nothing,
        moments.drop_first(),
    );
    law_systemctl_is_run(place, args, x1, r1);
    lemma_answered_once(ask_unit(), x1, r1);
    lemma_step(place, task, r1, m1);
    lemma_query_tasks(m1[0].0, Query::Waiting, r1);
    let (end, none) = task_step(m1[0].0, task, r1);
    assert(none =~= Seq::empty());
    lemma_end(end, ReplyOf::Nothing, m1.drop_first());
    assert(x =~= x1);
}

proof fn lemma_running(place: Place, x: Seq<Exchange>, a: ReplyView)
    requires
        place.platform == Platform::Linux,
        carried_out(place, EffectOf::ServiceIsRunning, x, a),
    ensures
        running_told(x, a),
{
    let moments = lemma_unfold(place, EffectOf::ServiceIsRunning, x, a);
    law_whole_running(place, ReplyOf::Nothing, moments);
}

/// A whole question whether the service starts at login: without a unit it does not, and
/// otherwise systemd says whether the unit is enabled.
pub proof fn law_whole_login_question(place: Place, reply: ReplyView, moments: Seq<Moment>)
    requires
        alike(place, moments),
        done(
            TaskOf::Systemd(SystemdTaskOf::Autostart(Query::Start)),
            Seq::empty(),
            reply,
            moments,
        ) is Some,
    ensures
        ({
            let (x, a) = done(
                TaskOf::Systemd(SystemdTaskOf::Autostart(Query::Start)),
                Seq::empty(),
                reply,
                moments,
            )->0;
            let answers = picked(x, answered(to_unit("is-enabled"@)));
            &&& x.len() > 0
            &&& x[0].0 == EffectView::Exists(unit_file(place))
            &&& if yes(x[0].1) {
                &&& picked(x, order()) == seq![to_unit("is-enabled"@)]
                &&& answers.len() == 1
                &&& a == ReplyView::Flag(well_ended(answers[0]))
            } else {
                x.len() == 1 && a == ReplyView::Flag(false)
            }
        }),
{
    let start: TaskView = TaskOf::Systemd(SystemdTaskOf::Autostart(Query::Start));
    let (x, a) = done(start, Seq::empty(), reply, moments)->0;
    lemma_names(place);
    lemma_unit_orders("is-enabled"@);
    lemma_step(place, start, reply, moments);
    lemma_query_tasks(moments[0].0, Query::Start, reply);
    let (task, asked) = task_step(moments[0].0, start, reply);
    let (x1, r1, m1, y1) = lemma_ask_last(
        place,
        task,
        asked,
        ReplyOf::Nothing,
        moments.drop_first(),
    );
    lemma_step(place, task, r1, m1);
    lemma_query_tasks(m1[0].0, Query::Waiting, r1);
    let (next, more) = task_step(m1[0].0, task, r1);
    let m2 = m1.drop_first();
    assert(x1 =~= seq![x1[0]]);
    if yes(r1) {
        let (x2, r2, m3, y2) = lemma_ask_last(place, next, more, ReplyOf::Nothing, m2);
        let args = seq!["is-enabled"@, "dsh-launcher-web.service"@];
        let ask = to_unit("is-enabled"@);
        assert(systemctl(args) == ask) by {
            assert(order_of(EffectView::Systemctl(args))[0] == systemctl(args));
        }
        law_systemctl_is_run(place, args, x2, r2);
        lemma_answered_once(ask, x2, r2);
        lemma_step(place, next, r2, m3);
        lemma_query_tasks(m3[0].0, Query::Asking, r2);
        let (end, none) = task_step(m3[0].0, next, r2);
        assert(none =~= Seq::empty());
        lemma_end(end, ReplyOf::Nothing, m3.drop_first());
        assert(x =~= x1 + x2);
        lemma_picked_add(x1, x2, order());
        lemma_picked_add(x1, x2, answered(ask));
        lemma_picked_one(x1[0], order());
        lemma_picked_one(x1[0], answered(ask));
        assert(picked(x, order()) =~= seq![ask]);
        assert(picked(x, answered(ask)) =~= seq![x2[1].1]);
    } else {
        assert(more =~= Seq::empty());
        lemma_end(next, ReplyOf::Nothing, m2);
        assert(x =~= x1);
    }
}

// ---- making the unit ----

/// Whether a text is the unit for the command line and the environment that were searched for,
/// each word of the command line in quotes.
#[verifier::opaque]
pub open spec fn unit_made(place: Place, x: Seq<Exchange>, text: Seq<char>) -> bool {
    exists|n: int, words: Seq<Seq<char>>, vars: Seq<(Seq<char>, Seq<char>)>|
        0 <= n <= x.len() && #[trigger] program_told(
            home_path(place.mac_env),
            x.take(n),
            ReplyView::Program(Ok(words)),
        ) && #[trigger] env_told(place.own, x.skip(n), ReplyView::Env(vars)) && text == unit(
            words.map_values(|w: Seq<char>| quotation(w)),
            vars,
            decoded(linux_log(place)),
        )
}

/// Whether a making of the unit ended in it, or failed as the making of the command line did.
pub open spec fn content_told(place: Place, x: Seq<Exchange>, a: ReplyView) -> bool {
    match a {
        ReplyOf::Text(Ok(text)) => unit_made(place, x, text),
        ReplyOf::Text(Err(e)) => program_told(
            home_path(place.mac_env),
            x,
            ReplyView::Program(Err(e)),
        ),
        _ => false,
    }
}

/// A whole making of the unit ends in the one for the command line and the environment that it
/// searched for.
pub proof fn law_whole_unit(
    place: Place,
    enabled: bool,
    reply: ReplyView,
    moments: Seq<Moment>,
)
    requires
        alike(place, moments),
        done(
            TaskOf::Systemd(SystemdTaskOf::UnitContent(enabled, RenderOf::Start)),
            Seq::empty(),
            reply,
            moments,
        ) is Some,
    ensures
        ({
            let (x, a) = done(
                TaskOf::Systemd(SystemdTaskOf::UnitContent(enabled, RenderOf::Start)),
                Seq::empty(),
                reply,
                moments,
            )->0;
            content_told(place, x, a)
        }),
{
    let home = home_path(place.mac_env);
    let start: TaskView = TaskOf::Systemd(SystemdTaskOf::UnitContent(enabled, RenderOf::Start));
    let (x, a) = done(start, Seq::empty(), reply, moments)->0;
    lemma_step(place, start, reply, moments);
    lemma_content_task(moments[0].0, enabled, RenderOf::Start, reply);
    let (task, asked) = task_step(moments[0].0, start, reply);
    let (x1, r1, m1, y1) = lemma_ask_last(
        place,
        task,
        asked,
        ReplyOf::Nothing,
        moments.drop_first(),
    );
    lemma_program_effect(place, x1, r1);
    lemma_step(place, task, r1, m1);
    lemma_content_task(m1[0].0, enabled, RenderOf::Program, r1);
    let (next, more) = task_step(m1[0].0, task, r1);
    let m2 = m1.drop_first();
    match r1->Program_0 {
        Err(e) => {
            assert(more =~= Seq::empty());
            lemma_end(next, ReplyOf::Nothing, m2);
            assert(x =~= x1);
        },
        Ok(words) => {
            let (x2, r2, m3, y2) = lemma_ask_last(place, next, more, ReplyOf::Nothing, m2);
            lemma_env_effect(place, x2, r2);
            lemma_step(place, next, r2, m3);
            lemma_content_task(m3[0].0, enabled, RenderOf::Env(words), r2);
            let (end, none) = task_step(m3[0].0, next, r2);
            assert(none =~= Seq::empty());
            lemma_end(end, ReplyOf::Nothing, m3.drop_first());
            lemma_names(place);
            let n = x1.len() as int;
            assert(x.take(n) =~= x1);
            assert(x.skip(n) =~= x2);
            assert(program_told(home, x.take(n), ReplyView::Program(Ok(words))));
            assert(env_told(place.own, x.skip(n), ReplyView::Env(r2->Env_0)));
            assert(linux_service::all_quoted(words) =~= words.map_values(
                |w: Seq<char>| quotation(w),
            ));
            reveal(unit_made);
        },
    }
}

// ---- writing the unit ----

/// Whether the unit was made and then written to the one file that defines the service.
#[verifier::opaque]
pub open spec fn made_and_written(place: Place, x: Seq<Exchange>, a: ReplyView) -> bool {
    exists|n: int, made: ReplyView|
        0 <= n <= x.len() && #[trigger] content_told(place, x.take(n), made) && match made {
            ReplyOf::Text(Ok(text)) => {
                &&& x.len() > n
                &&& x[n].0 == EffectView::WriteText { path: unit_file(place), text }
                &&& a is Done
                &&& a->Done_0 is Ok <==> outcome(x[n].1) is Ok
            },
            ReplyOf::Text(Err(e)) => x.len() == n && a == ReplyView::Done(Err(e)),
            _ => false,
        }
}

/// Whether the directory of the unit was made, and then the unit made and written; where the
/// directory cannot be made, nothing is written.
pub open spec fn write_told(place: Place, x: Seq<Exchange>, a: ReplyView) -> bool {
    match path_parent(unit_file(place)) {
        Some(dir) => {
            &&& x.len() > 0
            &&& x[0].0 == EffectView::CreateDirs(dir)
            &&& match outcome(x[0].1) {
                Ok(_) => made_and_written(place, x.drop_first(), a),
                Err(e) => x.len() == 1 && a == ReplyView::Done(Err(e)),
            }
        },
        None => made_and_written(place, x, a),
    }
}

/// What a run wrote: nothing, or one unit, in the one file that defines the service.
pub open spec fn wrote_unit(
    place: Place,
    files: Seq<(Seq<u8>, Seq<char>)>,
    a: ReplyView,
) -> bool {
    &&& a is Done
    &&& files.len() <= 1
    &&& a->Done_0 is Ok ==> files.len() == 1
    &&& files.len() == 1 ==> {
        &&& files[0].0 == unit_file(place)
        &&& exists|y: Seq<Exchange>| #[trigger] unit_made(place, y, files[0].1)
    }
}

proof fn lemma_write_made(
    place: Place,
    enabled: bool,
    task: TaskView,
    asked: Seq<EffectView>,
    reply: ReplyView,
    moments: Seq<Moment>,
)
    requires
        alike(place, moments),
        task == TaskView::Systemd(SystemdTaskOf::WriteUnit(enabled, linux_service::WriteOf::Text)),
        asked == seq![EffectView::UnitContent { enabled }],
        done(task, asked, reply, moments) is Some,
    ensures
        ({
            let (x, a) = done(task, asked, reply, moments)->0;
            &&& made_and_written(place, x, a)
            &&& wrote_unit(place, picked(x, written_file()), a)
        }),
{
    let (x, a) = done(task, asked, reply, moments)->0;
    let (x1, r1, m1, y1) = lemma_ask_last(place, task, asked, reply, moments);
    let inner = lemma_unfold(place, asked[0], x1, r1);
    law_whole_unit(place, enabled, ReplyOf::Nothing, inner);
    law_making_writes_nothing(place, asked[0], x1, r1);
    lemma_step(place, task, r1, m1);
    lemma_write_task(m1[0].0, enabled, linux_service::WriteOf::Text, r1);
    let (next, more) = task_step(m1[0].0, task, r1);
    let m2 = m1.drop_first();
    let n = x1.len() as int;
    assert(x.take(n) =~= x1);
    assert(content_told(place, x.take(n), r1));
    lemma_names(place);
    match r1->Text_0 {
        Err(e) => {
            assert(more =~= Seq::empty());
            lemma_end(next, ReplyOf::Nothing, m2);
            assert(x =~= x1);
        },
        Ok(text) => {
            let (x2, r2, m3, y2) = lemma_ask_last(place, next, more, ReplyOf::Nothing, m2);
            lemma_step(place, next, r2, m3);
            lemma_write_task(m3[0].0, enabled, linux_service::WriteOf::File, r2);
            let (end, line) = task_step(m3[0].0, next, r2);
            let (x3, r3, m4, y3) = lemma_plain(
                place,
                end,
                line,
                ReplyOf::Nothing,
                m3.drop_first(),
            );
            lemma_end(end, r3, m4);
            assert(x =~= x1 + x2 + x3);
            assert(x[n] == x2[0]);
            lemma_three(x1, x2, x3, x);
            lemma_picked_one(x2[0], written_file());
            assert(x2 =~= seq![x2[0]]);
            let files = picked(x, written_file());
            assert(files =~= seq![(unit_file(place), text)]);
            assert(files[0] == (unit_file(place), text));
            assert(unit_made(place, x.take(n), files[0].1));
        },
    }
    reveal(made_and_written);
}

/// A whole writing of the unit makes its directory, makes the unit and writes it to the one file
/// that defines the service.
pub proof fn law_whole_writing(
    place: Place,
    enabled: bool,
    reply: ReplyView,
    moments: Seq<Moment>,
)
    requires
        alike(place, moments),
        done(
            TaskOf::Systemd(SystemdTaskOf::WriteUnit(enabled, linux_service::WriteOf::Start)),
            Seq::empty(),
            reply,
            moments,
        ) is Some,
    ensures
        ({
            let (x, a) = done(
                TaskOf::Systemd(SystemdTaskOf::WriteUnit(enabled, linux_service::WriteOf::Start)),
                Seq::empty(),
                reply,
                moments,
            )->0;
            &&& write_told(place, x, a)
            &&& wrote_unit(place, picked(x, written_file()), a)
        }),
{
    let start: TaskView = TaskOf::Systemd(
        SystemdTaskOf::WriteUnit(enabled, linux_service::WriteOf::Start),
    );
    let (x, a) = done(start, Seq::empty(), reply, moments)->0;
    lemma_names(place);
    lemma_step(place, start, reply, moments);
    lemma_write_task(moments[0].0, enabled, linux_service::WriteOf::Start, reply);
    let (task, asked) = task_step(moments[0].0, start, reply);
    let rest = moments.drop_first();
    match path_parent(unit_file(place)) {
        None => {
            lemma_write_made(place, enabled, task, asked, ReplyOf::Nothing, rest);
        },
        Some(dir) => {
            let (x1, r1, m1, y1) = lemma_ask_last(place, task, asked, ReplyOf::Nothing, rest);
            lemma_step(place, task, r1, m1);
            lemma_write_task(m1[0].0, enabled, linux_service::WriteOf::Directory, r1);
            let (next, more) = task_step(m1[0].0, task, r1);
            let m2 = m1.drop_first();
            assert(x.drop_first() =~= y1);
            assert(x1 =~= seq![x1[0]]);
            lemma_picked_one(x1[0], written_file());
            lemma_picked_add(x1, y1, written_file());
            match outcome(r1) {
                Ok(_) => {
                    lemma_write_made(place, enabled, next, more, ReplyOf::Nothing, m2);
                    assert(picked(x, written_file()) =~= picked(y1, written_file()));
                },
                Err(e) => {
                    assert(more =~= Seq::empty());
                    lemma_end(next, ReplyOf::Nothing, m2);
                    assert(x =~= x1);
                },
            }
        },
    }
}

proof fn lemma_write(place: Place, enabled: bool, x: Seq<Exchange>, a: ReplyView)
    requires
        carried_out(place, EffectOf::WriteUnit { enabled }, x, a),
    ensures
        write_told(place, x, a),
        wrote_unit(place, picked(x, written_file()), a),
        picked(x, order()) == Seq::<(Seq<char>, Seq<Seq<char>>)>::empty(),
        picked(x, stored()) == Seq::<bool>::empty(),
{
    let effect = EffectView::WriteUnit { enabled };
    let moments = lemma_unfold(place, effect, x, a);
    law_whole_writing(place, enabled, ReplyOf::Nothing, moments);
    law_quiet_effects_give_no_commands(place, effect, x, a);
}

// ---- seeing to the unit ----

/// The commands that seeing to the unit gave: none, or those after it was written anew: systemd
/// reads it, is asked about the service, and restarts it exactly where it runs.
pub open spec fn refreshed(x: Seq<Exchange>, anew: bool) -> bool {
    let answers = picked(x, answered(ask_unit()));
    if anew {
        &&& answers.len() == 1
        &&& picked(x, order()) == if well_ended(answers[0]) {
            seq![read_units(), ask_unit(), to_unit("restart"@)]
        } else {
            seq![read_units(), ask_unit()]
        }
    } else {
        picked(x, order()) == Seq::<(Seq<char>, Seq<Seq<char>>)>::empty()
    }
}

/// What seeing to the unit does: one that hands the service a search path is left alone, any
/// other is written anew, and where there is none it is written.
#[verifier::opaque]
pub open spec fn ensure_told(place: Place, x: Seq<Exchange>, a: ReplyView) -> bool {
    let path = unit_file(place);
    &&& x.len() >= 2
    &&& x[0].0 == EffectView::Exists(path)
    &&& x[1].0 is Log
    &&& a is Done
    &&& picked(x, stored()) == Seq::<bool>::empty()
    &&& if yes(x[0].1) {
        &&& x.len() >= 3
        &&& x[2].0 == EffectView::ReadText(path)
        &&& match x[2].1 {
            ReplyOf::Text(Ok(text)) if contains(text, "Environment=PATH="@) => x.len() == 3 && a
                == ReplyView::Done(Ok(())) && refreshed(x, false),
            _ => x.len() >= 4 && x[3].0 is Log && exists|n: int, w: ReplyView|
                4 <= n <= x.len() && #[trigger] write_told(place, x.subrange(4, n), w) && a->Done_0
                    is Ok == w->Done_0 is Ok && refreshed(x, w->Done_0 is Ok),
        }
    } else {
        write_told(place, x.skip(2), a) && refreshed(x, false)
    }
}

proof fn lemma_one_file(place: Place, e: EffectView, x: Seq<Exchange>, a: ReplyView)
    requires
        e is ReadText || e is Exists || e is Log,
        carried_out(place, e, x, a),
    ensures
        x == seq![(e, a)],
        picked(x, order()) == Seq::<(Seq<char>, Seq<Seq<char>>)>::empty(),
        picked(x, stored()) == Seq::<bool>::empty(),
        picked(x, written_file()) == Seq::<(Seq<u8>, Seq<char>)>::empty(),
{
    lemma_picked_one((e, a), order());
    lemma_picked_one((e, a), stored());
    lemma_picked_one((e, a), written_file());
}

proof fn lemma_refresh(place: Place, task: TaskView, reply: ReplyView, moments: Seq<Moment>)
    requires
        place.platform == Platform::Linux,
        alike(place, moments),
        task == TaskView::Systemd(SystemdTaskOf::Ensure(linux_service::EnsureOf::Old)),
        done(task, Seq::empty(), reply, moments) is Some,
    ensures
        ({
            let (x, a) = done(task, Seq::empty(), reply, moments)->0;
            &&& a == ReplyView::Done(outcome(reply))
            &&& refreshed(x, outcome(reply) is Ok)
            &&& picked(x, stored()) == Seq::<bool>::empty()
            &&& picked(x, written_file()) == Seq::<(Seq<u8>, Seq<char>)>::empty()
        }),
{
    let (x, a) = done(task, Seq::empty(), reply, moments)->0;
    lemma_step(place, task, reply, moments);
    lemma_ensure_task(moments[0].0, linux_service::EnsureOf::Old, reply);
    lemma_unit_orders("restart"@);
    let (t1, asked) = task_step(moments[0].0, task, reply);
    let m0 = moments.drop_first();
    match outcome(reply) {
        Err(e) => {
            assert(asked =~= Seq::empty());
            lemma_end(t1, ReplyOf::Nothing, m0);
        },
        Ok(u) => {
            assert(u == ());
            let (x1, r1, m1, y1) = lemma_lead(place, t1, asked, 1, ReplyOf::Nothing, m0);
            lemma_short(asked.take(1));
            assert(asked.skip(1) =~= seq![EffectView::ServiceIsRunning]);
            let (x2, r2, m2, y2) = lemma_ask_last(place, t1, asked.skip(1), r1, m1);
            lemma_running(place, x2, r2);
            lemma_step(place, t1, r2, m2);
            lemma_ensure_task(m2[0].0, linux_service::EnsureOf::Reloaded, r2);
            let (end, last) = task_step(m2[0].0, t1, r2);
            let (x3, r3, m3, y3) = lemma_plain(
                place,
                end,
                last,
                ReplyOf::Nothing,
                m2.drop_first(),
            );
            lemma_end(end, r3, m3);
            lemma_short(last);
            assert(x =~= x1 + x2 + x3);
            lemma_three(x1, x2, x3, x);
            let ask = ask_unit();
            assert(ask.1.len() == 4 && read_units().1.len() == 2 && to_unit("restart"@).1.len()
                == 3);
            assert(picked(x1, order()) =~= seq![read_units()]);
            lemma_unanswered(x1, ask);
            lemma_unanswered(x3, ask);
            lemma_picked_add(x1 + x2, x3, answered(ask));
            lemma_picked_add(x1, x2, answered(ask));
            assert(picked(x, answered(ask)) =~= picked(x2, answered(ask)));
            assert(picked(x, order()) =~= if yes(r2) {
                seq![read_units(), ask, to_unit("restart"@)]
            } else {
                seq![read_units(), ask]
            });
        },
    }
}

/// A whole seeing to the unit leaves one that hands the service a search path as it is, writes
/// any other anew, and writes one where there is none.
#[verifier::rlimit(60)]
pub proof fn law_whole_seeing_to_the_unit(place: Place, reply: ReplyView, moments: Seq<Moment>)
    requires
        place.platform == Platform::Linux,
        alike(place, moments),
        done(
            TaskOf::Systemd(SystemdTaskOf::Ensure(linux_service::EnsureOf::Start)),
            Seq::empty(),
            reply,
            moments,
        ) is Some,
    ensures
        ({
            let (x, a) = done(
                TaskOf::Systemd(SystemdTaskOf::Ensure(linux_service::EnsureOf::Start)),
                Seq::empty(),
                reply,
                moments,
            )->0;
            &&& ensure_told(place, x, a)
            &&& exists|w: ReplyView| #[trigger] wrote_unit(place, picked(x, written_file()), w)
        }),
{
    let start: TaskView = TaskOf::Systemd(SystemdTaskOf::Ensure(linux_service::EnsureOf::Start));
    let (x, a) = done(start, Seq::empty(), reply, moments)->0;
    lemma_names(place);
    lemma_step(place, start, reply, moments);
    lemma_ensure_task(moments[0].0, linux_service::EnsureOf::Start, reply);
    let (t1, asked) = task_step(moments[0].0, start, reply);
    let (x0, r0, m0, y0) = lemma_ask_last(place, t1, asked, ReplyOf::Nothing, moments.drop_first());
    lemma_one_file(place, asked[0], x0, r0);
    lemma_step(place, t1, r0, m0);
    lemma_ensure_task(m0[0].0, linux_service::EnsureOf::Looking, r0);
    let (t2, more) = task_step(m0[0].0, t1, r0);
    let m1 = m0.drop_first();
    let (x1, r1, m2, y1) = lemma_ask(place, t2, more, ReplyOf::Nothing, m1);
    lemma_one_file(place, more[0], x1, r1);
    let rest = more.drop_first();
    let (x2, r2, m3, y2) = lemma_ask_last(place, t2, rest, r1, m2);
    let head = x0 + x1 + x2;
    assert(x =~= head + y2);
    lemma_three(x0, x1, x2, head);
    lemma_step(place, t2, r2, m3);
    if yes(r0) {
        lemma_one_file(place, rest[0], x2, r2);
        lemma_ensure_task(m3[0].0, linux_service::EnsureOf::Inspecting, r2);
        let (t3, last) = task_step(m3[0].0, t2, r2);
        let m4 = m3.drop_first();
        let good = r2 matches ReplyOf::Text(Ok(text)) && contains(text, "Environment=PATH="@);
        if good {
            assert(last =~= Seq::empty());
            lemma_end(t3, ReplyOf::Nothing, m4);
            assert(x =~= head);
            assert(wrote_unit(place, picked(x, written_file()), ReplyView::Done(Err(Seq::empty()))));
        } else {
            let (x3, r3, m5, y3) = lemma_ask(place, t3, last, ReplyOf::Nothing, m4);
            lemma_one_file(place, last[0], x3, r3);
            let write = last.drop_first();
            let (x4, r4, m6, y4) = lemma_ask_last(place, t3, write, r3, m5);
            lemma_write(place, write[0]->WriteUnit_enabled, x4, r4);
            lemma_refresh(place, t3, r4, m6);
            let front = head + x3 + x4;
            lemma_three(head, x3, x4, front);
            assert(x =~= front + y4);
            let n = 4 + x4.len() as int;
            assert(x.subrange(4, n) =~= x4);
            assert(x[3] == x3[0]);
            lemma_picked_add(front, y4, order());
            lemma_picked_add(front, y4, stored());
            lemma_picked_add(front, y4, written_file());
            lemma_picked_add(front, y4, answered(ask_unit()));
            assert(picked(front, order()) =~= Seq::<(Seq<char>, Seq<Seq<char>>)>::empty());
            lemma_unanswered(front, ask_unit());
            assert(picked(x, order()) =~= picked(y4, order()));
            assert(picked(x, answered(ask_unit())) =~= picked(y4, answered(ask_unit())));
            assert(picked(x, stored()) =~= Seq::<bool>::empty());
            assert(picked(x, written_file()) =~= picked(x4, written_file()));
            assert(write_told(place, x.subrange(4, n), r4));
            assert(wrote_unit(place, picked(x, written_file()), r4));
        }
    } else {
        lemma_write(place, rest[0]->WriteUnit_enabled, x2, r2);
        lemma_ensure_task(m3[0].0, linux_service::EnsureOf::New, r2);
        let (t3, last) = task_step(m3[0].0, t2, r2);
        assert(last =~= Seq::empty());
        lemma_end(t3, ReplyOf::Nothing, m3.drop_first());
        assert(x =~= head);
        assert(x.skip(2) =~= x2);
        assert(picked(x, written_file()) =~= picked(x2, written_file()));
        assert(picked(x, order()) =~= Seq::<(Seq<char>, Seq<Seq<char>>)>::empty());
        assert(picked(x, stored()) =~= Seq::<bool>::empty());
        assert(wrote_unit(place, picked(x, written_file()), r2));
    }
    reveal(ensure_told);
}

// ---- starting, stopping, restarting ----

/// What an operation that sees to the unit leaves behind: whatever seeing to the unit takes, then
/// these commands; no stored choice, and at most one unit.
pub open spec fn service_told(
    place: Place,
    commands: Seq<(Seq<char>, Seq<Seq<char>>)>,
    x: Seq<Exchange>,
    a: ReplyView,
) -> bool {
    &&& a == ReplyView::Nothing
    &&& picked(x, stored()) == Seq::<bool>::empty()
    &&& exists|y: Seq<Exchange>, r: ReplyView| #[trigger]
        ensure_told(place, y, r) && picked(x, order()) == picked(y, order()) + commands
    &&& exists|w: ReplyView| #[trigger] wrote_unit(place, picked(x, written_file()), w)
}

proof fn lemma_ensure(place: Place, x: Seq<Exchange>, a: ReplyView)
    requires
        place.platform == Platform::Linux,
        carried_out(place, EffectOf::EnsureDefinition, x, a),
    ensures
        ensure_told(place, x, a),
        a is Done,
        picked(x, stored()) == Seq::<bool>::empty(),
        exists|w: ReplyView| #[trigger] wrote_unit(place, picked(x, written_file()), w),
{
    let moments = lemma_unfold(place, EffectOf::EnsureDefinition, x, a);
    law_whole_seeing_to_the_unit(place, ReplyOf::Nothing, moments);
    reveal(ensure_told);
}

proof fn lemma_ensure_then(
    place: Place,
    task: TaskView,
    asked: Seq<EffectView>,
    moments: Seq<Moment>,
) -> (r: (Seq<Exchange>, Seq<Exchange>, ReplyView, Seq<Moment>, Seq<Exchange>))
    requires
        place.platform == Platform::Linux,
        alike(place, moments),
        asked.len() == 2,
        asked[0] is Log,
        asked[1] == EffectView::EnsureDefinition,
        done(task, asked, ReplyOf::Nothing, moments) is Some,
    ensures
        ({
            let (x0, x1, r1, m1, y1) = r;
            let (x, a) = done(task, asked, ReplyOf::Nothing, moments)->0;
            &&& x == x0 + x1 + y1
            &&& picked(x0, order()) == Seq::<(Seq<char>, Seq<Seq<char>>)>::empty()
            &&& picked(x0, stored()) == Seq::<bool>::empty()
            &&& picked(x0, written_file()) == Seq::<(Seq<u8>, Seq<char>)>::empty()
            &&& ensure_told(place, x1, r1)
            &&& picked(x1, stored()) == Seq::<bool>::empty()
            &&& exists|w: ReplyView| #[trigger] wrote_unit(place, picked(x1, written_file()), w)
            &&& done(task, Seq::empty(), r1, m1) == Some((y1, a))
            &&& alike(place, m1)
        }),
{
    let (x, a) = done(task, asked, ReplyOf::Nothing, moments)->0;
    let (x0, r0, m0, y0) = lemma_lead(place, task, asked, 1, ReplyOf::Nothing, moments);
    lemma_short(asked.take(1));
    let rest = asked.skip(1);
    let (x1, r1, m1, y1) = lemma_ask_last(place, task, rest, r0, m0);
    lemma_ensure(place, x1, r1);
    assert(x =~= x0 + x1 + y1);
    (x0, x1, r1, m1, y1)
}

/// A whole start sees to the unit and has systemd read it, enable it and start it.
pub proof fn law_whole_start(place: Place, reply: ReplyView, moments: Seq<Moment>)
    requires
        place.platform == Platform::Linux,
        alike(place, moments),
        done(
            TaskOf::Systemd(SystemdTaskOf::Start(Phase::Start)),
            Seq::empty(),
            reply,
            moments,
        ) is Some,
    ensures
        ({
            let (x, a) = done(
                TaskOf::Systemd(SystemdTaskOf::Start(Phase::Start)),
                Seq::empty(),
                reply,
                moments,
            )->0;
            service_told(
                place,
                seq![read_units(), to_unit("enable"@), to_unit("start"@)],
                x,
                a,
            )
        }),
{
    let start: TaskView = TaskOf::Systemd(SystemdTaskOf::Start(Phase::Start));
    let (x, a) = done(start, Seq::empty(), reply, moments)->0;
    lemma_step(place, start, reply, moments);
    lemma_phase_tasks(moments[0].0, true, Phase::Start, reply);
    let (task, asked) = task_step(moments[0].0, start, reply);
    let (x0, x1, r1, m1, y1) = lemma_ensure_then(place, task, asked, moments.drop_first());
    lemma_step(place, task, r1, m1);
    lemma_phase_tasks(m1[0].0, true, Phase::Defining, r1);
    lemma_unit_orders("enable"@);
    lemma_unit_orders("start"@);
    let (end, last) = task_step(m1[0].0, task, r1);
    let (x2, r2, m2, y2) = lemma_plain(place, end, last, ReplyOf::Nothing, m1.drop_first());
    lemma_end(end, r2, m2);
    lemma_short(last);
    assert(x =~= x0 + x1 + x2);
    lemma_three(x0, x1, x2, x);
    let commands = seq![read_units(), to_unit("enable"@), to_unit("start"@)];
    assert(picked(x2, order()) =~= commands);
    assert(picked(x, order()) =~= picked(x1, order()) + commands);
    assert(picked(x, stored()) =~= Seq::<bool>::empty());
    assert(picked(x, written_file()) =~= picked(x1, written_file()));
}

/// A whole restart sees to the unit and has systemd read it and restart the service.
pub proof fn law_whole_restart(place: Place, reply: ReplyView, moments: Seq<Moment>)
    requires
        place.platform == Platform::Linux,
        alike(place, moments),
        done(
            TaskOf::Systemd(SystemdTaskOf::Restart(Phase::Start)),
            Seq::empty(),
            reply,
            moments,
        ) is Some,
    ensures
        ({
            let (x, a) = done(
                TaskOf::Systemd(SystemdTaskOf::Restart(Phase::Start)),
                Seq::empty(),
                reply,
                moments,
            )->0;
            service_told(place, seq![read_units(), to_unit("restart"@)], x, a)
        }),
{
    let start: TaskView = TaskOf::Systemd(SystemdTaskOf::Restart(Phase::Start));
    let (x, a) = done(start, Seq::empty(), reply, moments)->0;
    lemma_step(place, start, reply, moments);
    lemma_phase_tasks(moments[0].0, true, Phase::Start, reply);
    let (task, asked) = task_step(moments[0].0, start, reply);
    let (x0, x1, r1, m1, y1) = lemma_ensure_then(place, task, asked, moments.drop_first());
    lemma_step(place, task, r1, m1);
    lemma_phase_tasks(m1[0].0, true, Phase::Defining, r1);
    lemma_unit_orders("restart"@);
    let (end, last) = task_step(m1[0].0, task, r1);
    let (x2, r2, m2, y2) = lemma_plain(place, end, last, ReplyOf::Nothing, m1.drop_first());
    lemma_end(end, r2, m2);
    lemma_short(last);
    assert(x =~= x0 + x1 + x2);
    lemma_three(x0, x1, x2, x);
    let commands = seq![read_units(), to_unit("restart"@)];
    assert(picked(x2, order()) =~= commands);
    assert(picked(x, order()) =~= picked(x1, order()) + commands);
    assert(picked(x, stored()) =~= Seq::<bool>::empty());
    assert(picked(x, written_file()) =~= picked(x1, written_file()));
}

/// A whole stop is one command, and writes and stores nothing.
pub proof fn law_whole_stop(place: Place, reply: ReplyView, moments: Seq<Moment>)
    requires
        alike(place, moments),
        done(
            TaskOf::Systemd(SystemdTaskOf::Stop(Phase::Start)),
            Seq::empty(),
            reply,
            moments,
        ) is Some,
    ensures
        ({
            let (x, a) = done(
                TaskOf::Systemd(SystemdTaskOf::Stop(Phase::Start)),
                Seq::empty(),
                reply,
                moments,
            )->0;
            &&& a == ReplyView::Nothing
            &&& picked(x, order()) == seq![to_unit("stop"@)]
            &&& picked(x, stored()) == Seq::<bool>::empty()
            &&& picked(x, written_file()) == Seq::<(Seq<u8>, Seq<char>)>::empty()
        }),
{
    let start: TaskView = TaskOf::Systemd(SystemdTaskOf::Stop(Phase::Start));
    let (x, a) = done(start, Seq::empty(), reply, moments)->0;
    lemma_step(place, start, reply, moments);
    lemma_phase_tasks(moments[0].0, true, Phase::Start, reply);
    lemma_unit_orders("stop"@);
    let (end, last) = task_step(moments[0].0, start, reply);
    let (x2, r2, m2, y2) = lemma_plain(place, end, last, ReplyOf::Nothing, moments.drop_first());
    lemma_end(end, r2, m2);
    lemma_short(last);
    assert(x =~= x2);
    assert(picked(x, order()) =~= seq![to_unit("stop"@)]);
}

/// What a whole choice about login leaves behind: the choice is stored, the unit is written, and
/// systemd reads it and enables or disables it; nothing starts, stops or restarts the service.
pub open spec fn login_told(place: Place, enabled: bool, x: Seq<Exchange>, a: ReplyView) -> bool {
    &&& a == ReplyView::Nothing
    &&& picked(x, stored()) == seq![enabled]
    &&& picked(x, order()) == seq![
        read_units(),
        to_unit(
            if enabled {
                "enable"@
            } else {
                "disable"@
            },
        ),
    ]
    &&& exists|w: ReplyView| #[trigger] wrote_unit(place, picked(x, written_file()), w)
}

/// A whole choice about login stores what was chosen and enables or disables the unit.
pub proof fn law_whole_login_choice(
    place: Place,
    enabled: bool,
    reply: ReplyView,
    moments: Seq<Moment>,
)
    requires
        alike(place, moments),
        done(
            TaskOf::Systemd(SystemdTaskOf::SetAutostart(enabled, Phase::Start)),
            Seq::empty(),
            reply,
            moments,
        ) is Some,
    ensures
        ({
            let (x, a) = done(
                TaskOf::Systemd(SystemdTaskOf::SetAutostart(enabled, Phase::Start)),
                Seq::empty(),
                reply,
                moments,
            )->0;
            login_told(place, enabled, x, a)
        }),
{
    let start: TaskView = TaskOf::Systemd(SystemdTaskOf::SetAutostart(enabled, Phase::Start));
    let (x, a) = done(start, Seq::empty(), reply, moments)->0;
    lemma_step(place, start, reply, moments);
    lemma_phase_tasks(moments[0].0, enabled, Phase::Start, reply);
    let (task, asked) = task_step(moments[0].0, start, reply);
    let (x0, r0, m0, y0) = lemma_lead(
        place,
        task,
        asked,
        1,
        ReplyOf::Nothing,
        moments.drop_first(),
    );
    lemma_short(asked.take(1));
    let rest = asked.skip(1);
    assert(rest =~= seq![EffectView::WriteUnit { enabled }]);
    let (x1, r1, m1, y1) = lemma_ask_last(place, task, rest, r0, m0);
    lemma_write(place, enabled, x1, r1);
    lemma_step(place, task, r1, m1);
    lemma_phase_tasks(m1[0].0, enabled, Phase::Defining, r1);
    lemma_unit_orders("enable"@);
    lemma_unit_orders("disable"@);
    let (end, last) = task_step(m1[0].0, task, r1);
    let (x2, r2, m2, y2) = lemma_plain(place, end, last, ReplyOf::Nothing, m1.drop_first());
    lemma_end(end, r2, m2);
    lemma_short(last);
    assert(x =~= x0 + x1 + x2);
    lemma_three(x0, x1, x2, x);
    let verb = if enabled {
        "enable"@
    } else {
        "disable"@
    };
    assert(picked(x, order()) =~= seq![read_units(), to_unit(verb)]);
    assert(picked(x, stored()) =~= seq![enabled]);
    assert(picked(x, written_file()) =~= picked(x1, written_file()));
}

} // verus!

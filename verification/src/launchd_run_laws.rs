//! What whole runs of the operations under launchd promise.

use vstd::prelude::*;

use crate::calls::launchd_step;
use crate::calls::task_step;
use crate::calls::LaunchdTaskOf;
use crate::calls::TaskOf;
use crate::calls::TaskView;
use crate::calls::World;
use crate::definition::RenderOf;
use crate::definition::RenderView;
use crate::effect::outcome;
use crate::effect::yes;
use crate::effect::EffectOf;
use crate::effect::EffectView;
use crate::effect::Phase;
use crate::effect::Query;
use crate::effect::ReplyOf;
use crate::effect::ReplyView;
use crate::locations::home_path;
use crate::locations::service_log_path;
use crate::locations::Platform;
use crate::macos_service;
use crate::macos_service::definition_path;
use crate::native::decoded;
use crate::path::path_parent;
use crate::plist::keeps_alive;
use crate::plist::plist;
use crate::plist::runs_at_load;
use crate::plist::sets_environment;
use crate::plist::without_keepalive;
use crate::plist_laws::law_keepalive_off_stays_off;
use crate::plist_laws::law_plist_reads_back;
use crate::run_laws::alike;
use crate::run_laws::carried_out;
use crate::run_laws::done;
use crate::run_laws::lemma_ask;
use crate::run_laws::lemma_ask_last;
use crate::run_laws::lemma_end;
use crate::run_laws::lemma_picked_add;
use crate::run_laws::lemma_picked_one;
use crate::run_laws::lemma_step;
use crate::run_laws::lemma_unfold;
use crate::run_laws::picked;
use crate::run_laws::Exchange;
use crate::run_laws::Moment;
use crate::run_laws::Place;
use crate::search::service_variables;
use crate::search_run_laws::env_told;
use crate::search_run_laws::lemma_env_effect;
use crate::search_run_laws::lemma_program_effect;
use crate::search_run_laws::program_told;
use crate::search_run_laws::under;
use crate::service_run_laws::answered;
use crate::service_run_laws::launchctl;
use crate::service_run_laws::law_launchctl_is_run;
use crate::service_run_laws::law_making_writes_nothing;
use crate::service_run_laws::law_quiet_effects_give_no_commands;
use crate::service_run_laws::lemma_answered_once;
use crate::service_run_laws::lemma_lead;
use crate::service_run_laws::lemma_plain;
use crate::service_run_laws::lemma_short;
use crate::service_run_laws::lemma_three;
use crate::service_run_laws::lemma_unanswered;
use crate::service_run_laws::order;
use crate::service_run_laws::order_of;
use crate::service_run_laws::store_of;
use crate::service_run_laws::stored;
use crate::service_run_laws::written_file;
use crate::text::contains;

verus! {

// ---- names ----

/// The file that defines the service.
pub open spec fn mac_definition(place: Place) -> Seq<u8> {
    under(
        home_path(place.mac_env),
        seq!["Library/LaunchAgents"@, "com.dsh-launcher.web.plist"@],
    )
}

/// The file to which the service writes its output.
pub open spec fn mac_log(place: Place) -> Seq<u8> {
    under(home_path(place.mac_env), seq!["Library/Logs"@, "dsh-web.log"@])
}

/// The service in the launchd domain of the user.
pub open spec fn target(place: Place) -> Seq<char> {
    "gui/"@ + place.uid + "/com.dsh-launcher.web"@
}

proof fn lemma_names(place: Place)
    ensures
        definition_path(place.mac_env) == mac_definition(place),
        service_log_path(Platform::MacOs, place.mac_env) == mac_log(place),
        macos_service::service_name(place.uid) == target(place),
{
    reveal_with_fuel(under, 3);
    let a = "Library/LaunchAgents"@;
    let b = "com.dsh-launcher.web.plist"@;
    reveal_strlit("com.dsh-launcher.web.plist");
    reveal_strlit("com.dsh-launcher.web");
    reveal_strlit(".plist");
    assert(b =~= "com.dsh-launcher.web"@ + ".plist"@);
    assert(seq![a, b].drop_last() =~= seq![a]);
    assert(seq![a].drop_last() =~= Seq::empty());
    let c = "Library/Logs"@;
    let d = "dsh-web.log"@;
    assert(seq![c, d].drop_last() =~= seq![c]);
    assert(seq![c].drop_last() =~= Seq::empty());
    reveal_strlit("/");
    reveal_strlit("/com.dsh-launcher.web");
    assert("/"@ + "com.dsh-launcher.web"@ =~= "/com.dsh-launcher.web"@);
    let g = "gui/"@ + place.uid;
    assert(g + "/"@ + "com.dsh-launcher.web"@ =~= g + ("/"@ + "com.dsh-launcher.web"@));
}

// ---- single steps ----

proof fn lemma_xml_task(
    w: World,
    run_at_load: bool,
    keep_alive: bool,
    s: RenderView,
    reply: ReplyView,
)
    ensures
        ({
            let (next, effects) = macos_service::xml_step(w.mac, run_at_load, keep_alive, s, reply);
            task_step(w, TaskOf::Launchd(LaunchdTaskOf::PlistXml(run_at_load, keep_alive, s)), reply)
                == (
                TaskView::Launchd(LaunchdTaskOf::PlistXml(run_at_load, keep_alive, next)),
                effects,
            )
        }),
{
    reveal(launchd_step);
}

proof fn lemma_write_task(
    w: World,
    run_at_load: bool,
    s: macos_service::WriteView,
    reply: ReplyView,
)
    ensures
        ({
            let (next, effects) = macos_service::write_step(w.mac, run_at_load, s, reply);
            task_step(w, TaskOf::Launchd(LaunchdTaskOf::WritePlist(run_at_load, s)), reply) == (
                TaskView::Launchd(LaunchdTaskOf::WritePlist(run_at_load, next)),
                effects,
            )
        }),
{
    reveal(launchd_step);
}

proof fn lemma_off_task(w: World, s: macos_service::RewriteView, reply: ReplyView)
    ensures
        ({
            let (next, effects) = macos_service::off_step(w.mac, s, reply);
            task_step(w, TaskOf::Launchd(LaunchdTaskOf::WritePlistKeepaliveOff(s)), reply) == (
                TaskView::Launchd(LaunchdTaskOf::WritePlistKeepaliveOff(next)),
                effects,
            )
        }),
{
    reveal(launchd_step);
}

proof fn lemma_ensure_task(w: World, s: macos_service::EnsureView, reply: ReplyView)
    ensures
        ({
            let (next, effects) = macos_service::ensure_step(w.mac, s, reply);
            task_step(w, TaskOf::Launchd(LaunchdTaskOf::Ensure(s)), reply) == (
                TaskView::Launchd(LaunchdTaskOf::Ensure(next)),
                effects,
            )
        }),
{
    reveal(launchd_step);
}

proof fn lemma_query_tasks(w: World, s: Query, reply: ReplyView)
    ensures
        ({
            let (next, effects) = macos_service::running_step(w.mac, s, reply);
            task_step(w, TaskOf::Launchd(LaunchdTaskOf::Running(s)), reply) == (
                TaskView::Launchd(LaunchdTaskOf::Running(next)),
                effects,
            )
        }),
        ({
            let (next, effects) = macos_service::autostart_step(w.mac, s, reply);
            task_step(w, TaskOf::Launchd(LaunchdTaskOf::Autostart(s)), reply) == (
                TaskView::Launchd(LaunchdTaskOf::Autostart(next)),
                effects,
            )
        }),
{
    reveal(launchd_step);
}

proof fn lemma_phase_tasks(w: World, enabled: bool, s: Phase, reply: ReplyView)
    ensures
        ({
            let (next, effects) = macos_service::start_step(w.mac, s, reply);
            task_step(w, TaskOf::Launchd(LaunchdTaskOf::Start(s)), reply) == (
                TaskView::Launchd(LaunchdTaskOf::Start(next)),
                effects,
            )
        }),
        ({
            let (next, effects) = macos_service::stop_step(w.mac, s, reply);
            task_step(w, TaskOf::Launchd(LaunchdTaskOf::Stop(s)), reply) == (
                TaskView::Launchd(LaunchdTaskOf::Stop(next)),
                effects,
            )
        }),
        ({
            let (next, effects) = macos_service::restart_step(w.mac, s, reply);
            task_step(w, TaskOf::Launchd(LaunchdTaskOf::Restart(s)), reply) == (
                TaskView::Launchd(LaunchdTaskOf::Restart(next)),
                effects,
            )
        }),
        ({
            let (next, effects) = macos_service::set_autostart_step(w.mac, enabled, s, reply);
            task_step(w, TaskOf::Launchd(LaunchdTaskOf::SetAutostart(enabled, s)), reply) == (
                TaskView::Launchd(LaunchdTaskOf::SetAutostart(enabled, next)),
                effects,
            )
        }),
{
    reveal(launchd_step);
}

// ---- making the definition ----

/// Whether a text is the definition with these switches for the command line and the environment
/// that were searched for.
#[verifier::opaque]
pub open spec fn definition_made(
    place: Place,
    run_at_load: bool,
    keep_alive: bool,
    x: Seq<Exchange>,
    text: Seq<char>,
) -> bool {
    exists|n: int, words: Seq<Seq<char>>, vars: Seq<(Seq<char>, Seq<char>)>|
        0 <= n <= x.len() && #[trigger] program_told(
            home_path(place.mac_env),
            x.take(n),
            ReplyView::Program(Ok(words)),
        ) && #[trigger] env_told(place.own, x.skip(n), ReplyView::Env(vars)) && text == plist(
            words,
            vars,
            run_at_load,
            keep_alive,
            decoded(mac_log(place)),
        )
}

/// Whether a making of the definition ended in it, or failed as the making of the command line
/// did.
pub open spec fn xml_told(
    place: Place,
    run_at_load: bool,
    keep_alive: bool,
    x: Seq<Exchange>,
    a: ReplyView,
) -> bool {
    match a {
        ReplyOf::Text(Ok(text)) => definition_made(place, run_at_load, keep_alive, x, text),
        ReplyOf::Text(Err(e)) => program_told(
            home_path(place.mac_env),
            x,
            ReplyView::Program(Err(e)),
        ),
        _ => false,
    }
}

/// A whole making of the definition ends in the one for the command line and the environment that
/// it searched for, with the switches that it was asked for.
pub proof fn law_whole_definition(
    place: Place,
    run_at_load: bool,
    keep_alive: bool,
    reply: ReplyView,
    moments: Seq<Moment>,
)
    requires
        alike(place, moments),
        done(
            TaskOf::Launchd(LaunchdTaskOf::PlistXml(run_at_load, keep_alive, RenderOf::Start)),
            Seq::empty(),
            reply,
            moments,
        ) is Some,
    ensures
        ({
            let (x, a) = done(
                TaskOf::Launchd(LaunchdTaskOf::PlistXml(run_at_load, keep_alive, RenderOf::Start)),
                Seq::empty(),
                reply,
                moments,
            )->0;
            xml_told(place, run_at_load, keep_alive, x, a)
        }),
{
    let home = home_path(place.mac_env);
    let start: TaskView = TaskOf::Launchd(
        LaunchdTaskOf::PlistXml(run_at_load, keep_alive, RenderOf::Start),
    );
    let (x, a) = done(start, Seq::empty(), reply, moments)->0;
    lemma_step(place, start, reply, moments);
    lemma_xml_task(moments[0].0, run_at_load, keep_alive, RenderOf::Start, reply);
    let (task, asked) = task_step(moments[0].0, start, reply);
    let (x1, r1, m1, y1) = lemma_ask_last(
        place,
        task,
        asked,
        ReplyOf::Nothing,
        moments.drop_first(),
    );
    lemma_program_effect(place, x1, r1);
    lemma_step(place, task, r1, m1);
    lemma_xml_task(m1[0].0, run_at_load, keep_alive, RenderOf::Program, r1);
    let (next, more) = task_step(m1[0].0, task, r1);
    let m2 = m1.drop_first();
    match r1->Program_0 {
        Err(e) => {
            assert(more =~= Seq::empty());
            lemma_end(next, ReplyOf::Nothing, m2);
            assert(x =~= x1);
        },
        Ok(words) => {
            let (x2, r2, m3, y2) = lemma_ask_last(place, next, more, ReplyOf::Nothing, m2);
            lemma_env_effect(place, x2, r2);
            lemma_step(place, next, r2, m3);
            lemma_xml_task(m3[0].0, run_at_load, keep_alive, RenderOf::Env(words), r2);
            let (end, none) = task_step(m3[0].0, next, r2);
            assert(none =~= Seq::empty());
            lemma_end(end, ReplyOf::Nothing, m3.drop_first());
            lemma_names(place);
            let n = x1.len() as int;
            assert(x.take(n) =~= x1);
            assert(x.skip(n) =~= x2);
            assert(program_told(home, x.take(n), ReplyView::Program(Ok(words))));
            assert(env_told(place.own, x.skip(n), ReplyView::Env(r2->Env_0)));
            reveal(definition_made);
        },
    }
}

proof fn lemma_xml(
    place: Place,
    run_at_load: bool,
    keep_alive: bool,
    x: Seq<Exchange>,
    a: ReplyView,
)
    requires
        carried_out(place, EffectOf::PlistXml { run_at_load, keep_alive }, x, a),
    ensures
        xml_told(place, run_at_load, keep_alive, x, a),
        picked(x, written_file()) == Seq::<(Seq<u8>, Seq<char>)>::empty(),
{
    let effect = EffectView::PlistXml { run_at_load, keep_alive };
    let moments = lemma_unfold(place, effect, x, a);
    law_whole_definition(place, run_at_load, keep_alive, ReplyOf::Nothing, moments);
    law_making_writes_nothing(place, effect, x, a);
}

// ---- writing the definition ----

/// Whether a definition was made and then written to the one file that defines the service, and
/// the end tells how the writing went.
#[verifier::opaque]
pub open spec fn made_and_written(
    place: Place,
    run_at_load: bool,
    keep_alive: bool,
    x: Seq<Exchange>,
    a: ReplyView,
) -> bool {
    exists|n: int, made: ReplyView|
        0 <= n <= x.len() && #[trigger] xml_told(place, run_at_load, keep_alive, x.take(n), made)
            && match made {
            ReplyOf::Text(Ok(text)) => x.len() == n + 2 && x[n].0 == (EffectView::WriteText {
                path: mac_definition(place),
                text,
            }) && x[n + 1].0 is Log && a == ReplyView::Done(outcome(x[n].1)),
            ReplyOf::Text(Err(e)) => x.len() == n && a == ReplyView::Done(Err(e)),
            _ => false,
        }
}

/// Whether the directory of the definition was made, and then the definition made and written;
/// where the directory cannot be made, nothing is written.
pub open spec fn write_told(
    place: Place,
    run_at_load: bool,
    keep_alive: bool,
    x: Seq<Exchange>,
    a: ReplyView,
) -> bool {
    match path_parent(mac_definition(place)) {
        Some(dir) => {
            &&& x.len() > 0
            &&& x[0].0 == EffectView::CreateDirs(dir)
            &&& match outcome(x[0].1) {
                Ok(_) => made_and_written(place, run_at_load, keep_alive, x.drop_first(), a),
                Err(e) => x.len() == 1 && a == ReplyView::Done(Err(e)),
            }
        },
        None => made_and_written(place, run_at_load, keep_alive, x, a),
    }
}

/// What a run wrote: nothing, or one definition with these switches, in the one file that defines
/// the service.
pub open spec fn wrote_definition(
    place: Place,
    run_at_load: bool,
    keep_alive: bool,
    files: Seq<(Seq<u8>, Seq<char>)>,
    a: ReplyView,
) -> bool {
    &&& a is Done
    &&& files.len() <= 1
    &&& a == ReplyView::Done(Ok(())) ==> files.len() == 1
    &&& files.len() == 1 ==> {
        &&& files[0].0 == mac_definition(place)
        &&& exists|y: Seq<Exchange>| #[trigger]
            definition_made(place, run_at_load, keep_alive, y, files[0].1)
        &&& runs_at_load(Some(files[0].1)) == run_at_load
        &&& keeps_alive(Some(files[0].1)) == keep_alive
        &&& sets_environment(Some(files[0].1))
    }
}

/// A definition that was made reads back with the switches that it was made with, and sets an
/// environment.
pub proof fn law_made_definition_reads_back(
    place: Place,
    run_at_load: bool,
    keep_alive: bool,
    x: Seq<Exchange>,
    text: Seq<char>,
)
    requires
        definition_made(place, run_at_load, keep_alive, x, text),
    ensures
        runs_at_load(Some(text)) == run_at_load,
        keeps_alive(Some(text)) == keep_alive,
        sets_environment(Some(text)),
{
    reveal(definition_made);
    reveal(env_told);
    let home = home_path(place.mac_env);
    let log = decoded(mac_log(place));
    let (n, words, vars) = choose|n: int, words: Seq<Seq<char>>, vars: Seq<(Seq<char>, Seq<char>)>|
        0 <= n <= x.len() && #[trigger] program_told(
            home,
            x.take(n),
            ReplyView::Program(Ok(words)),
        ) && #[trigger] env_told(place.own, x.skip(n), ReplyView::Env(vars)) && text == plist(
            words,
            vars,
            run_at_load,
            keep_alive,
            log,
        );
    assert(env_told(place.own, x.skip(n), ReplyView::Env(vars)));
    let path = vars[0].1;
    assert(vars =~= service_variables(path));
    law_plist_reads_back(words, path, run_at_load, keep_alive, log);
}

proof fn lemma_write_made(
    place: Place,
    run_at_load: bool,
    task: TaskView,
    asked: Seq<EffectView>,
    reply: ReplyView,
    moments: Seq<Moment>,
)
    requires
        alike(place, moments),
        task == TaskView::Launchd(
            LaunchdTaskOf::WritePlist(run_at_load, macos_service::WriteOf::Text),
        ),
        asked == seq![EffectView::PlistXml { run_at_load, keep_alive: true }],
        done(task, asked, reply, moments) is Some,
    ensures
        ({
            let (x, a) = done(task, asked, reply, moments)->0;
            &&& made_and_written(place, run_at_load, true, x, a)
            &&& wrote_definition(place, run_at_load, true, picked(x, written_file()), a)
        }),
{
    let (x, a) = done(task, asked, reply, moments)->0;
    let (x1, r1, m1, y1) = lemma_ask_last(place, task, asked, reply, moments);
    lemma_xml(place, run_at_load, true, x1, r1);
    lemma_step(place, task, r1, m1);
    lemma_write_task(m1[0].0, run_at_load, macos_service::WriteOf::Text, r1);
    let (next, more) = task_step(m1[0].0, task, r1);
    let m2 = m1.drop_first();
    let n = x1.len() as int;
    assert(x.take(n) =~= x1);
    assert(xml_told(place, run_at_load, true, x.take(n), r1));
    lemma_names(place);
    match r1->Text_0 {
        Err(e) => {
            assert(more =~= Seq::empty());
            lemma_end(next, ReplyOf::Nothing, m2);
            assert(x =~= x1);
            assert(a == ReplyView::Done(Err(e)));
        },
        Ok(text) => {
            let (x2, r2, m3, y2) = lemma_ask_last(place, next, more, ReplyOf::Nothing, m2);
            lemma_step(place, next, r2, m3);
            let bytes = macos_service::byte_length(text);
            lemma_write_task(m3[0].0, run_at_load, macos_service::WriteOf::File(bytes), r2);
            let (end, line) = task_step(m3[0].0, next, r2);
            let (x3, r3, m4, y3) = lemma_ask_last(
                place,
                end,
                line,
                ReplyOf::Nothing,
                m3.drop_first(),
            );
            lemma_end(end, r3, m4);
            assert(x =~= x1 + x2 + x3);
            assert(x[n] == x2[0]);
            assert(x[n + 1] == x3[0]);
            lemma_picked_add(x1 + x2, x3, written_file());
            lemma_picked_add(x1, x2, written_file());
            lemma_picked_one(x2[0], written_file());
            lemma_picked_one(x3[0], written_file());
            assert(x2 =~= seq![x2[0]]);
            assert(x3 =~= seq![x3[0]]);
            assert(picked(x, written_file()) =~= seq![(mac_definition(place), text)]);
            let files = picked(x, written_file());
            assert(files[0] == (mac_definition(place), text));
            assert(definition_made(place, run_at_load, true, x.take(n), files[0].1));
            law_made_definition_reads_back(place, run_at_load, true, x.take(n), files[0].1);
            if outcome(r2) is Ok {
                assert(outcome(r2)->Ok_0 == ());
            }
            assert(a == ReplyView::Done(outcome(r2)));
        },
    }
    reveal(made_and_written);
}

/// A whole writing of the definition makes its directory, makes the definition with the restart
/// switch on and the other one as it was asked for, and writes it to the one file that defines
/// the service.
pub proof fn law_whole_writing(
    place: Place,
    run_at_load: bool,
    reply: ReplyView,
    moments: Seq<Moment>,
)
    requires
        alike(place, moments),
        done(
            TaskOf::Launchd(
                LaunchdTaskOf::WritePlist(run_at_load, macos_service::WriteOf::Start),
            ),
            Seq::empty(),
            reply,
            moments,
        ) is Some,
    ensures
        ({
            let (x, a) = done(
                TaskOf::Launchd(
                    LaunchdTaskOf::WritePlist(run_at_load, macos_service::WriteOf::Start),
                ),
                Seq::empty(),
                reply,
                moments,
            )->0;
            &&& write_told(place, run_at_load, true, x, a)
            &&& wrote_definition(place, run_at_load, true, picked(x, written_file()), a)
        }),
{
    let start: TaskView = TaskOf::Launchd(
        LaunchdTaskOf::WritePlist(run_at_load, macos_service::WriteOf::Start),
    );
    let (x, a) = done(start, Seq::empty(), reply, moments)->0;
    lemma_names(place);
    lemma_step(place, start, reply, moments);
    lemma_write_task(moments[0].0, run_at_load, macos_service::WriteOf::Start, reply);
    let (task, asked) = task_step(moments[0].0, start, reply);
    let rest = moments.drop_first();
    match path_parent(mac_definition(place)) {
        None => {
            lemma_write_made(place, run_at_load, task, asked, ReplyOf::Nothing, rest);
        },
        Some(dir) => {
            let (x1, r1, m1, y1) = lemma_ask_last(place, task, asked, ReplyOf::Nothing, rest);
            lemma_step(place, task, r1, m1);
            lemma_write_task(m1[0].0, run_at_load, macos_service::WriteOf::Directory, r1);
            let (next, more) = task_step(m1[0].0, task, r1);
            let m2 = m1.drop_first();
            assert(x.drop_first() =~= y1);
            assert(x1 =~= seq![x1[0]]);
            lemma_picked_one(x1[0], written_file());
            lemma_picked_add(x1, y1, written_file());
            match outcome(r1) {
                Ok(_) => {
                    lemma_write_made(place, run_at_load, next, more, ReplyOf::Nothing, m2);
                    assert(picked(x, written_file()) =~= picked(y1, written_file()));
                },
                Err(e) => {
                    assert(more =~= Seq::empty());
                    lemma_end(next, ReplyOf::Nothing, m2);
                    assert(x =~= x1);
                },
            }
        },
    }
}

/// What the writing of the definition leaves behind.
proof fn lemma_write(place: Place, run_at_load: bool, x: Seq<Exchange>, a: ReplyView)
    requires
        carried_out(place, EffectOf::WritePlist { run_at_load }, x, a),
    ensures
        write_told(place, run_at_load, true, x, a),
        wrote_definition(place, run_at_load, true, picked(x, written_file()), a),
        picked(x, order()) == Seq::<(Seq<char>, Seq<Seq<char>>)>::empty(),
        picked(x, stored()) == Seq::<bool>::empty(),
{
    let effect = EffectView::WritePlist { run_at_load };
    let moments = lemma_unfold(place, effect, x, a);
    law_whole_writing(place, run_at_load, ReplyOf::Nothing, moments);
    law_quiet_effects_give_no_commands(place, effect, x, a);
}

// ---- commands ----

/// Taking the definition out of launchd.
pub open spec fn out_of_launchd(place: Place) -> (Seq<char>, Seq<Seq<char>>) {
    ("launchctl"@, seq!["bootout"@, "gui/"@ + place.uid, decoded(mac_definition(place))])
}

/// Handing the definition to launchd.
pub open spec fn into_launchd(place: Place) -> (Seq<char>, Seq<Seq<char>>) {
    ("launchctl"@, seq!["bootstrap"@, "gui/"@ + place.uid, decoded(mac_definition(place))])
}

/// Starting the service.
pub open spec fn start_it(place: Place) -> (Seq<char>, Seq<Seq<char>>) {
    ("launchctl"@, seq!["kickstart"@, target(place)])
}

/// Ending the service and starting it again.
pub open spec fn start_it_anew(place: Place) -> (Seq<char>, Seq<Seq<char>>) {
    ("launchctl"@, seq!["kickstart"@, "-k"@, target(place)])
}

/// Asking the service to end.
pub open spec fn end_it(place: Place) -> (Seq<char>, Seq<Seq<char>>) {
    ("launchctl"@, seq!["kill"@, "SIGTERM"@, target(place)])
}

/// Asking launchd about the service.
pub open spec fn ask_about_it(place: Place) -> (Seq<char>, Seq<Seq<char>>) {
    ("launchctl"@, seq!["print"@, target(place)])
}

proof fn lemma_mac_orders(place: Place, mac: macos_service::MacService)
    requires
        mac.env == place.mac_env,
        mac.uid@ == place.uid,
    ensures
        order_of(macos_service::bootout(mac)) == seq![out_of_launchd(place)],
        order_of(macos_service::bootstrap(mac)) == seq![into_launchd(place)],
        order_of(macos_service::kickstart(mac)) == seq![start_it(place)],
        order_of(macos_service::kickstart_anew(mac)) == seq![start_it_anew(place)],
        order_of(macos_service::terminate(mac)) == seq![end_it(place)],
        order_of(macos_service::print(mac)) == seq![ask_about_it(place)],
        macos_service::print(mac) == EffectView::Launchctl(ask_about_it(place).1),
{
    lemma_names(place);
}

proof fn lemma_questions_differ(place: Place)
    ensures
        ask_about_it(place) != out_of_launchd(place),
        ask_about_it(place) != into_launchd(place),
        ask_about_it(place) != start_it(place),
        ask_about_it(place) != start_it_anew(place),
        ask_about_it(place) != end_it(place),
{
    reveal_strlit("print");
    reveal_strlit("kickstart");
    assert(ask_about_it(place).1.len() == 2);
    assert(start_it(place).1.len() == 2);
    assert(ask_about_it(place).1[0] == "print"@);
    assert(start_it(place).1[0] == "kickstart"@);
    assert(out_of_launchd(place).1.len() == 3);
    assert(into_launchd(place).1.len() == 3);
    assert(start_it_anew(place).1.len() == 3);
    assert(end_it(place).1.len() == 3);
}

// ---- does it run, does it start at login? ----

/// Whether launchd says that the service runs.
pub open spec fn says_running(reply: ReplyView) -> bool {
    match reply {
        ReplyOf::Command(Some(o)) => o.success && contains(decoded(o.stdout), "state = running"@),
        _ => false,
    }
}

/// Whether launchd was asked about the service, once and nothing else, and `a` is whether its
/// answer says that the service runs.
pub open spec fn running_told(place: Place, x: Seq<Exchange>, a: ReplyView) -> bool {
    let answers = picked(x, answered(ask_about_it(place)));
    &&& picked(x, order()) == seq![ask_about_it(place)]
    &&& answers.len() == 1
    &&& a == ReplyView::Flag(says_running(answers[0]))
    &&& picked(x, stored()) == Seq::<bool>::empty()
    &&& picked(x, written_file()) == Seq::<(Seq<u8>, Seq<char>)>::empty()
}

/// A whole question whether the service runs is one question to launchd, and its answer is
/// searched.
pub proof fn law_whole_running(place: Place, reply: ReplyView, moments: Seq<Moment>)
    requires
        alike(place, moments),
        done(
            TaskOf::Launchd(LaunchdTaskOf::Running(Query::Start)),
            Seq::empty(),
            reply,
            moments,
        ) is Some,
    ensures
        ({
            let (x, a) = done(
                TaskOf::Launchd(LaunchdTaskOf::Running(Query::Start)),
                Seq::empty(),
                reply,
                moments,
            )->0;
            running_told(place, x, a)
        }),
{
    let start: TaskView = TaskOf::Launchd(LaunchdTaskOf::Running(Query::Start));
    let (x, a) = done(start, Seq::empty(), reply, moments)->0;
    let ask = ask_about_it(place);
    lemma_step(place, start, reply, moments);
    lemma_query_tasks(moments[0].0, Query::Start, reply);
    lemma_mac_orders(place, moments[0].0.mac);
    let (task, asked) = task_step(moments[0].0, start, reply);
    let (x1, r1, m1, y1) = lemma_ask_last(
        place,
        task,
        asked,
        ReplyOf::Nothing,
        moments.drop_first(),
    );
    law_launchctl_is_run(place, ask.1, x1, r1);
    lemma_answered_once(ask, x1, r1);
    lemma_step(place, task, r1, m1);
    lemma_query_tasks(m1[0].0, Query::Waiting, r1);
    let (end, line) = task_step(m1[0].0, task, r1);
    let (x2, r2, m2, y2) = lemma_plain(place, end, line, ReplyOf::Nothing, m1.drop_first());
    lemma_end(end, r2, m2);
    lemma_short(line);
    assert(x =~= x1 + x2);
    lemma_picked_add(x1, x2, order());
    lemma_picked_add(x1, x2, stored());
    lemma_picked_add(x1, x2, written_file());
    lemma_picked_add(x1, x2, answered(ask));
    lemma_unanswered(x2, ask);
    assert(picked(x, order()) =~= seq![ask]);
    assert(picked(x, answered(ask)) =~= seq![x1[1].1]);
}

proof fn lemma_running(place: Place, x: Seq<Exchange>, a: ReplyView)
    requires
        place.platform == Platform::MacOs,
        carried_out(place, EffectOf::ServiceIsRunning, x, a),
    ensures
        running_told(place, x, a),
{
    let moments = lemma_unfold(place, EffectOf::ServiceIsRunning, x, a);
    law_whole_running(place, ReplyOf::Nothing, moments);
}

/// A whole question whether the service starts at login is one look at the definition.
pub proof fn law_whole_login_question(place: Place, reply: ReplyView, moments: Seq<Moment>)
    requires
        alike(place, moments),
        done(
            TaskOf::Launchd(LaunchdTaskOf::Autostart(Query::Start)),
            Seq::empty(),
            reply,
            moments,
        ) is Some,
    ensures
        ({
            let (x, a) = done(
                TaskOf::Launchd(LaunchdTaskOf::Autostart(Query::Start)),
                Seq::empty(),
                reply,
                moments,
            )->0;
            &&& x.len() == 1
            &&& x[0].0 == EffectView::ReadText(mac_definition(place))
            &&& a == ReplyView::Flag(
                match x[0].1 {
                    ReplyOf::Text(Ok(text)) => runs_at_load(Some(text)),
                    _ => false,
                },
            )
        }),
{
    let start: TaskView = TaskOf::Launchd(LaunchdTaskOf::Autostart(Query::Start));
    let (x, a) = done(start, Seq::empty(), reply, moments)->0;
    lemma_names(place);
    lemma_step(place, start, reply, moments);
    lemma_query_tasks(moments[0].0, Query::Start, reply);
    let (task, asked) = task_step(moments[0].0, start, reply);
    let (x1, r1, m1, y1) = lemma_ask_last(
        place,
        task,
        asked,
        ReplyOf::Nothing,
        moments.drop_first(),
    );
    lemma_step(place, task, r1, m1);
    lemma_query_tasks(m1[0].0, Query::Waiting, r1);
    let (end, none) = task_step(m1[0].0, task, r1);
    assert(none =~= Seq::empty());
    lemma_end(end, ReplyOf::Nothing, m1.drop_first());
    assert(x =~= x1);
}

// ---- turning the restart switch off ----

/// Whether the definition was read and, where its restart switch can be turned off, written back
/// with nothing but that changed.
pub open spec fn off_told(place: Place, x: Seq<Exchange>, a: ReplyView) -> bool {
    &&& x.len() > 0
    &&& x[0].0 == EffectView::ReadText(mac_definition(place))
    &&& a is Done
    &&& match x[0].1 {
        ReplyOf::Text(Ok(old)) => match without_keepalive(old) {
            Ok(new) => {
                &&& x.len() >= 2
                &&& x[1].0 == EffectView::WriteText { path: mac_definition(place), text: new }
                &&& a->Done_0 is Ok <==> outcome(x[1].1) is Ok
                &&& picked(x, written_file()) == seq![(mac_definition(place), new)]
            },
            Err(_) => a->Done_0 is Err && x.len() == 1,
        },
        _ => a->Done_0 is Err && x.len() == 1,
    }
}

/// A whole turning off of the restart switch reads the definition and writes it back with that
/// switch turned off.
pub proof fn law_whole_turning_off(place: Place, reply: ReplyView, moments: Seq<Moment>)
    requires
        alike(place, moments),
        done(
            TaskOf::Launchd(
                LaunchdTaskOf::WritePlistKeepaliveOff(macos_service::RewriteOf::Start),
            ),
            Seq::empty(),
            reply,
            moments,
        ) is Some,
    ensures
        ({
            let (x, a) = done(
                TaskOf::Launchd(
                    LaunchdTaskOf::WritePlistKeepaliveOff(macos_service::RewriteOf::Start),
                ),
                Seq::empty(),
                reply,
                moments,
            )->0;
            off_told(place, x, a)
        }),
{
    let start: TaskView = TaskOf::Launchd(
        LaunchdTaskOf::WritePlistKeepaliveOff(macos_service::RewriteOf::Start),
    );
    let (x, a) = done(start, Seq::empty(), reply, moments)->0;
    lemma_names(place);
    lemma_step(place, start, reply, moments);
    lemma_off_task(moments[0].0, macos_service::RewriteOf::Start, reply);
    let (task, asked) = task_step(moments[0].0, start, reply);
    let (x1, r1, m1, y1) = lemma_ask_last(
        place,
        task,
        asked,
        ReplyOf::Nothing,
        moments.drop_first(),
    );
    lemma_step(place, task, r1, m1);
    lemma_off_task(m1[0].0, macos_service::RewriteOf::Reading, r1);
    let (next, more) = task_step(m1[0].0, task, r1);
    let m2 = m1.drop_first();
    assert(x1 =~= seq![x1[0]]);
    if more.len() == 0 {
        assert(more =~= Seq::empty());
        lemma_end(next, ReplyOf::Nothing, m2);
        assert(x =~= x1);
    } else {
        let (x2, r2, m3, y2) = lemma_ask_last(place, next, more, ReplyOf::Nothing, m2);
        lemma_step(place, next, r2, m3);
        lemma_off_task(m3[0].0, macos_service::RewriteOf::Writing, r2);
        let (end, line) = task_step(m3[0].0, next, r2);
        let (x3, r3, m4, y3) = lemma_plain(place, end, line, ReplyOf::Nothing, m3.drop_first());
        lemma_end(end, r3, m4);
        assert(x2 =~= seq![x2[0]]);
        assert(x =~= x1 + x2 + x3);
        lemma_picked_add(x1 + x2, x3, written_file());
        lemma_picked_add(x1, x2, written_file());
        lemma_picked_one(x1[0], written_file());
        lemma_picked_one(x2[0], written_file());
        let new = without_keepalive(r1->Text_0->Ok_0)->Ok_0;
        assert(picked(x, written_file()) =~= seq![(mac_definition(place), new)]);
    }
}

proof fn lemma_off(place: Place, x: Seq<Exchange>, a: ReplyView)
    requires
        carried_out(place, EffectOf::WritePlistKeepaliveOff, x, a),
    ensures
        off_told(place, x, a),
        picked(x, order()) == Seq::<(Seq<char>, Seq<Seq<char>>)>::empty(),
        picked(x, stored()) == Seq::<bool>::empty(),
        picked(x, written_file()).len() <= 1,
        forall|i: int|
            0 <= i < picked(x, written_file()).len() ==> (#[trigger] picked(x, written_file())[i]).0
                == mac_definition(place) && !keeps_alive(Some(picked(x, written_file())[i].1)),
{
    let moments = lemma_unfold(place, EffectOf::WritePlistKeepaliveOff, x, a);
    law_whole_turning_off(place, ReplyOf::Nothing, moments);
    law_quiet_effects_give_no_commands(place, EffectOf::WritePlistKeepaliveOff, x, a);
    if x.len() == 1 {
        assert(x =~= seq![x[0]]);
        lemma_picked_one(x[0], written_file());
    } else {
        law_keepalive_off_stays_off(x[0].1->Text_0->Ok_0);
    }
}

// ---- starting, stopping, restarting ----

/// What an operation that writes the definition leaves behind: these commands, no stored choice,
/// and at most one definition with the restart switch on and the other one as it was chosen.
pub open spec fn service_told(
    place: Place,
    login: bool,
    commands: Seq<(Seq<char>, Seq<Seq<char>>)>,
    x: Seq<Exchange>,
    a: ReplyView,
) -> bool {
    &&& a == ReplyView::Nothing
    &&& picked(x, order()) == commands
    &&& picked(x, stored()) == Seq::<bool>::empty()
    &&& exists|w: ReplyView| #[trigger]
        wrote_definition(place, login, true, picked(x, written_file()), w)
}

/// A whole restart gives launchd exactly one command, which ends the service and starts it again.
pub proof fn law_whole_restart(place: Place, login: bool, reply: ReplyView, moments: Seq<Moment>)
    requires
        alike(place, moments),
        place.login == Some(login),
        done(
            TaskOf::Launchd(LaunchdTaskOf::Restart(Phase::Start)),
            Seq::empty(),
            reply,
            moments,
        ) is Some,
    ensures
        ({
            let (x, a) = done(
                TaskOf::Launchd(LaunchdTaskOf::Restart(Phase::Start)),
                Seq::empty(),
                reply,
                moments,
            )->0;
            service_told(place, login, seq![start_it_anew(place)], x, a)
        }),
{
    let start: TaskView = TaskOf::Launchd(LaunchdTaskOf::Restart(Phase::Start));
    let (x, a) = done(start, Seq::empty(), reply, moments)->0;
    lemma_step(place, start, reply, moments);
    lemma_phase_tasks(moments[0].0, true, Phase::Start, reply);
    let (task, asked) = task_step(moments[0].0, start, reply);
    let (x0, r0, m0, x1, r1, m1, y1) = lemma_begin_and_write(
        place,
        login,
        task,
        asked,
        moments.drop_first(),
    );
    lemma_step(place, task, r1, m1);
    lemma_phase_tasks(m1[0].0, true, Phase::Defining, r1);
    lemma_mac_orders(place, m1[0].0.mac);
    let (end, last) = task_step(m1[0].0, task, r1);
    let (x2, r2, m2, y2) = lemma_plain(place, end, last, ReplyOf::Nothing, m1.drop_first());
    lemma_end(end, r2, m2);
    lemma_short(last);
    assert(x =~= x0 + x1 + x2);
    lemma_three(x0, x1, x2, x);
    assert(picked(x, order()) =~= seq![start_it_anew(place)]);
    assert(picked(x, written_file()) =~= picked(x1, written_file()));
}

proof fn lemma_begin_and_write(
    place: Place,
    login: bool,
    task: TaskView,
    asked: Seq<EffectView>,
    moments: Seq<Moment>,
) -> (r: (
    Seq<Exchange>,
    ReplyView,
    Seq<Moment>,
    Seq<Exchange>,
    ReplyView,
    Seq<Moment>,
    Seq<Exchange>,
))
    requires
        alike(place, moments),
        asked.len() == 2,
        asked[0] is Log || asked[0] is StoreAutostart,
        asked[1] == (EffectView::WritePlist { run_at_load: login }),
        done(task, asked, ReplyOf::Nothing, moments) is Some,
    ensures
        ({
            let (x0, r0, m0, x1, r1, m1, y1) = r;
            let (x, a) = done(task, asked, ReplyOf::Nothing, moments)->0;
            &&& x == x0 + x1 + y1
            &&& picked(x0, order()) == Seq::<(Seq<char>, Seq<Seq<char>>)>::empty()
            &&& picked(x0, stored()) == store_of(asked[0])
            &&& picked(x0, written_file()) == Seq::<(Seq<u8>, Seq<char>)>::empty()
            &&& picked(x1, order()) == Seq::<(Seq<char>, Seq<Seq<char>>)>::empty()
            &&& picked(x1, stored()) == Seq::<bool>::empty()
            &&& wrote_definition(place, login, true, picked(x1, written_file()), r1)
            &&& write_told(place, login, true, x1, r1)
            &&& done(task, Seq::empty(), r1, m1) == Some((y1, a))
            &&& alike(place, m1)
        }),
{
    let (x, a) = done(task, asked, ReplyOf::Nothing, moments)->0;
    let (x0, r0, m0, y0) = lemma_lead(place, task, asked, 1, ReplyOf::Nothing, moments);
    lemma_short(asked.take(1));
    let rest = asked.skip(1);
    let (x1, r1, m1, y1) = lemma_ask_last(place, task, rest, r0, m0);
    lemma_write(place, login, x1, r1);
    assert(x =~= x0 + x1 + y1);
    (x0, r0, m0, x1, r1, m1, y1)
}

/// A whole start takes the definition out of launchd, hands it in again and starts the service.
pub proof fn law_whole_start(place: Place, login: bool, reply: ReplyView, moments: Seq<Moment>)
    requires
        alike(place, moments),
        place.login == Some(login),
        done(
            TaskOf::Launchd(LaunchdTaskOf::Start(Phase::Start)),
            Seq::empty(),
            reply,
            moments,
        ) is Some,
    ensures
        ({
            let (x, a) = done(
                TaskOf::Launchd(LaunchdTaskOf::Start(Phase::Start)),
                Seq::empty(),
                reply,
                moments,
            )->0;
            service_told(
                place,
                login,
                seq![out_of_launchd(place), into_launchd(place), start_it(place)],
                x,
                a,
            )
        }),
{
    let start: TaskView = TaskOf::Launchd(LaunchdTaskOf::Start(Phase::Start));
    let (x, a) = done(start, Seq::empty(), reply, moments)->0;
    lemma_step(place, start, reply, moments);
    lemma_phase_tasks(moments[0].0, true, Phase::Start, reply);
    let (task, asked) = task_step(moments[0].0, start, reply);
    let (x0, r0, m0, x1, r1, m1, y1) = lemma_begin_and_write(
        place,
        login,
        task,
        asked,
        moments.drop_first(),
    );
    lemma_step(place, task, r1, m1);
    lemma_phase_tasks(m1[0].0, true, Phase::Defining, r1);
    lemma_mac_orders(place, m1[0].0.mac);
    let (end, last) = task_step(m1[0].0, task, r1);
    let (x2, r2, m2, y2) = lemma_plain(place, end, last, ReplyOf::Nothing, m1.drop_first());
    lemma_end(end, r2, m2);
    lemma_short(last);
    assert(x =~= x0 + x1 + x2);
    lemma_three(x0, x1, x2, x);
    assert(picked(x, order()) =~= seq![
        out_of_launchd(place),
        into_launchd(place),
        start_it(place),
    ]);
    assert(picked(x, written_file()) =~= picked(x1, written_file()));
}

/// Whether the definition went out of launchd and into it again, launchd was then asked about the
/// service, and `then` was done exactly where the answer said that it runs.
pub open spec fn reloaded(
    place: Place,
    then: (Seq<char>, Seq<Seq<char>>),
    x: Seq<Exchange>,
) -> bool {
    let answers = picked(x, answered(ask_about_it(place)));
    let first = seq![out_of_launchd(place), into_launchd(place), ask_about_it(place)];
    &&& answers.len() == 1
    &&& picked(x, order()) == if says_running(answers[0]) {
        first.push(then)
    } else {
        first
    }
}

proof fn lemma_reloaded(
    place: Place,
    then: (Seq<char>, Seq<Seq<char>>),
    x0: Seq<Exchange>,
    x1: Seq<Exchange>,
    r1: ReplyView,
    x2: Seq<Exchange>,
)
    requires
        then == end_it(place) || then == start_it(place),
        picked(x0, order()) == seq![out_of_launchd(place), into_launchd(place)],
        running_told(place, x1, r1),
        picked(x2, order()) == if yes(r1) {
            seq![then]
        } else {
            Seq::<(Seq<char>, Seq<Seq<char>>)>::empty()
        },
    ensures
        reloaded(place, then, x0 + x1 + x2),
{
    let ask = ask_about_it(place);
    let x = x0 + x1 + x2;
    lemma_questions_differ(place);
    lemma_three(x0, x1, x2, x);
    lemma_unanswered(x0, ask);
    lemma_unanswered(x2, ask);
    lemma_picked_add(x0 + x1, x2, answered(ask));
    lemma_picked_add(x0, x1, answered(ask));
    assert(picked(x, answered(ask)) =~= picked(x1, answered(ask)));
    let first = seq![out_of_launchd(place), into_launchd(place), ask];
    assert(picked(x0, order()) + picked(x1, order()) =~= first);
    if yes(r1) {
        assert(picked(x, order()) =~= first.push(then));
    } else {
        assert(picked(x, order()) =~= first);
    }
}

/// What a whole stop leaves behind: the definition goes out of launchd, its restart switch is
/// turned off, it goes in again, and a service that still runs is asked to end.
pub open spec fn stop_told(place: Place, x: Seq<Exchange>, a: ReplyView) -> bool {
    let files = picked(x, written_file());
    &&& a == ReplyView::Nothing
    &&& reloaded(place, end_it(place), x)
    &&& picked(x, stored()) == Seq::<bool>::empty()
    &&& files.len() <= 1
    &&& forall|i: int|
        0 <= i < files.len() ==> (#[trigger] files[i]).0 == mac_definition(place) && !keeps_alive(
            Some(files[i].1),
        )
    &&& exists|y: Seq<Exchange>, w: ReplyView| #[trigger]
        off_told(place, y, w) && picked(y, written_file()) == files
}

/// A whole stop leaves a service that launchd does not bring back.
#[verifier::rlimit(40)]
pub proof fn law_whole_stop(place: Place, reply: ReplyView, moments: Seq<Moment>)
    requires
        place.platform == Platform::MacOs,
        alike(place, moments),
        done(
            TaskOf::Launchd(LaunchdTaskOf::Stop(Phase::Start)),
            Seq::empty(),
            reply,
            moments,
        ) is Some,
    ensures
        ({
            let (x, a) = done(
                TaskOf::Launchd(LaunchdTaskOf::Stop(Phase::Start)),
                Seq::empty(),
                reply,
                moments,
            )->0;
            stop_told(place, x, a)
        }),
{
    let start: TaskView = TaskOf::Launchd(LaunchdTaskOf::Stop(Phase::Start));
    let (x, a) = done(start, Seq::empty(), reply, moments)->0;
    lemma_step(place, start, reply, moments);
    lemma_phase_tasks(moments[0].0, true, Phase::Start, reply);
    lemma_mac_orders(place, moments[0].0.mac);
    let (t1, asked) = task_step(moments[0].0, start, reply);
    let (x0, r0, m0, y0) = lemma_lead(
        place,
        t1,
        asked,
        2,
        ReplyOf::Nothing,
        moments.drop_first(),
    );
    lemma_short(asked.take(2));
    let (x1, r1, m1, y1) = lemma_ask_last(place, t1, asked.skip(2), r0, m0);
    lemma_off(place, x1, r1);
    lemma_step(place, t1, r1, m1);
    lemma_phase_tasks(m1[0].0, true, Phase::Defining, r1);
    lemma_mac_orders(place, m1[0].0.mac);
    let (t2, more) = task_step(m1[0].0, t1, r1);
    let n = more.len() - 1;
    let (x2, r2, m2, y2) = lemma_lead(place, t2, more, n, ReplyOf::Nothing, m1.drop_first());
    lemma_short(more.take(n));
    assert(more.skip(n) =~= seq![EffectView::ServiceIsRunning]);
    let (x3, r3, m3, y3) = lemma_ask_last(place, t2, more.skip(n), r2, m2);
    lemma_running(place, x3, r3);
    lemma_step(place, t2, r3, m3);
    lemma_phase_tasks(m3[0].0, true, Phase::Checking, r3);
    lemma_mac_orders(place, m3[0].0.mac);
    let (end, last) = task_step(m3[0].0, t2, r3);
    let (x4, r4, m4, y4) = lemma_plain(place, end, last, ReplyOf::Nothing, m3.drop_first());
    lemma_end(end, r4, m4);
    lemma_short(last);
    let head = x0 + x1 + x2;
    lemma_three(x0, x1, x2, head);
    assert(picked(head, order()) =~= seq![out_of_launchd(place), into_launchd(place)]);
    assert(picked(x4, order()) =~= if yes(r3) {
        seq![end_it(place)]
    } else {
        Seq::empty()
    });
    lemma_reloaded(place, end_it(place), head, x3, r3, x4);
    assert(x =~= head + x3 + x4);
    lemma_three(head, x3, x4, x);
    assert(picked(x, written_file()) =~= picked(x1, written_file()));
    assert(picked(x, stored()) =~= Seq::<bool>::empty());
}

/// What a whole choice about login leaves behind: the choice is stored, the definition that is
/// written says the same, it goes out of launchd and in again, and a running service is started
/// again.
pub open spec fn login_told(place: Place, enabled: bool, x: Seq<Exchange>, a: ReplyView) -> bool {
    &&& a == ReplyView::Nothing
    &&& reloaded(place, start_it(place), x)
    &&& picked(x, stored()) == seq![enabled]
    &&& exists|w: ReplyView| #[trigger]
        wrote_definition(place, enabled, true, picked(x, written_file()), w)
}

/// A whole choice about login stores and writes what was chosen, and nothing else.
#[verifier::rlimit(60)]
pub proof fn law_whole_login_choice(
    place: Place,
    enabled: bool,
    reply: ReplyView,
    moments: Seq<Moment>,
)
    requires
        place.platform == Platform::MacOs,
        alike(place, moments),
        done(
            TaskOf::Launchd(LaunchdTaskOf::SetAutostart(enabled, Phase::Start)),
            Seq::empty(),
            reply,
            moments,
        ) is Some,
    ensures
        ({
            let (x, a) = done(
                TaskOf::Launchd(LaunchdTaskOf::SetAutostart(enabled, Phase::Start)),
                Seq::empty(),
                reply,
                moments,
            )->0;
            login_told(place, enabled, x, a)
        }),
{
    let start: TaskView = TaskOf::Launchd(LaunchdTaskOf::SetAutostart(enabled, Phase::Start));
    let (x, a) = done(start, Seq::empty(), reply, moments)->0;
    lemma_step(place, start, reply, moments);
    lemma_phase_tasks(moments[0].0, enabled, Phase::Start, reply);
    let (t1, asked) = task_step(moments[0].0, start, reply);
    let (x0, r0, m0, x1, r1, m1, y1) = lemma_begin_and_write(
        place,
        enabled,
        t1,
        asked,
        moments.drop_first(),
    );
    lemma_step(place, t1, r1, m1);
    lemma_phase_tasks(m1[0].0, enabled, Phase::Defining, r1);
    lemma_mac_orders(place, m1[0].0.mac);
    let (t2, more) = task_step(m1[0].0, t1, r1);
    let n = more.len() - 1;
    let (x2, r2, m2, y2) = lemma_lead(place, t2, more, n, ReplyOf::Nothing, m1.drop_first());
    lemma_short(more.take(n));
    assert(more.skip(n) =~= seq![EffectView::ServiceIsRunning]);
    let (x3, r3, m3, y3) = lemma_ask_last(place, t2, more.skip(n), r2, m2);
    lemma_running(place, x3, r3);
    lemma_step(place, t2, r3, m3);
    lemma_phase_tasks(m3[0].0, enabled, Phase::Checking, r3);
    lemma_mac_orders(place, m3[0].0.mac);
    let (end, last) = task_step(m3[0].0, t2, r3);
    let (x4, r4, m4, y4) = lemma_plain(place, end, last, ReplyOf::Nothing, m3.drop_first());
    lemma_end(end, r4, m4);
    lemma_short(last);
    let head = x0 + x1 + x2;
    lemma_three(x0, x1, x2, head);
    assert(picked(head, order()) =~= seq![out_of_launchd(place), into_launchd(place)]);
    assert(picked(x4, order()) =~= if yes(r3) {
        seq![start_it(place)]
    } else {
        Seq::empty()
    });
    lemma_reloaded(place, start_it(place), head, x3, r3, x4);
    assert(x =~= head + x3 + x4);
    lemma_three(head, x3, x4, x);
    assert(picked(x, written_file()) =~= picked(x1, written_file()));
    assert(picked(x, stored()) =~= seq![enabled]);
}

// ---- seeing to the definition ----

/// The text that an answer brought, where it brought one.
pub open spec fn text_read(reply: ReplyView) -> Option<Seq<char>> {
    match reply {
        ReplyOf::Text(Ok(text)) => Some(text),
        _ => None,
    }
}

/// Whether an old definition was read, made anew with the switches that it has, written over, and
/// handed to launchd; a running service is then started again.
#[verifier::opaque]
pub open spec fn upgraded(place: Place, x: Seq<Exchange>, a: ReplyView) -> bool {
    let path = mac_definition(place);
    &&& x.len() >= 3
    &&& x[0].0 is Log
    &&& x[1].0 == EffectView::ReadText(path)
    &&& x[2].0 == EffectView::ReadText(path)
    &&& exists|n: int, made: ReplyView|
        3 <= n <= x.len() && #[trigger] xml_told(
            place,
            runs_at_load(text_read(x[1].1)),
            keeps_alive(text_read(x[2].1)),
            x.subrange(3, n),
            made,
        ) && match made {
            ReplyOf::Text(Ok(text)) => {
                &&& x.len() > n
                &&& x[n].0 == EffectView::WriteText { path, text }
                &&& a == ReplyView::Done(outcome(x[n].1))
                &&& if outcome(x[n].1) is Ok {
                    reloaded(place, start_it(place), x)
                } else {
                    picked(x, order()) == Seq::<(Seq<char>, Seq<Seq<char>>)>::empty()
                }
            },
            ReplyOf::Text(Err(e)) => x.len() == n && a == ReplyView::Done(Err(e)),
            _ => false,
        }
}

/// What seeing to the definition does: one that sets an environment is left alone, one that does
/// not is made anew, and where there is none it is written, as it was chosen about login.
pub open spec fn ensure_told(place: Place, login: bool, x: Seq<Exchange>, a: ReplyView) -> bool {
    let path = mac_definition(place);
    &&& x.len() >= 2
    &&& x[0].0 == EffectView::Exists(path)
    &&& x[1].0 is Log
    &&& if yes(x[0].1) {
        &&& x.len() >= 3
        &&& x[2].0 == EffectView::ReadText(path)
        &&& if sets_environment(text_read(x[2].1)) {
            x.len() == 3 && a == ReplyView::Done(Ok(()))
        } else {
            upgraded(place, x.skip(3), a)
        }
    } else {
        write_told(place, login, true, x.skip(2), a)
    }
}

proof fn lemma_new_made(
    place: Place,
    login: bool,
    task: TaskView,
    asked: Seq<EffectView>,
    reply: ReplyView,
    moments: Seq<Moment>,
)
    requires
        alike(place, moments),
        place.login == Some(login),
        task == TaskView::Launchd(LaunchdTaskOf::Ensure(macos_service::EnsureOf::NewText)),
        asked == seq![EffectView::PlistXml { run_at_load: login, keep_alive: true }],
        done(task, asked, reply, moments) is Some,
    ensures
        ({
            let (x, a) = done(task, asked, reply, moments)->0;
            made_and_written(place, login, true, x, a)
        }),
{
    let (x, a) = done(task, asked, reply, moments)->0;
    let (x1, r1, m1, y1) = lemma_ask_last(place, task, asked, reply, moments);
    lemma_xml(place, login, true, x1, r1);
    lemma_step(place, task, r1, m1);
    lemma_ensure_task(m1[0].0, macos_service::EnsureOf::NewText, r1);
    let (next, more) = task_step(m1[0].0, task, r1);
    let m2 = m1.drop_first();
    let n = x1.len() as int;
    assert(x.take(n) =~= x1);
    assert(xml_told(place, login, true, x.take(n), r1));
    lemma_names(place);
    match r1->Text_0 {
        Err(e) => {
            assert(more =~= Seq::empty());
            lemma_end(next, ReplyOf::Nothing, m2);
            assert(x =~= x1);
        },
        Ok(text) => {
            let (x2, r2, m3, y2) = lemma_ask_last(place, next, more, ReplyOf::Nothing, m2);
            lemma_step(place, next, r2, m3);
            let bytes = macos_service::byte_length(text);
            lemma_ensure_task(m3[0].0, macos_service::EnsureOf::NewFile(bytes), r2);
            let (end, line) = task_step(m3[0].0, next, r2);
            let (x3, r3, m4, y3) = lemma_ask_last(
                place,
                end,
                line,
                ReplyOf::Nothing,
                m3.drop_first(),
            );
            lemma_end(end, r3, m4);
            assert(x =~= x1 + x2 + x3);
            assert(x[n] == x2[0]);
            assert(x[n + 1] == x3[0]);
            if outcome(r2) is Ok {
                assert(outcome(r2)->Ok_0 == ());
            }
            assert(a == ReplyView::Done(outcome(r2)));
        },
    }
    reveal(made_and_written);
}

/// The exchange of an effect that names no operation.
proof fn lemma_plain_file(place: Place, e: EffectView, x: Seq<Exchange>, a: ReplyView)
    requires
        e is ReadText || e is WriteText || e is CreateDirs || e is Exists || e is Log,
        carried_out(place, e, x, a),
    ensures
        x == seq![(e, a)],
        picked(x, order()) == Seq::<(Seq<char>, Seq<Seq<char>>)>::empty(),
{
    lemma_picked_one((e, a), order());
}

#[verifier::rlimit(60)]
proof fn lemma_upgrade(
    place: Place,
    task: TaskView,
    asked: Seq<EffectView>,
    reply: ReplyView,
    moments: Seq<Moment>,
)
    requires
        place.platform == Platform::MacOs,
        alike(place, moments),
        task == TaskView::Launchd(LaunchdTaskOf::Ensure(macos_service::EnsureOf::OldLogin)),
        asked.len() == 2,
        asked[0] is Log,
        asked[1] == EffectView::ReadText(mac_definition(place)),
        done(task, asked, reply, moments) is Some,
    ensures
        ({
            let (x, a) = done(task, asked, reply, moments)->0;
            upgraded(place, x, a)
        }),
{
    let (x, a) = done(task, asked, reply, moments)->0;
    lemma_names(place);
    let (x0, r0, m0, y0) = lemma_ask(place, task, asked, reply, moments);
    lemma_plain_file(place, asked[0], x0, r0);
    let rest = asked.drop_first();
    let (x1, r1, m1, y1) = lemma_ask_last(place, task, rest, r0, m0);
    lemma_plain_file(place, rest[0], x1, r1);
    lemma_step(place, task, r1, m1);
    lemma_ensure_task(m1[0].0, macos_service::EnsureOf::OldLogin, r1);
    let login = runs_at_load(text_read(r1));
    let (t2, look) = task_step(m1[0].0, task, r1);
    let (x2, r2, m2, y2) = lemma_ask_last(place, t2, look, ReplyOf::Nothing, m1.drop_first());
    lemma_plain_file(place, look[0], x2, r2);
    lemma_step(place, t2, r2, m2);
    lemma_ensure_task(m2[0].0, macos_service::EnsureOf::OldAlive(login), r2);
    let alive = keeps_alive(text_read(r2));
    let (t3, make) = task_step(m2[0].0, t2, r2);
    let (x3, r3, m3, y3) = lemma_ask_last(place, t3, make, ReplyOf::Nothing, m2.drop_first());
    lemma_xml(place, login, alive, x3, r3);
    law_quiet_effects_give_no_commands(place, make[0], x3, r3);
    lemma_step(place, t3, r3, m3);
    lemma_ensure_task(m3[0].0, macos_service::EnsureOf::OldText, r3);
    let (t4, write) = task_step(m3[0].0, t3, r3);
    let m4 = m3.drop_first();
    let head = x0 + x1 + x2;
    let n = 3 + x3.len() as int;
    assert(x =~= head + x3 + y3);
    assert(x.subrange(3, n) =~= x3);
    assert(x[0] == x0[0] && x[1] == x1[0] && x[2] == x2[0]);
    assert(xml_told(
        place,
        runs_at_load(text_read(x[1].1)),
        keeps_alive(text_read(x[2].1)),
        x.subrange(3, n),
        r3,
    ));
    lemma_three(x0, x1, x2, head);
    match r3->Text_0 {
        Err(e) => {
            assert(write =~= Seq::empty());
            lemma_end(t4, ReplyOf::Nothing, m4);
            assert(x.len() == n);
        },
        Ok(text) => {
            let (x4, r4, m5, y4) = lemma_ask_last(place, t4, write, ReplyOf::Nothing, m4);
            lemma_plain_file(place, write[0], x4, r4);
            lemma_step(place, t4, r4, m5);
            lemma_upgrade_end(place, t4, r4, m5);
            assert(x =~= (head + x3 + x4) + y4);
            assert(x[n] == x4[0]);
            let front = head + x3 + x4;
            lemma_three(head, x3, x4, front);
            lemma_picked_add(front, y4, order());
            assert(picked(front, order()) =~= Seq::<(Seq<char>, Seq<Seq<char>>)>::empty());
            assert(picked(x, order()) =~= picked(y4, order()));
            lemma_unanswered(front, ask_about_it(place));
            lemma_picked_add(front, y4, answered(ask_about_it(place)));
            assert(picked(x, answered(ask_about_it(place))) =~= picked(
                y4,
                answered(ask_about_it(place)),
            ));
            if outcome(r4) is Ok {
                assert(outcome(r4)->Ok_0 == ());
            }
        },
    }
    reveal(upgraded);
}

proof fn lemma_upgrade_end(
    place: Place,
    task: TaskView,
    reply: ReplyView,
    moments: Seq<Moment>,
)
    requires
        place.platform == Platform::MacOs,
        alike(place, moments),
        task == TaskView::Launchd(LaunchdTaskOf::Ensure(macos_service::EnsureOf::OldFile)),
        done(task, Seq::empty(), reply, moments) is Some,
    ensures
        ({
            let (x, a) = done(task, Seq::empty(), reply, moments)->0;
            &&& a == ReplyView::Done(outcome(reply))
            &&& if outcome(reply) is Ok {
                reloaded(place, start_it(place), x)
            } else {
                picked(x, order()) == Seq::<(Seq<char>, Seq<Seq<char>>)>::empty()
            }
        }),
{
    let (x, a) = done(task, Seq::empty(), reply, moments)->0;
    lemma_step(place, task, reply, moments);
    lemma_ensure_task(moments[0].0, macos_service::EnsureOf::OldFile, reply);
    lemma_mac_orders(place, moments[0].0.mac);
    let (t1, asked) = task_step(moments[0].0, task, reply);
    let m0 = moments.drop_first();
    match outcome(reply) {
        Err(e) => {
            let (x1, r1, m1, y1) = lemma_plain(place, t1, asked, ReplyOf::Nothing, m0);
            lemma_end(t1, r1, m1);
            lemma_short(asked);
            assert(x =~= x1);
        },
        Ok(u) => {
            assert(u == ());
            let (x1, r1, m1, y1) = lemma_lead(place, t1, asked, 3, ReplyOf::Nothing, m0);
            lemma_short(asked.take(3));
            assert(asked.skip(3) =~= seq![EffectView::ServiceIsRunning]);
            let (x2, r2, m2, y2) = lemma_ask_last(place, t1, asked.skip(3), r1, m1);
            lemma_running(place, x2, r2);
            lemma_step(place, t1, r2, m2);
            lemma_ensure_task(m2[0].0, macos_service::EnsureOf::Reloaded, r2);
            lemma_mac_orders(place, m2[0].0.mac);
            let (end, last) = task_step(m2[0].0, t1, r2);
            let (x3, r3, m3, y3) = lemma_plain(
                place,
                end,
                last,
                ReplyOf::Nothing,
                m2.drop_first(),
            );
            lemma_end(end, r3, m3);
            lemma_short(last);
            assert(picked(x1, order()) =~= seq![out_of_launchd(place), into_launchd(place)]);
            assert(picked(x3, order()) =~= if yes(r2) {
                seq![start_it(place)]
            } else {
                Seq::empty()
            });
            lemma_reloaded(place, start_it(place), x1, x2, r2, x3);
            assert(x =~= x1 + x2 + x3);
        },
    }
}

/// A whole seeing to the definition leaves a definition that sets an environment as it is, makes
/// one that sets none anew with the switches that it has, and writes one where there is none.
pub proof fn law_whole_seeing_to_the_definition(
    place: Place,
    login: bool,
    reply: ReplyView,
    moments: Seq<Moment>,
)
    requires
        place.platform == Platform::MacOs,
        place.login == Some(login),
        alike(place, moments),
        done(
            TaskOf::Launchd(LaunchdTaskOf::Ensure(macos_service::EnsureOf::Start)),
            Seq::empty(),
            reply,
            moments,
        ) is Some,
    ensures
        ({
            let (x, a) = done(
                TaskOf::Launchd(LaunchdTaskOf::Ensure(macos_service::EnsureOf::Start)),
                Seq::empty(),
                reply,
                moments,
            )->0;
            ensure_told(place, login, x, a)
        }),
{
    let start: TaskView = TaskOf::Launchd(LaunchdTaskOf::Ensure(macos_service::EnsureOf::Start));
    let (x, a) = done(start, Seq::empty(), reply, moments)->0;
    lemma_names(place);
    lemma_step(place, start, reply, moments);
    lemma_ensure_task(moments[0].0, macos_service::EnsureOf::Start, reply);
    let (t1, asked) = task_step(moments[0].0, start, reply);
    let (x0, r0, m0, y0) = lemma_ask_last(place, t1, asked, ReplyOf::Nothing, moments.drop_first());
    lemma_plain_file(place, asked[0], x0, r0);
    lemma_step(place, t1, r0, m0);
    lemma_ensure_task(m0[0].0, macos_service::EnsureOf::Looking, r0);
    let (t2, more) = task_step(m0[0].0, t1, r0);
    let m1 = m0.drop_first();
    let (x1, r1, m2, y1) = lemma_ask(place, t2, more, ReplyOf::Nothing, m1);
    lemma_plain_file(place, more[0], x1, r1);
    let rest = more.drop_first();
    assert(x =~= x0 + x1 + y1);
    if yes(r0) {
        let (x2, r2, m3, y2) = lemma_ask_last(place, t2, rest, r1, m2);
        lemma_plain_file(place, rest[0], x2, r2);
        lemma_step(place, t2, r2, m3);
        lemma_ensure_task(m3[0].0, macos_service::EnsureOf::Inspecting, r2);
        let (t3, last) = task_step(m3[0].0, t2, r2);
        let m4 = m3.drop_first();
        assert(x =~= x0 + x1 + x2 + y2);
        assert(x.skip(3) =~= y2);
        if sets_environment(text_read(r2)) {
            assert(last =~= Seq::empty());
            lemma_end(t3, ReplyOf::Nothing, m4);
        } else {
            lemma_upgrade(place, t3, last, ReplyOf::Nothing, m4);
        }
    } else {
        assert(x.skip(2) =~= y1);
        match path_parent(mac_definition(place)) {
            None => {
                assert(rest =~= seq![
                    EffectView::PlistXml { run_at_load: login, keep_alive: true },
                ]);
                lemma_new_made(place, login, t2, rest, r1, m2);
            },
            Some(dir) => {
                let (x2, r2, m3, y2) = lemma_ask_last(place, t2, rest, r1, m2);
                lemma_plain_file(place, rest[0], x2, r2);
                lemma_step(place, t2, r2, m3);
                lemma_ensure_task(m3[0].0, macos_service::EnsureOf::NewDirectory, r2);
                let (t3, last) = task_step(m3[0].0, t2, r2);
                let m4 = m3.drop_first();
                assert(y1 =~= x2 + y2);
                assert(y1.drop_first() =~= y2);
                match outcome(r2) {
                    Ok(_) => {
                        lemma_new_made(place, login, t3, last, ReplyOf::Nothing, m4);
                    },
                    Err(e) => {
                        assert(last =~= Seq::empty());
                        lemma_end(t3, ReplyOf::Nothing, m4);
                    },
                }
            },
        }
    }
}

} // verus!

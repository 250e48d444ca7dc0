//! What whole runs of the operations on the service promise: which commands launchd and systemd
//! are given, what is written, and what is remembered.

use vstd::prelude::*;

use crate::call_laws::lemma_place_search_looks;
use crate::calls::begun;
use crate::calls::launchd_step;
use crate::calls::search_step;
use crate::calls::systemd_step;
use crate::calls::task_step;
use crate::calls::LaunchdTaskOf;
use crate::calls::LaunchdTaskView;
use crate::calls::SearchTaskOf;
use crate::calls::SearchTaskView;
use crate::calls::SystemdTaskOf;
use crate::calls::SystemdTaskView;
use crate::calls::TaskOf;
use crate::calls::TaskView;
use crate::calls::World;
use crate::commands::LoggedOf;
use crate::effect::EffectOf;
use crate::effect::EffectView;
use crate::effect::ReplyOf;
use crate::effect::ReplyView;
use crate::locations::home_path;
use crate::run_laws::alike;
use crate::run_laws::alone;
use crate::run_laws::carried_out;
use crate::run_laws::closed_under;
use crate::run_laws::done;
use crate::run_laws::lemma_ask;
use crate::run_laws::lemma_end;
use crate::run_laws::lemma_only;
use crate::run_laws::lemma_picked_add;
use crate::run_laws::lemma_picked_none;
use crate::run_laws::lemma_picked_one;
use crate::run_laws::lemma_step;
use crate::run_laws::lemma_unfold;
use crate::run_laws::lies_in;
use crate::run_laws::picked;
use crate::run_laws::stays_within;
use crate::run_laws::Exchange;
use crate::run_laws::Moment;
use crate::run_laws::Place;
use crate::search_run_laws::shells;
use crate::text::join;

verus! {

// ---- what is looked for in a run ----

/// A command to launchd or systemd, with its arguments.
pub open spec fn order() -> spec_fn(Exchange) -> Option<(Seq<char>, Seq<Seq<char>>)> {
    |e: Exchange|
        match e.0 {
            EffectOf::Run { program, args } => if program == "launchctl"@ || program
                == "systemctl"@ {
                Some((program, args))
            } else {
                None
            },
            _ => None,
        }
}

/// A choice about login that was stored.
pub open spec fn stored() -> spec_fn(Exchange) -> Option<bool> {
    |e: Exchange|
        match e.0 {
            EffectOf::StoreAutostart(b) => Some(b),
            _ => None,
        }
}

/// A file that was written, with its new contents.
pub open spec fn written_file() -> spec_fn(Exchange) -> Option<(Seq<u8>, Seq<char>)> {
    |e: Exchange|
        match e.0 {
            EffectOf::WriteText { path, text } => Some((path, text)),
            _ => None,
        }
}

/// A command to launchd.
pub open spec fn launchctl(args: Seq<Seq<char>>) -> (Seq<char>, Seq<Seq<char>>) {
    ("launchctl"@, args)
}

/// A command to the user's systemd.
pub open spec fn systemctl(args: Seq<Seq<char>>) -> (Seq<char>, Seq<Seq<char>>) {
    ("systemctl"@, seq!["--user"@] + args)
}

// ---- single commands ----

/// Whether a command was logged and run, and its output handed back.
pub open spec fn ordered(
    command: (Seq<char>, Seq<Seq<char>>),
    x: Seq<Exchange>,
    a: ReplyView,
) -> bool {
    &&& x.len() >= 2
    &&& x[0].0 == EffectView::Log(command.0 + " "@ + join(command.1, " "@))
    &&& x[1].0 == EffectView::Run { program: command.0, args: command.1 }
    &&& forall|i: int| #![trigger x[i]] 2 <= i < x.len() ==> x[i].0 is Log
    &&& a is Command
    &&& x[1].1 is Command ==> a == x[1].1
    &&& x[1].1 !is Command ==> a == ReplyView::Command(None)
}

proof fn lemma_join_user(args: Seq<Seq<char>>)
    requires
        args.len() > 0,
    ensures
        "systemctl --user "@ + join(args, " "@) == "systemctl"@ + " "@ + join(
            seq!["--user"@] + args,
            " "@,
        ),
    decreases args.len(),
{
    let all = seq!["--user"@] + args;
    reveal_strlit("systemctl --user ");
    reveal_strlit("systemctl");
    reveal_strlit(" ");
    reveal_strlit("--user");
    assert(all.drop_last() =~= seq!["--user"@] + args.drop_last());
    if args.len() == 1 {
        assert(args.drop_last().len() == 0);
        assert(all.drop_last() =~= seq!["--user"@]);
        assert(join(seq!["--user"@], " "@) == "--user"@);
        assert(join(args, " "@) == args[0]);
        assert(join(all, " "@) == "--user"@ + " "@ + args[0]);
        assert("systemctl --user "@ + args[0] =~= "systemctl"@ + " "@ + ("--user"@ + " "@ + args[0]));
    } else {
        lemma_join_user(args.drop_last());
        let j = join(args.drop_last(), " "@);
        let k = join(all.drop_last(), " "@);
        assert(join(args, " "@) == j + " "@ + args.last());
        assert(join(all, " "@) == k + " "@ + args.last());
        assert("systemctl --user "@ + (j + " "@ + args.last()) =~= ("systemctl --user "@ + j) + " "@
            + args.last());
        assert("systemctl"@ + " "@ + (k + " "@ + args.last()) =~= ("systemctl"@ + " "@ + k) + " "@
            + args.last());
    }
}

spec fn gives(task: TaskView, command: (Seq<char>, Seq<Seq<char>>), line: Seq<char>) -> bool {
    match task {
        TaskOf::Search(SearchTaskOf::Launchctl(args, LoggedOf::Start)) => command == launchctl(args)
            && line == "launchctl "@ + join(args, " "@),
        TaskOf::Search(SearchTaskOf::Systemctl(args, LoggedOf::Start)) => command == systemctl(args)
            && line == "systemctl --user "@ + join(args, " "@),
        _ => false,
    }
}

proof fn lemma_logged(
    place: Place,
    task: TaskView,
    command: (Seq<char>, Seq<Seq<char>>),
    line: Seq<char>,
    reply: ReplyView,
    moments: Seq<Moment>,
)
    requires
        alike(place, moments),
        done(task, Seq::empty(), reply, moments) is Some,
        line == command.0 + " "@ + join(command.1, " "@),
        gives(task, command, line),
    ensures
        ({
            let (x, a) = done(task, Seq::empty(), reply, moments)->0;
            ordered(command, x, a)
        }),
{
    let (x, a) = done(task, Seq::empty(), reply, moments)->0;
    lemma_step(place, task, reply, moments);
    reveal(search_step);
    let (t1, asked) = task_step(moments[0].0, task, reply);
    let rest = moments.drop_first();
    let (x1, r1, m1, y1) = lemma_ask(place, t1, asked, ReplyOf::Nothing, rest);
    let (x2, r2, m2, y2) = lemma_ask(place, t1, asked.drop_first(), r1, m1);
    assert(asked.drop_first().drop_first() =~= Seq::empty());
    lemma_step(place, t1, r2, m2);
    let (t2, more) = task_step(m2[0].0, t1, r2);
    let last = m2.drop_first();
    if more.len() == 0 {
        assert(more =~= Seq::empty());
        lemma_end(t2, ReplyOf::Nothing, last);
        assert(x =~= x1 + x2);
    } else {
        let (x3, r3, m3, y3) = lemma_ask(place, t2, more, ReplyOf::Nothing, last);
        assert(more.drop_first() =~= Seq::empty());
        lemma_end(t2, r3, m3);
        assert(x =~= x1 + x2 + x3);
    }
}

/// What is left of the commands, the stored choices and the written files of a command.
proof fn lemma_ordered_orders(
    command: (Seq<char>, Seq<Seq<char>>),
    x: Seq<Exchange>,
    a: ReplyView,
)
    requires
        ordered(command, x, a),
        command.0 == "launchctl"@ || command.0 == "systemctl"@,
    ensures
        picked(x, order()) == seq![command],
        picked(x, stored()) == Seq::<bool>::empty(),
        picked(x, written_file()) == Seq::<(Seq<u8>, Seq<char>)>::empty(),
{
    let rest = x.skip(2);
    assert(x =~= seq![x[0]] + (seq![x[1]] + rest));
    assert forall|i: int| 0 <= i < rest.len() implies order()(#[trigger] rest[i]) is None by {
        assert(rest[i] == x[i + 2]);
    }
    lemma_picked_none(rest, order());
    lemma_picked_one(x[0], order());
    lemma_picked_one(x[1], order());
    lemma_picked_add(seq![x[1]], rest, order());
    lemma_picked_add(seq![x[0]], seq![x[1]] + rest, order());
    assert(picked(x, order()) =~= seq![command]);
    lemma_picked_none(x, stored());
    lemma_picked_none(x, written_file());
}

/// A command to launchd is given as it was asked for, and its output is handed back.
pub proof fn law_launchctl_is_run(
    place: Place,
    args: Seq<Seq<char>>,
    x: Seq<Exchange>,
    a: ReplyView,
)
    requires
        carried_out(place, EffectOf::Launchctl(args), x, a),
    ensures
        ordered(launchctl(args), x, a),
        picked(x, order()) == seq![launchctl(args)],
        picked(x, stored()) == Seq::<bool>::empty(),
        picked(x, written_file()) == Seq::<(Seq<u8>, Seq<char>)>::empty(),
{
    let task = begun(place.platform, EffectOf::Launchctl(args))->0;
    let moments = choose|moments: Seq<Moment>|
        alike(place, moments) && #[trigger] done(task, Seq::empty(), ReplyOf::Nothing, moments)
            == Some((x, a));
    let line = "launchctl "@ + join(args, " "@);
    assert(line == "launchctl"@ + " "@ + join(args, " "@)) by {
        reveal_strlit("launchctl ");
        reveal_strlit("launchctl");
        reveal_strlit(" ");
        assert("launchctl "@ =~= "launchctl"@ + " "@);
    }
    lemma_logged(place, task, launchctl(args), line, ReplyOf::Nothing, moments);
    lemma_ordered_orders(launchctl(args), x, a);
}

/// A command to systemd is given as it was asked for, to the user's own systemd, and its output
/// is handed back.
pub proof fn law_systemctl_is_run(
    place: Place,
    args: Seq<Seq<char>>,
    x: Seq<Exchange>,
    a: ReplyView,
)
    requires
        args.len() > 0,
        carried_out(place, EffectOf::Systemctl(args), x, a),
    ensures
        ordered(systemctl(args), x, a),
        picked(x, order()) == seq![systemctl(args)],
        picked(x, stored()) == Seq::<bool>::empty(),
        picked(x, written_file()) == Seq::<(Seq<u8>, Seq<char>)>::empty(),
{
    let task = begun(place.platform, EffectOf::Systemctl(args))->0;
    let moments = choose|moments: Seq<Moment>|
        alike(place, moments) && #[trigger] done(task, Seq::empty(), ReplyOf::Nothing, moments)
            == Some((x, a));
    let line = "systemctl --user "@ + join(args, " "@);
    lemma_join_user(args);
    lemma_logged(place, task, systemctl(args), line, ReplyOf::Nothing, moments);
    lemma_ordered_orders(systemctl(args), x, a);
}

// ---- what gives no commands ----

/// Whether an operation searches, makes or writes, and gives no commands.
pub open spec fn is_quiet_task(t: TaskView) -> bool {
    match t {
        TaskOf::Search(SearchTaskOf::Launchctl(_, _)) => false,
        TaskOf::Search(SearchTaskOf::Systemctl(_, _)) => false,
        TaskOf::Search(_) => true,
        TaskOf::Launchd(LaunchdTaskOf::PlistXml(_, _, _)) => true,
        TaskOf::Launchd(LaunchdTaskOf::WritePlist(_, _)) => true,
        TaskOf::Launchd(LaunchdTaskOf::WritePlistKeepaliveOff(_)) => true,
        TaskOf::Launchd(LaunchdTaskOf::Autostart(_)) => true,
        TaskOf::Systemd(SystemdTaskOf::UnitContent(_, _)) => true,
        TaskOf::Systemd(SystemdTaskOf::WriteUnit(_, _)) => true,
        _ => false,
    }
}

/// Whether an effect is a look at or a change of files, a line in the log, a question to a login
/// shell, or names an operation that gives no commands.
pub open spec fn is_quiet(e: EffectView) -> bool {
    match e {
        EffectOf::Log(_) => true,
        EffectOf::Run { program, .. } => shells().contains(program),
        EffectOf::IsFile(_) => true,
        EffectOf::Exists(_) => true,
        EffectOf::List(_) => true,
        EffectOf::ReadText(_) => true,
        EffectOf::CreateDirs(_) => true,
        EffectOf::WriteText { .. } => true,
        EffectOf::WhichFromLoginShell(_) => true,
        EffectOf::WhichFromCommonPaths(_) => true,
        EffectOf::Which(_) => true,
        EffectOf::NodeForDsh(_) => true,
        EffectOf::LoginShellPath => true,
        EffectOf::DshProgram => true,
        EffectOf::ServiceEnv => true,
        EffectOf::PlistXml { .. } => true,
        EffectOf::WritePlist { .. } => true,
        EffectOf::WritePlistKeepaliveOff => true,
        EffectOf::UnitContent { .. } => true,
        EffectOf::WriteUnit { .. } => true,
        _ => false,
    }
}

/// The operations that give no commands.
pub open spec fn quiet_tasks() -> spec_fn(TaskView) -> bool {
    |t: TaskView| is_quiet_task(t)
}

/// The effects that lead to no commands.
pub open spec fn quiet_effects() -> spec_fn(EffectView) -> bool {
    |e: EffectView| is_quiet(e)
}

proof fn lemma_shells()
    ensures
        shells().contains("zsh"@),
        shells().contains("bash"@),
        shells().contains("sh"@),
        !shells().contains("launchctl"@),
        !shells().contains("systemctl"@),
{
    reveal_strlit("zsh");
    reveal_strlit("bash");
    reveal_strlit("sh");
    reveal_strlit("launchctl");
    reveal_strlit("systemctl");
    assert(shells()[0] == "zsh"@);
    assert(shells()[1] == "bash"@);
    assert(shells()[2] == "sh"@);
    assert forall|i: int| 0 <= i < shells().len() implies (#[trigger] shells()[i]).len() < 5 by {}
    if shells().contains("launchctl"@) {
        let i = choose|i: int| 0 <= i < shells().len() && shells()[i] == "launchctl"@;
        assert(shells()[i].len() < 5);
    }
    if shells().contains("systemctl"@) {
        let i = choose|i: int| 0 <= i < shells().len() && shells()[i] == "systemctl"@;
        assert(shells()[i].len() < 5);
    }
}

proof fn lemma_quiet_search(w: World, t: SearchTaskView, r: ReplyView)
    requires
        is_quiet_task(TaskOf::Search(t)),
    ensures
        ({
            let step = task_step(w, TaskOf::Search(t), r);
            stays_within(step.0, step.1, quiet_tasks(), quiet_effects())
        }),
{
    lemma_shells();
    match t {
        SearchTaskOf::WhichFromCommonPaths(name, s) => {
            lemma_place_search_looks(home_path(w.mac.env), name, s, r);
            reveal(search_step);
        },
        _ => {
            reveal(search_step);
        },
    }
}

proof fn lemma_quiet_launchd(w: World, t: LaunchdTaskView, r: ReplyView)
    requires
        is_quiet_task(TaskOf::Launchd(t)),
    ensures
        ({
            let step = task_step(w, TaskOf::Launchd(t), r);
            stays_within(step.0, step.1, quiet_tasks(), quiet_effects())
        }),
{
    reveal(launchd_step);
}

proof fn lemma_quiet_systemd(w: World, t: SystemdTaskView, r: ReplyView)
    requires
        is_quiet_task(TaskOf::Systemd(t)),
    ensures
        ({
            let step = task_step(w, TaskOf::Systemd(t), r);
            stays_within(step.0, step.1, quiet_tasks(), quiet_effects())
        }),
{
    reveal(systemd_step);
}

proof fn lemma_quiet_closed(place: Place)
    ensures
        closed_under(place, quiet_tasks(), quiet_effects()),
{
    assert forall|w: World, t: TaskView, r: ReplyView|
        lies_in(place, w) && quiet_tasks()(t) implies {
        let step = #[trigger] task_step(w, t, r);
        stays_within(step.0, step.1, quiet_tasks(), quiet_effects())
    } by {
        match t {
            TaskOf::Search(s) => lemma_quiet_search(w, s, r),
            TaskOf::Launchd(s) => lemma_quiet_launchd(w, s, r),
            TaskOf::Systemd(s) => lemma_quiet_systemd(w, s, r),
            TaskOf::Desktop(s) => {},
        }
    }
}

/// What searches, makes or writes gives no commands to launchd or systemd and stores no choice,
/// from its first step to its last.
pub proof fn law_quiet_effects_give_no_commands(
    place: Place,
    effect: EffectView,
    x: Seq<Exchange>,
    a: ReplyView,
)
    requires
        is_quiet(effect),
        carried_out(place, effect, x, a),
    ensures
        picked(x, order()) == Seq::<(Seq<char>, Seq<Seq<char>>)>::empty(),
        picked(x, stored()) == Seq::<bool>::empty(),
{
    lemma_shells();
    match begun(place.platform, effect) {
        None => {
            lemma_picked_one((effect, a), order());
            lemma_picked_one((effect, a), stored());
        },
        Some(task) => {
            let moments = choose|moments: Seq<Moment>|
                alike(place, moments) && #[trigger] done(
                    task,
                    Seq::empty(),
                    ReplyOf::Nothing,
                    moments,
                ) == Some((x, a));
            lemma_quiet_closed(place);
            lemma_only(
                place,
                alone(task, Seq::empty()),
                ReplyOf::Nothing,
                moments,
                quiet_tasks(),
                quiet_effects(),
            );
            assert forall|i: int| 0 <= i < x.len() implies order()(#[trigger] x[i]) is None
                && stored()(x[i]) is None by {
                assert(is_quiet(x[i].0));
            }
            lemma_picked_none(x, order());
            lemma_picked_none(x, stored());
        },
    }
}

// ---- what writes nothing ----

/// Whether an operation searches or makes a text, and writes no file.
pub open spec fn is_making_task(t: TaskView) -> bool {
    match t {
        TaskOf::Search(_) => is_quiet_task(t),
        TaskOf::Launchd(LaunchdTaskOf::PlistXml(_, _, _)) => true,
        TaskOf::Systemd(SystemdTaskOf::UnitContent(_, _)) => true,
        _ => false,
    }
}

/// Whether an effect leads to no writing of a file.
pub open spec fn is_making(e: EffectView) -> bool {
    match e {
        EffectOf::ReadText(_) => false,
        EffectOf::CreateDirs(_) => false,
        EffectOf::WriteText { .. } => false,
        EffectOf::WritePlist { .. } => false,
        EffectOf::WritePlistKeepaliveOff => false,
        EffectOf::WriteUnit { .. } => false,
        _ => is_quiet(e),
    }
}

/// The operations that write nothing.
pub open spec fn making_tasks() -> spec_fn(TaskView) -> bool {
    |t: TaskView| is_making_task(t)
}

/// The effects that lead to no writing.
pub open spec fn making_effects() -> spec_fn(EffectView) -> bool {
    |e: EffectView| is_making(e)
}

proof fn lemma_making_search(w: World, t: SearchTaskView, r: ReplyView)
    requires
        is_making_task(TaskOf::Search(t)),
    ensures
        ({
            let step = task_step(w, TaskOf::Search(t), r);
            stays_within(step.0, step.1, making_tasks(), making_effects())
        }),
{
    lemma_shells();
    match t {
        SearchTaskOf::WhichFromCommonPaths(name, s) => {
            lemma_place_search_looks(home_path(w.mac.env), name, s, r);
            reveal(search_step);
        },
        _ => {
            reveal(search_step);
        },
    }
}

proof fn lemma_making_closed(place: Place)
    ensures
        closed_under(place, making_tasks(), making_effects()),
{
    assert forall|w: World, t: TaskView, r: ReplyView|
        lies_in(place, w) && making_tasks()(t) implies {
        let step = #[trigger] task_step(w, t, r);
        stays_within(step.0, step.1, making_tasks(), making_effects())
    } by {
        match t {
            TaskOf::Search(s) => lemma_making_search(w, s, r),
            TaskOf::Launchd(_) => {
                reveal(launchd_step);
            },
            TaskOf::Systemd(_) => {
                reveal(systemd_step);
            },
            TaskOf::Desktop(_) => {},
        }
    }
}

/// What searches or makes a text writes no file, from its first step to its last.
pub proof fn law_making_writes_nothing(
    place: Place,
    effect: EffectView,
    x: Seq<Exchange>,
    a: ReplyView,
)
    requires
        is_making(effect),
        carried_out(place, effect, x, a),
    ensures
        picked(x, written_file()) == Seq::<(Seq<u8>, Seq<char>)>::empty(),
{
    match begun(place.platform, effect) {
        None => {
            lemma_picked_one((effect, a), written_file());
        },
        Some(task) => {
            let moments = lemma_unfold(place, effect, x, a);
            lemma_making_closed(place);
            lemma_only(
                place,
                alone(task, Seq::empty()),
                ReplyOf::Nothing,
                moments,
                making_tasks(),
                making_effects(),
            );
            assert forall|i: int| 0 <= i < x.len() implies written_file()(#[trigger] x[i])
                is None by {
                assert(is_making(x[i].0));
            }
            lemma_picked_none(x, written_file());
        },
    }
}

// ---- lists of effects ----

/// The command that an effect asks for.
pub open spec fn order_of(e: EffectView) -> Seq<(Seq<char>, Seq<Seq<char>>)> {
    match e {
        EffectOf::Launchctl(args) => seq![launchctl(args)],
        EffectOf::Systemctl(args) => seq![systemctl(args)],
        _ => Seq::empty(),
    }
}

/// The choice about login that an effect stores.
pub open spec fn store_of(e: EffectView) -> Seq<bool> {
    match e {
        EffectOf::StoreAutostart(b) => seq![b],
        _ => Seq::empty(),
    }
}

/// The commands that some effects ask for, in their order.
pub open spec fn orders_of(effects: Seq<EffectView>) -> Seq<(Seq<char>, Seq<Seq<char>>)>
    decreases effects.len(),
{
    if effects.len() == 0 {
        Seq::empty()
    } else {
        orders_of(effects.drop_last()) + order_of(effects.last())
    }
}

/// The choices about login that some effects store, in their order.
pub open spec fn stores_of(effects: Seq<EffectView>) -> Seq<bool>
    decreases effects.len(),
{
    if effects.len() == 0 {
        Seq::empty()
    } else {
        stores_of(effects.drop_last()) + store_of(effects.last())
    }
}

/// Whether an effect is a line for the user, a command or a choice to be stored.
pub open spec fn is_plain(e: EffectView) -> bool {
    match e {
        EffectOf::Log(_) => true,
        EffectOf::Warn(_) => true,
        EffectOf::StoreAutostart(_) => true,
        EffectOf::ShowActionMsg(_) => true,
        EffectOf::Launchctl(_) => true,
        EffectOf::Systemctl(args) => args.len() > 0,
        _ => false,
    }
}

proof fn lemma_plain_one(place: Place, e: EffectView, x: Seq<Exchange>, a: ReplyView)
    requires
        is_plain(e),
        carried_out(place, e, x, a),
    ensures
        picked(x, order()) == order_of(e),
        picked(x, stored()) == store_of(e),
        picked(x, written_file()) == Seq::<(Seq<u8>, Seq<char>)>::empty(),
{
    match e {
        EffectOf::Launchctl(args) => law_launchctl_is_run(place, args, x, a),
        EffectOf::Systemctl(args) => law_systemctl_is_run(place, args, x, a),
        _ => {
            lemma_picked_one((e, a), order());
            lemma_picked_one((e, a), stored());
            lemma_picked_one((e, a), written_file());
        },
    }
}

/// The first `k` of what an operation has asked for are carried out in their order.
pub proof fn lemma_lead(
    place: Place,
    task: TaskView,
    pending: Seq<EffectView>,
    k: int,
    reply: ReplyView,
    moments: Seq<Moment>,
) -> (r: (Seq<Exchange>, ReplyView, Seq<Moment>, Seq<Exchange>))
    requires
        0 <= k <= pending.len(),
        forall|i: int| 0 <= i < k ==> is_plain(#[trigger] pending[i]),
        done(task, pending, reply, moments) is Some,
        alike(place, moments),
    ensures
        ({
            let (x1, r1, later, x2) = r;
            let (x, a) = done(task, pending, reply, moments)->0;
            &&& done(task, pending.skip(k), r1, later) == Some((x2, a))
            &&& alike(place, later)
            &&& x == x1 + x2
            &&& k == 0 ==> r1 == reply
            &&& picked(x1, order()) == orders_of(pending.take(k))
            &&& picked(x1, stored()) == stores_of(pending.take(k))
            &&& picked(x1, written_file()) == Seq::<(Seq<u8>, Seq<char>)>::empty()
        }),
    decreases k,
{
    let (x, a) = done(task, pending, reply, moments)->0;
    if k == 0 {
        assert(pending.skip(0) =~= pending);
        assert(pending.take(0) =~= Seq::empty());
        assert(x =~= Seq::<Exchange>::empty() + x);
        (Seq::empty(), reply, moments, x)
    } else {
        let (x1, r1, later, x2) = lemma_lead(place, task, pending, k - 1, reply, moments);
        let rest = pending.skip(k - 1);
        assert(rest[0] == pending[k - 1]);
        let (y1, s1, after, y2) = lemma_ask(place, task, rest, r1, later);
        assert(rest.drop_first() =~= pending.skip(k));
        lemma_plain_one(place, pending[k - 1], y1, s1);
        assert(pending.take(k).drop_last() =~= pending.take(k - 1));
        lemma_picked_add(x1, y1, order());
        lemma_picked_add(x1, y1, stored());
        lemma_picked_add(x1, y1, written_file());
        assert(x =~= (x1 + y1) + y2);
        assert(picked(x1 + y1, written_file()) =~= Seq::<(Seq<u8>, Seq<char>)>::empty());
        (x1 + y1, s1, after, y2)
    }
}

/// The same for all of it.
pub proof fn lemma_plain(
    place: Place,
    task: TaskView,
    pending: Seq<EffectView>,
    reply: ReplyView,
    moments: Seq<Moment>,
) -> (r: (Seq<Exchange>, ReplyView, Seq<Moment>, Seq<Exchange>))
    requires
        forall|i: int| 0 <= i < pending.len() ==> is_plain(#[trigger] pending[i]),
        done(task, pending, reply, moments) is Some,
        alike(place, moments),
    ensures
        ({
            let (x1, r1, later, x2) = r;
            let (x, a) = done(task, pending, reply, moments)->0;
            &&& done(task, Seq::empty(), r1, later) == Some((x2, a))
            &&& alike(place, later)
            &&& x == x1 + x2
            &&& picked(x1, order()) == orders_of(pending)
            &&& picked(x1, stored()) == stores_of(pending)
            &&& picked(x1, written_file()) == Seq::<(Seq<u8>, Seq<char>)>::empty()
        }),
{
    let n = pending.len() as int;
    assert(pending.skip(n) =~= Seq::empty());
    assert(pending.take(n) =~= pending);
    lemma_lead(place, task, pending, n, reply, moments)
}

/// What a short list of effects asks for, by its elements.
pub proof fn lemma_short(e: Seq<EffectView>)
    ensures
        e.len() == 0 ==> orders_of(e) == Seq::<(Seq<char>, Seq<Seq<char>>)>::empty() && stores_of(e)
            == Seq::<bool>::empty(),
        e.len() == 1 ==> orders_of(e) == order_of(e[0]) && stores_of(e) == store_of(e[0]),
        e.len() == 2 ==> orders_of(e) == order_of(e[0]) + order_of(e[1]) && stores_of(e) == store_of(
            e[0],
        ) + store_of(e[1]),
        e.len() == 3 ==> orders_of(e) == order_of(e[0]) + order_of(e[1]) + order_of(e[2])
            && stores_of(e) == store_of(e[0]) + store_of(e[1]) + store_of(e[2]),
        e.len() == 4 ==> orders_of(e) == order_of(e[0]) + order_of(e[1]) + order_of(e[2])
            + order_of(e[3]) && stores_of(e) == store_of(e[0]) + store_of(e[1]) + store_of(e[2])
            + store_of(e[3]),
        e.len() == 5 ==> orders_of(e) == order_of(e[0]) + order_of(e[1]) + order_of(e[2])
            + order_of(e[3]) + order_of(e[4]) && stores_of(e) == store_of(e[0]) + store_of(e[1])
            + store_of(e[2]) + store_of(e[3]) + store_of(e[4]),
    decreases e.len(),
{
    if e.len() > 0 {
        let d = e.drop_last();
        lemma_short(d);
        if e.len() == 1 {
            assert(orders_of(e) =~= order_of(e[0]));
            assert(stores_of(e) =~= store_of(e[0]));
        }
    }
}

// ---- answers to commands ----

/// The answer to a command.
pub open spec fn answered(command: (Seq<char>, Seq<Seq<char>>)) -> spec_fn(Exchange) -> Option<
    ReplyView,
> {
    |e: Exchange|
        match e.0 {
            EffectOf::Run { program, args } => if (program, args) == command {
                Some(e.1)
            } else {
                None
            },
            _ => None,
        }
}

/// A command that was not given was not answered.
pub proof fn lemma_unanswered(x: Seq<Exchange>, command: (Seq<char>, Seq<Seq<char>>))
    requires
        command.0 == "launchctl"@ || command.0 == "systemctl"@,
        forall|i: int|
            0 <= i < picked(x, order()).len() ==> #[trigger] picked(x, order())[i] != command,
    ensures
        picked(x, answered(command)) == Seq::<ReplyView>::empty(),
    decreases x.len(),
{
    if x.len() > 0 {
        let y = x.drop_last();
        let all = picked(x, order());
        let front = picked(y, order());
        if let Some(c) = order()(x.last()) {
            assert(all == front.push(c));
            assert(all[front.len() as int] == c);
        }
        assert forall|i: int| 0 <= i < front.len() implies #[trigger] front[i] != command by {
            assert(all[i] == front[i]);
        }
        lemma_unanswered(y, command);
    }
}

/// A single command is answered once.
pub proof fn lemma_answered_once(
    command: (Seq<char>, Seq<Seq<char>>),
    x: Seq<Exchange>,
    a: ReplyView,
)
    requires
        ordered(command, x, a),
    ensures
        picked(x, answered(command)) == seq![x[1].1],
{
    let f = answered(command);
    let rest = x.skip(2);
    assert(x =~= seq![x[0]] + (seq![x[1]] + rest));
    assert forall|i: int| 0 <= i < rest.len() implies f(#[trigger] rest[i]) is None by {
        assert(rest[i] == x[i + 2]);
    }
    lemma_picked_none(rest, f);
    lemma_picked_one(x[0], f);
    lemma_picked_one(x[1], f);
    lemma_picked_add(seq![x[1]], rest, f);
    lemma_picked_add(seq![x[0]], seq![x[1]] + rest, f);
    assert(picked(x, f) =~= seq![x[1].1]);
}

/// What three parts of a run hold together.
pub proof fn lemma_three(
    x0: Seq<Exchange>,
    x1: Seq<Exchange>,
    x2: Seq<Exchange>,
    x: Seq<Exchange>,
)
    requires
        x == x0 + x1 + x2,
    ensures
        picked(x, order()) == picked(x0, order()) + picked(x1, order()) + picked(x2, order()),
        picked(x, stored()) == picked(x0, stored()) + picked(x1, stored()) + picked(x2, stored()),
        picked(x, written_file()) == picked(x0, written_file()) + picked(x1, written_file())
            + picked(x2, written_file()),
{
    lemma_picked_add(x0 + x1, x2, order());
    lemma_picked_add(x0, x1, order());
    lemma_picked_add(x0 + x1, x2, stored());
    lemma_picked_add(x0, x1, stored());
    lemma_picked_add(x0 + x1, x2, written_file());
    lemma_picked_add(x0, x1, written_file());
}

} // verus!

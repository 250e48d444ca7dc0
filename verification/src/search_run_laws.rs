//! What whole searches promise: for the programs, for the search path, and for the command line.

use vstd::prelude::*;
use vstd::utf8::*;

use crate::calls::begun;
use crate::calls::search_step;
use crate::calls::task_answer;
use crate::calls::task_step;
use crate::calls::SearchTaskOf;
use crate::calls::TaskOf;
use crate::calls::TaskView;
use crate::calls::World;
use crate::effect::EffectOf;
use crate::effect::EffectView;
use crate::effect::ReplyOf;
use crate::effect::ReplyView;
use crate::locations::home_path;
use crate::native::decoded;
use crate::path::path_join;
use crate::path::path_parent;
use crate::path::SLASH;
use crate::programs::later;
use crate::programs::node_step;
use crate::programs::nvm_path;
use crate::programs::place;
use crate::programs::place_search_step;
use crate::programs::program_step;
use crate::programs::try_place;
use crate::programs::try_version;
use crate::programs::version_place;
use crate::programs::which_step;
use crate::programs::NodeSearchOf;
use crate::programs::NodeSearchView;
use crate::programs::PlaceSearchOf;
use crate::programs::PlaceSearchView;
use crate::programs::ProgramSearchOf;
use crate::programs::ProgramSearchView;
use crate::programs::WhichOf;
use crate::programs::WhichView;
use crate::run_laws::alike;
use crate::run_laws::carried_out;
use crate::run_laws::done;
use crate::run_laws::lemma_ask;
use crate::run_laws::lemma_end;
use crate::run_laws::lemma_picked_add;
use crate::run_laws::lemma_picked_one;
use crate::run_laws::lemma_step;
use crate::run_laws::lemma_unfold;
use crate::run_laws::picked;
use crate::run_laws::Exchange;
use crate::run_laws::Moment;
use crate::run_laws::Place;
use crate::search::ask_for;
use crate::search::ask_path;
use crate::search::env_step;
use crate::search::path_search_step;
use crate::search::service_variables;
use crate::search::shell_search_step;
use crate::search::text_view;
use crate::search::EnvSearchOf;
use crate::search::EnvSearchView;
use crate::search::PathSearchOf;
use crate::search::PathSearchView;
use crate::search::ShellSearchOf;
use crate::search::ShellSearchView;
use crate::text::trim;
use crate::version::law_version_not_before_itself;
use crate::version::law_version_order_is_transitive;
use crate::version::version_before;

verus! {

// ---- single steps ----

proof fn lemma_shell_task(world: World, name: Seq<char>, s: ShellSearchView, reply: ReplyView)
    ensures
        ({
            let (next, effects) = shell_search_step(name, s, reply);
            task_step(world, TaskOf::Search(SearchTaskOf::WhichFromLoginShell(name, s)), reply) == (
                TaskView::Search(SearchTaskOf::WhichFromLoginShell(name, next)),
                effects,
            )
        }),
{
    reveal(search_step);
}

proof fn lemma_place_task(world: World, name: Seq<char>, s: PlaceSearchView, reply: ReplyView)
    ensures
        ({
            let (next, effects) = place_search_step(home_path(world.mac.env), name, s, reply);
            task_step(world, TaskOf::Search(SearchTaskOf::WhichFromCommonPaths(name, s)), reply) == (
                TaskView::Search(SearchTaskOf::WhichFromCommonPaths(name, next)),
                effects,
            )
        }),
{
    reveal(search_step);
}

proof fn lemma_which_task(world: World, name: Seq<char>, s: WhichView, reply: ReplyView)
    ensures
        ({
            let (next, effects) = which_step(name, s, reply);
            task_step(world, TaskOf::Search(SearchTaskOf::Which(name, s)), reply) == (
                TaskView::Search(SearchTaskOf::Which(name, next)),
                effects,
            )
        }),
{
    reveal(search_step);
}

proof fn lemma_node_task(world: World, dsh: Seq<u8>, s: NodeSearchView, reply: ReplyView)
    ensures
        ({
            let (next, effects) = node_step(dsh, s, reply);
            task_step(world, TaskOf::Search(SearchTaskOf::NodeForDsh(dsh, s)), reply) == (
                TaskView::Search(SearchTaskOf::NodeForDsh(dsh, next)),
                effects,
            )
        }),
{
    reveal(search_step);
}

proof fn lemma_program_task(world: World, s: ProgramSearchView, reply: ReplyView)
    ensures
        ({
            let (next, effects) = program_step(s, reply);
            task_step(world, TaskOf::Search(SearchTaskOf::DshProgram(s)), reply) == (
                TaskView::Search(SearchTaskOf::DshProgram(next)),
                effects,
            )
        }),
{
    reveal(search_step);
}

proof fn lemma_path_task(world: World, s: PathSearchView, reply: ReplyView)
    ensures
        ({
            let (next, effects) = path_search_step(text_view(world.own), s, reply);
            task_step(world, TaskOf::Search(SearchTaskOf::LoginShellPath(s)), reply) == (
                TaskView::Search(SearchTaskOf::LoginShellPath(next)),
                effects,
            )
        }),
{
    reveal(search_step);
}

proof fn lemma_env_task(world: World, s: EnvSearchView, reply: ReplyView)
    ensures
        ({
            let (next, effects) = env_step(text_view(world.own), s, reply);
            task_step(world, TaskOf::Search(SearchTaskOf::ServiceEnv(s)), reply) == (
                TaskView::Search(SearchTaskOf::ServiceEnv(next)),
                effects,
            )
        }),
{
    reveal(search_step);
}

// ---- the login shells ----

/// The shells that are asked, in this order.
pub open spec fn shells() -> Seq<Seq<char>> {
    seq!["zsh"@, "bash"@, "sh"@]
}

/// The program of an exchange that ran one.
pub open spec fn program_run() -> spec_fn(Exchange) -> Option<Seq<char>> {
    |e: Exchange|
        match e.0 {
            EffectOf::Run { program, .. } => Some(program),
            _ => None,
        }
}

/// What a command wrote, without white space around it, where it ended with success.
pub open spec fn wrote(reply: ReplyView) -> Option<Seq<char>> {
    match reply {
        ReplyOf::Command(Some(o)) => if o.success {
            Some(trim(decoded(o.stdout)))
        } else {
            None
        },
        _ => None,
    }
}

/// The absolute path that a command wrote.
pub open spec fn told_path(reply: ReplyView) -> Option<Seq<u8>> {
    match wrote(reply) {
        Some(text) => {
            let path = encode_utf8(text);
            if path.len() > 0 && path[0] == SLASH {
                Some(path)
            } else {
                None
            }
        },
        None => None,
    }
}

/// Whether a command could not be run.
pub open spec fn not_run(reply: ReplyView) -> bool {
    !(reply is Command && reply->Command_0 is Some)
}

/// Whether the surroundings said that there is a regular file.
pub open spec fn is_there(e: Exchange) -> bool {
    e.0 is IsFile && e.1 == ReplyView::Flag(true)
}

/// Whether a search for a program asked the login shells in turn, from the shell of number `k`
/// on. Each is asked by `command -v`. An absolute path that one of them writes is looked at next,
/// and nothing else is. The first regular file is what is found; nothing is found where there is
/// none, and then either no shell is left or the last one could not be run.
pub open spec fn shells_told(name: Seq<char>, k: int, x: Seq<Exchange>, a: ReplyView) -> bool {
    let n = k + picked(x, program_run()).len();
    &&& a is Found
    &&& n <= 3
    &&& picked(x, program_run()) == shells().subrange(k, n)
    &&& forall|i: int| #![trigger x[i]] 0 <= i < x.len() ==> x[i].0 is Run || x[i].0 is IsFile
    &&& forall|i: int|
        #![trigger x[i]]
        0 <= i < x.len() ==> (x[i].0 matches EffectOf::Run { args, .. } ==> args == seq![
            "-lc"@,
            "command -v "@ + name,
        ])
    &&& forall|i: int|
        #![trigger x[i]]
        0 <= i < x.len() && x[i].0 is Run && told_path(x[i].1) is Some ==> i + 1 < x.len() && x[i
            + 1].0 == EffectView::IsFile(told_path(x[i].1)->0)
    &&& forall|i: int|
        #![trigger x[i]]
        0 <= i < x.len() && x[i].0 is IsFile ==> i > 0 && x[i - 1].0 is Run && told_path(
            x[i - 1].1,
        ) == Some(x[i].0->IsFile_0)
    &&& forall|i: int|
        #![trigger x[i]]
        0 <= i < x.len() && is_there(x[i]) ==> i == x.len() - 1 && a == ReplyView::Found(
            Some(x[i].0->IsFile_0),
        )
    &&& a->Found_0 is Some ==> x.len() > 0 && is_there(x.last()) && x.last().0->IsFile_0
        == a->Found_0->0
    &&& a->Found_0 is None ==> n == 3 || (x.len() > 0 && x.last().0 is Run && not_run(x.last().1))
}

/// What comes before the shells from number `k + 1` on: the shell of number `k` and, where it
/// told a path, a look at that path.
proof fn lemma_shell_before(
    name: Seq<char>,
    k: int,
    head: Seq<Exchange>,
    x: Seq<Exchange>,
    a: ReplyView,
)
    requires
        0 <= k < 3,
        shells_told(name, k + 1, x, a),
        1 <= head.len() <= 2,
        head[0].0 == (EffectView::Run {
            program: shells()[k],
            args: seq!["-lc"@, "command -v "@ + name],
        }),
        !not_run(head[0].1),
        head.len() == 1 ==> told_path(head[0].1) is None,
        head.len() == 2 ==> told_path(head[0].1) == Some(head[1].0->IsFile_0) && head[1].0 is IsFile
            && !is_there(head[1]),
    ensures
        shells_told(name, k, head + x, a),
{
    let all = head + x;
    lemma_picked_add(head, x, program_run());
    lemma_picked_one(head[0], program_run());
    if head.len() == 2 {
        lemma_picked_one(head[1], program_run());
        lemma_picked_add(seq![head[0]], seq![head[1]], program_run());
        assert(head =~= seq![head[0]] + seq![head[1]]);
    } else {
        assert(head =~= seq![head[0]]);
    }
    let m = picked(x, program_run()).len();
    assert(picked(all, program_run()) =~= shells().subrange(k, k + 1 + m));
    assert forall|i: int| #![trigger all[i]] head.len() <= i < all.len() implies all[i] == x[i
        - head.len()] by {}
    assert forall|i: int| #![trigger all[i]] 0 <= i < all.len() && all[i].0 is IsFile implies i > 0
        && all[i - 1].0 is Run && told_path(all[i - 1].1) == Some(all[i].0->IsFile_0) by {
        if i >= head.len() {
            assert(x[i - head.len()] == all[i]);
            assert(all[i - 1] == x[i - head.len() - 1]);
        }
    }
    assert forall|i: int|
        #![trigger all[i]]
        0 <= i < all.len() && all[i].0 is Run && told_path(all[i].1) is Some implies i + 1
        < all.len() && all[i + 1].0 == EffectView::IsFile(told_path(all[i].1)->0) by {
        if i >= head.len() {
            assert(x[i - head.len()] == all[i]);
            assert(all[i + 1] == x[i - head.len() + 1]);
        }
    }
    if x.len() > 0 {
        assert(all.last() == x.last());
    }
}

proof fn lemma_shells_from(
    place: Place,
    name: Seq<char>,
    k: int,
    reply: ReplyView,
    moments: Seq<Moment>,
)
    requires
        0 <= k <= 3,
        alike(place, moments),
        ({
            let (s, asked) = ask_for(name, k);
            done(TaskOf::Search(SearchTaskOf::WhichFromLoginShell(name, s)), asked, reply, moments)
                is Some
        }),
    ensures
        ({
            let (s, asked) = ask_for(name, k);
            let (x, a) = done(
                TaskOf::Search(SearchTaskOf::WhichFromLoginShell(name, s)),
                asked,
                reply,
                moments,
            )->0;
            shells_told(name, k, x, a)
        }),
    decreases 3 - k,
{
    let (s, asked) = ask_for(name, k);
    let task: TaskView = TaskOf::Search(SearchTaskOf::WhichFromLoginShell(name, s));
    let (x, a) = done(task, asked, reply, moments)->0;
    if k == 3 {
        assert(asked =~= Seq::empty());
        lemma_end(task, reply, moments);
        assert(picked(x, program_run()) =~= Seq::empty());
        assert(shells().subrange(3, 3) =~= Seq::empty());
    } else {
        let (x1, r1, later, x2) = lemma_ask(place, task, asked, reply, moments);
        assert(asked.drop_first() =~= Seq::empty());
        let run = x1[0];
        assert(x1 =~= seq![run]);
        lemma_picked_one(run, program_run());
        lemma_step(place, task, r1, later);
        lemma_shell_task(later[0].0, name, s, r1);
        let (next, pending) = task_step(later[0].0, task, r1);
        let rest = later.drop_first();
        if not_run(r1) {
            assert(pending =~= Seq::empty());
            lemma_end(next, ReplyOf::Nothing, rest);
            assert(x =~= x1);
            assert(shells().subrange(k, k + 1) =~= seq![shells()[k]]);
            assert(told_path(r1) is None);
        } else if told_path(r1) is None {
            lemma_shells_from(place, name, k + 1, ReplyOf::Nothing, rest);
            lemma_shell_before(name, k, x1, x2, a);
        } else {
            let p = told_path(r1)->0;
            assert(pending =~= seq![EffectView::IsFile(p)]);
            let (y1, r2, after, y2) = lemma_ask(place, next, pending, ReplyOf::Nothing, rest);
            assert(pending.drop_first() =~= Seq::empty());
            let look = y1[0];
            assert(y1 =~= seq![look]);
            lemma_step(place, next, r2, after);
            lemma_shell_task(after[0].0, name, ShellSearchOf::Checking(k as usize, p), r2);
            let (end, none) = task_step(after[0].0, next, r2);
            let last = after.drop_first();
            assert(x =~= (x1 + y1) + y2);
            if is_there(look) {
                assert(none =~= Seq::empty());
                lemma_end(end, ReplyOf::Nothing, last);
                lemma_picked_one(look, program_run());
                lemma_picked_add(x1, y1, program_run());
                assert(x =~= seq![run, look]);
                assert(x =~= x1 + y1);
                assert(picked(x, program_run()) =~= seq![shells()[k]]);
                assert(shells().subrange(k, k + 1) =~= seq![shells()[k]]);
            } else {
                lemma_shells_from(place, name, k + 1, ReplyOf::Nothing, last);
                lemma_shell_before(name, k, x1 + y1, y2, a);
            }
        }
    }
}

/// A whole search in the login shells asks zsh, bash and sh, in this order, until one of them
/// names a regular file by an absolute path, and ends in that file.
pub proof fn law_login_shells_are_asked_in_turn(
    place: Place,
    name: Seq<char>,
    reply: ReplyView,
    moments: Seq<Moment>,
)
    requires
        alike(place, moments),
        done(
            TaskOf::Search(SearchTaskOf::WhichFromLoginShell(name, ShellSearchOf::Start)),
            Seq::empty(),
            reply,
            moments,
        ) is Some,
    ensures
        ({
            let (x, a) = done(
                TaskOf::Search(SearchTaskOf::WhichFromLoginShell(name, ShellSearchOf::Start)),
                Seq::empty(),
                reply,
                moments,
            )->0;
            shells_told(name, 0, x, a)
        }),
{
    let task: TaskView = TaskOf::Search(
        SearchTaskOf::WhichFromLoginShell(name, ShellSearchOf::Start),
    );
    lemma_step(place, task, reply, moments);
    lemma_shell_task(moments[0].0, name, ShellSearchOf::Start, reply);
    lemma_shells_from(place, name, 0, ReplyOf::Nothing, moments.drop_first());
}

// ---- the common places ----

/// The path that some names lead to, one below the other.
pub open spec fn under(base: Seq<u8>, names: Seq<Seq<char>>) -> Seq<u8>
    decreases names.len(),
{
    if names.len() == 0 {
        base
    } else {
        path_join(under(base, names.drop_last()), encode_utf8(names.last()))
    }
}

/// The places where a program is commonly installed, in the order in which they are looked at.
pub open spec fn common_places(home: Seq<u8>, name: Seq<char>) -> Seq<Seq<u8>> {
    seq![
        under(home, seq![".nvm/versions/node"@, "current/bin"@, name]),
        under(home, seq![".local/bin"@, name]),
        under(home, seq![".volta/bin"@, name]),
        under(encode_utf8("/opt/homebrew/bin"@), seq![name]),
        under(encode_utf8("/usr/local/bin"@), seq![name]),
        under(encode_utf8("/usr/bin"@), seq![name]),
    ]
}

/// Whether the common places from number `k` on were looked at in turn, until one of them held
/// the program.
pub open spec fn places_told(
    home: Seq<u8>,
    name: Seq<char>,
    k: int,
    x: Seq<Exchange>,
    a: ReplyView,
) -> bool {
    &&& a is Found
    &&& x.len() <= 6 - k
    &&& forall|j: int|
        #![trigger x[j]]
        0 <= j < x.len() ==> x[j].0 == EffectView::IsFile(common_places(home, name)[k + j])
    &&& forall|j: int|
        #![trigger x[j]]
        0 <= j < x.len() && is_there(x[j]) ==> j == x.len() - 1 && a == ReplyView::Found(
            Some(common_places(home, name)[k + j]),
        )
    &&& a->Found_0 is Some ==> x.len() > 0 && is_there(x.last())
    &&& a->Found_0 is None ==> x.len() == 6 - k
}

proof fn lemma_place(home: Seq<u8>, name: Seq<char>, i: int)
    requires
        0 <= i < 6,
    ensures
        place(home, name, i) == common_places(home, name)[i],
{
    reveal_with_fuel(under, 4);
    let a = ".nvm/versions/node"@;
    let b = "current/bin"@;
    assert(seq![a, b, name].drop_last() =~= seq![a, b]);
    assert(seq![a, b].drop_last() =~= seq![a]);
    assert(seq![a].drop_last() =~= Seq::empty());
    let c = ".local/bin"@;
    assert(seq![c, name].drop_last() =~= seq![c]);
    assert(seq![c].drop_last() =~= Seq::empty());
    let d = ".volta/bin"@;
    assert(seq![d, name].drop_last() =~= seq![d]);
    assert(seq![d].drop_last() =~= Seq::empty());
    assert(seq![name].drop_last() =~= Seq::empty());
}

proof fn lemma_places_from(
    place: Place,
    name: Seq<char>,
    k: int,
    reply: ReplyView,
    moments: Seq<Moment>,
)
    requires
        0 <= k <= 6,
        alike(place, moments),
        ({
            let (s, asked) = try_place(home_path(place.mac_env), name, k);
            done(TaskOf::Search(SearchTaskOf::WhichFromCommonPaths(name, s)), asked, reply, moments)
                is Some
        }),
    ensures
        ({
            let (s, asked) = try_place(home_path(place.mac_env), name, k);
            let (x, a) = done(
                TaskOf::Search(SearchTaskOf::WhichFromCommonPaths(name, s)),
                asked,
                reply,
                moments,
            )->0;
            places_told(home_path(place.mac_env), name, k, x, a)
        }),
    decreases 6 - k,
{
    let home = home_path(place.mac_env);
    let (s, asked) = try_place(home, name, k);
    let task: TaskView = TaskOf::Search(SearchTaskOf::WhichFromCommonPaths(name, s));
    let (x, a) = done(task, asked, reply, moments)->0;
    if k == 6 {
        assert(asked =~= Seq::empty());
        lemma_end(task, reply, moments);
    } else {
        let (x1, r1, later, x2) = lemma_ask(place, task, asked, reply, moments);
        assert(asked.drop_first() =~= Seq::empty());
        let look = x1[0];
        assert(x1 =~= seq![look]);
        lemma_place(home, name, k);
        lemma_step(place, task, r1, later);
        lemma_place_task(later[0].0, name, s, r1);
        let (next, pending) = task_step(later[0].0, task, r1);
        let rest = later.drop_first();
        if is_there(look) {
            assert(pending =~= Seq::empty());
            lemma_end(next, ReplyOf::Nothing, rest);
            assert(x =~= x1);
        } else {
            lemma_places_from(place, name, k + 1, ReplyOf::Nothing, rest);
            assert forall|j: int| #![trigger x[j]] 1 <= j < x.len() implies x[j] == x2[j - 1] by {}
            if x2.len() > 0 {
                assert(x.last() == x2.last());
            }
        }
    }
}

/// Where a version that nvm lists keeps a program: in its directory for programs, or in its own.
pub open spec fn version_path(home: Seq<u8>, name: Seq<char>, version: Seq<u8>, bin: bool) -> Seq<
    u8,
> {
    let dir = path_join(under(home, seq![".nvm/versions/node"@]), version);
    if bin {
        under(dir, seq!["bin"@, name])
    } else {
        under(dir, seq![name])
    }
}

proof fn lemma_version_place(home: Seq<u8>, name: Seq<char>, version: Seq<u8>, bin: bool)
    ensures
        version_place(home, name, version, bin) == version_path(home, name, version, bin),
        nvm_path(home) == under(home, seq![".nvm/versions/node"@]),
{
    reveal_with_fuel(under, 3);
    let a = ".nvm/versions/node"@;
    assert(seq![a].drop_last() =~= Seq::empty());
    assert(seq!["bin"@, name].drop_last() =~= seq!["bin"@]);
    assert(seq!["bin"@].drop_last() =~= Seq::empty());
    assert(seq![name].drop_last() =~= Seq::empty());
}

/// Whether `held` tells where the listed versions keep the program, by what was asked: in the
/// directory for programs, which is looked at first, in their own, or not at all.
pub open spec fn versions_hold(
    home: Seq<u8>,
    name: Seq<char>,
    versions: Seq<Seq<u8>>,
    from: int,
    held: Seq<Option<bool>>,
    x: Seq<Exchange>,
) -> bool {
    &&& forall|i: int| #![trigger x[i]] 0 <= i < x.len() ==> x[i].0 is IsFile
    &&& forall|j: int|
        #![trigger held[j]]
        from <= j < held.len() ==> {
            let first = EffectView::IsFile(version_path(home, name, versions[j], true));
            let second = EffectView::IsFile(version_path(home, name, versions[j], false));
            match held[j] {
                Some(true) => x.contains((first, ReplyView::Flag(true))),
                Some(false) => x.contains((second, ReplyView::Flag(true))) && denied(x, first),
                None => denied(x, first) && denied(x, second),
            }
        }
}

/// The names that a listing brought; none where it brought none.
pub open spec fn listed(reply: ReplyView) -> Seq<Seq<u8>> {
    match reply {
        ReplyOf::Names(Some(names)) => names,
        _ => Seq::empty(),
    }
}

/// Whether something was asked and not affirmed.
pub open spec fn denied(x: Seq<Exchange>, effect: EffectView) -> bool {
    exists|r: ReplyView| r != ReplyView::Flag(true) && #[trigger] x.contains((effect, r))
}

/// Whether `best` is the latest of the versions that hold the program, or nothing where none does.
pub open spec fn is_latest(
    versions: Seq<Seq<u8>>,
    held: Seq<Option<bool>>,
    best: Option<(Seq<char>, bool)>,
) -> bool {
    match best {
        None => forall|j: int| 0 <= j < held.len() ==> #[trigger] held[j] is None,
        Some((text, bin)) => {
            &&& exists|k: int|
                0 <= k < held.len() && #[trigger] held[k] == Some(bin) && text == decoded(versions[k])
            &&& forall|j: int|
                0 <= j < held.len() && #[trigger] held[j] is Some ==> !version_before(
                    text,
                    decoded(versions[j]),
                )
        },
    }
}

/// The parts of a search through the common places: the looks at the versions that nvm lists,
/// the last look at the latest of those that have the program, and the looks at the places.
pub struct PlaceParts {
    pub held: Seq<Option<bool>>,
    pub best: Option<(Seq<char>, bool)>,
    pub listed: Seq<Exchange>,
    pub again: Seq<Exchange>,
    pub places: Seq<Exchange>,
}

/// Whether a search through the common places went by its parts: the latest version that has the
/// program is looked at once more and found where it is still there; otherwise the common places
/// are looked at in turn.
pub open spec fn parts_told(
    home: Seq<u8>,
    name: Seq<char>,
    versions: Seq<Seq<u8>>,
    from: int,
    p: PlaceParts,
    x: Seq<Exchange>,
    a: ReplyView,
) -> bool {
    &&& x == p.listed + p.again + p.places
    &&& p.held.len() == versions.len()
    &&& versions_hold(home, name, versions, from, p.held, p.listed)
    &&& is_latest(versions, p.held, p.best)
    &&& p.best is None ==> p.again.len() == 0
    &&& p.best matches Some((text, bin)) ==> p.again.len() == 1 && p.again[0].0
        == EffectView::IsFile(version_path(home, name, encode_utf8(text), bin))
    &&& if p.again.len() > 0 && is_there(p.again[0]) {
        p.places.len() == 0 && a == ReplyView::Found(Some(p.again[0].0->IsFile_0))
    } else {
        places_told(home, name, 0, p.places, a)
    }
}

proof fn lemma_latest_push(
    versions: Seq<Seq<u8>>,
    held: Seq<Option<bool>>,
    best: Option<(Seq<char>, bool)>,
    bin: bool,
)
    requires
        held.len() < versions.len(),
        is_latest(versions, held, best),
    ensures
        is_latest(
            versions,
            held.push(Some(bin)),
            Some(later(best, (decoded(versions[held.len() as int]), bin))),
        ),
        is_latest(versions, held.push(None), best),
{
    let i = held.len() as int;
    let text = decoded(versions[i]);
    let more = held.push(Some(bin));
    let less = held.push(None);
    let new = later(best, (text, bin));
    law_version_not_before_itself(text);
    assert(more[i] == Some(bin));
    match best {
        None => {
            assert forall|j: int| 0 <= j < more.len() && #[trigger] more[j] is Some implies
                !version_before(text, decoded(versions[j])) by {
                if j < i {
                    assert(more[j] == held[j]);
                }
            }
        },
        Some((b, w)) => {
            let k = choose|k: int|
                0 <= k < held.len() && #[trigger] held[k] == Some(w) && b == decoded(versions[k]);
            assert(more[k] == Some(w));
            assert(less[k] == Some(w));
            assert forall|j: int| 0 <= j < more.len() && #[trigger] more[j] is Some implies
                !version_before(new.0, decoded(versions[j])) by {
                let other = decoded(versions[j]);
                if j < i {
                    assert(held[j] is Some);
                    if version_before(b, text) && version_before(text, other) {
                        law_version_order_is_transitive(b, text, other);
                    }
                }
            }
            assert forall|j: int| 0 <= j < less.len() && #[trigger] less[j] is Some implies
                !version_before(b, decoded(versions[j])) by {
                assert(held[j] is Some);
            }
        },
    }
}

proof fn lemma_versions_hold_more(
    home: Seq<u8>,
    name: Seq<char>,
    versions: Seq<Seq<u8>>,
    from: int,
    held: Seq<Option<bool>>,
    head: Seq<Exchange>,
    x: Seq<Exchange>,
)
    requires
        0 <= from < held.len() == versions.len(),
        versions_hold(home, name, versions, from + 1, held, x),
        forall|i: int| #![trigger head[i]] 0 <= i < head.len() ==> head[i].0 is IsFile,
        ({
            let first = EffectView::IsFile(version_path(home, name, versions[from], true));
            let second = EffectView::IsFile(version_path(home, name, versions[from], false));
            match held[from] {
                Some(true) => head =~= seq![(first, ReplyView::Flag(true))],
                Some(false) => head.len() == 2 && head[0].0 == first && head[0].1
                    != ReplyView::Flag(true) && head[1] == (second, ReplyView::Flag(true)),
                None => head.len() == 2 && head[0].0 == first && head[0].1 != ReplyView::Flag(true)
                    && head[1].0 == second && head[1].1 != ReplyView::Flag(true),
            }
        }),
    ensures
        versions_hold(home, name, versions, from, held, head + x),
{
    let all = head + x;
    assert forall|e: Exchange| #[trigger] x.contains(e) implies all.contains(e) by {
        let i = choose|i: int| 0 <= i < x.len() && x[i] == e;
        assert(all[head.len() + i] == e);
    }
    assert forall|e: Exchange| #[trigger] head.contains(e) implies all.contains(e) by {
        let i = choose|i: int| 0 <= i < head.len() && head[i] == e;
        assert(all[i] == e);
    }
    assert forall|i: int| #![trigger all[i]] 0 <= i < all.len() implies all[i].0 is IsFile by {
        if i < head.len() {
            assert(all[i] == head[i]);
        } else {
            assert(all[i] == x[i - head.len()]);
        }
    }
    assert forall|e: EffectView| #[trigger] denied(x, e) implies denied(all, e) by {
        let r = choose|r: ReplyView| r != ReplyView::Flag(true) && #[trigger] x.contains((e, r));
        assert(all.contains((e, r)));
    }
    assert(head.contains(head[0]));
    if head.len() == 2 {
        assert(head.contains(head[1]));
        assert(head.contains((head[0].0, head[0].1)));
        assert(head.contains((head[1].0, head[1].1)));
        assert(all.contains((head[0].0, head[0].1)));
        assert(all.contains((head[1].0, head[1].1)));
    }
}

#[verifier::rlimit(60)]
#[verifier::spinoff_prover]
proof fn lemma_versions_from(
    place: Place,
    name: Seq<char>,
    versions: Seq<Seq<u8>>,
    held: Seq<Option<bool>>,
    best: Option<(Seq<char>, bool)>,
    reply: ReplyView,
    moments: Seq<Moment>,
) -> (p: PlaceParts)
    requires
        versions.len() <= usize::MAX,
        held.len() <= versions.len(),
        is_latest(versions, held, best),
        alike(place, moments),
        ({
            let (s, asked) = try_version(
                home_path(place.mac_env),
                name,
                versions,
                held.len() as int,
                best,
            );
            done(TaskOf::Search(SearchTaskOf::WhichFromCommonPaths(name, s)), asked, reply, moments)
                is Some
        }),
    ensures
        ({
            let home = home_path(place.mac_env);
            let (s, asked) = try_version(home, name, versions, held.len() as int, best);
            let (x, a) = done(
                TaskOf::Search(SearchTaskOf::WhichFromCommonPaths(name, s)),
                asked,
                reply,
                moments,
            )->0;
            &&& parts_told(home, name, versions, held.len() as int, p, x, a)
            &&& p.held.take(held.len() as int) == held
        }),
    decreases versions.len() - held.len(),
{
    let home = home_path(place.mac_env);
    let i = held.len() as int;
    let (s, asked) = try_version(home, name, versions, i, best);
    let task: TaskView = TaskOf::Search(SearchTaskOf::WhichFromCommonPaths(name, s));
    let (x, a) = done(task, asked, reply, moments)->0;
    if i == versions.len() {
        assert(held.take(i) =~= held);
        match best {
            None => {
                lemma_places_from(place, name, 0, reply, moments);
                let p = PlaceParts {
                    held,
                    best,
                    listed: Seq::empty(),
                    again: Seq::empty(),
                    places: x,
                };
                assert(x =~= p.listed + p.again + p.places);
                p
            },
            Some((text, bin)) => {
                lemma_version_place(home, name, encode_utf8(text), bin);
                let (x1, r1, after, x2) = lemma_ask(place, task, asked, reply, moments);
                assert(asked.drop_first() =~= Seq::empty());
                lemma_step(place, task, r1, after);
                lemma_place_task(after[0].0, name, s, r1);
                let (next, pending) = task_step(after[0].0, task, r1);
                let rest = after.drop_first();
                let p = PlaceParts { held, best, listed: Seq::empty(), again: x1, places: x2 };
                assert(x =~= p.listed + p.again + p.places);
                if is_there(x1[0]) {
                    assert(pending =~= Seq::empty());
                    lemma_end(next, ReplyOf::Nothing, rest);
                } else {
                    lemma_places_from(place, name, 0, ReplyOf::Nothing, rest);
                }
                p
            },
        }
    } else {
        lemma_version_place(home, name, versions[i], true);
        lemma_version_place(home, name, versions[i], false);
        let (x1, r1, after, x2) = lemma_ask(place, task, asked, reply, moments);
        assert(asked.drop_first() =~= Seq::empty());
        lemma_step(place, task, r1, after);
        lemma_place_task(after[0].0, name, s, r1);
        let (next, pending) = task_step(after[0].0, task, r1);
        let rest = after.drop_first();
        lemma_latest_push(versions, held, best, true);
        lemma_latest_push(versions, held, best, false);
        if is_there(x1[0]) {
            let more = held.push(Some(true));
            let q = lemma_versions_from(
                place,
                name,
                versions,
                more,
                Some(later(best, (decoded(versions[i]), true))),
                ReplyOf::Nothing,
                rest,
            );
            lemma_one_more(home, name, versions, held, Some(true), q, x1, x2, a)
        } else {
            assert(pending =~= seq![EffectView::IsFile(version_path(home, name, versions[i], false))]);
            let (y1, r2, then, y2) = lemma_ask(place, next, pending, ReplyOf::Nothing, rest);
            assert(pending.drop_first() =~= Seq::empty());
            lemma_step(place, next, r2, then);
            lemma_place_task(
                then[0].0,
                name,
                PlaceSearchOf::Probing { versions, index: i as usize, bin: false, best },
                r2,
            );
            let last = then.drop_first();
            assert(x =~= (x1 + y1) + y2);
            if is_there(y1[0]) {
                let more = held.push(Some(false));
                let q = lemma_versions_from(
                    place,
                    name,
                    versions,
                    more,
                    Some(later(best, (decoded(versions[i]), false))),
                    ReplyOf::Nothing,
                    last,
                );
                lemma_one_more(home, name, versions, held, Some(false), q, x1 + y1, y2, a)
            } else {
                let more = held.push(None);
                let q = lemma_versions_from(
                    place,
                    name,
                    versions,
                    more,
                    best,
                    ReplyOf::Nothing,
                    last,
                );
                lemma_one_more(home, name, versions, held, None, q, x1 + y1, y2, a)
            }
        }
    }
}

proof fn lemma_one_more(
    home: Seq<u8>,
    name: Seq<char>,
    versions: Seq<Seq<u8>>,
    held: Seq<Option<bool>>,
    here: Option<bool>,
    q: PlaceParts,
    head: Seq<Exchange>,
    x: Seq<Exchange>,
    a: ReplyView,
) -> (p: PlaceParts)
    requires
        held.len() < versions.len(),
        parts_told(home, name, versions, held.len() as int + 1, q, x, a),
        q.held.take(held.len() as int + 1) == held.push(here),
        forall|i: int| #![trigger head[i]] 0 <= i < head.len() ==> head[i].0 is IsFile,
        ({
            let version = versions[held.len() as int];
            let first = EffectView::IsFile(version_path(home, name, version, true));
            let second = EffectView::IsFile(version_path(home, name, version, false));
            match here {
                Some(true) => head =~= seq![(first, ReplyView::Flag(true))],
                Some(false) => head.len() == 2 && head[0].0 == first && head[0].1
                    != ReplyView::Flag(true) && head[1] == (second, ReplyView::Flag(true)),
                None => head.len() == 2 && head[0].0 == first && head[0].1 != ReplyView::Flag(true)
                    && head[1].0 == second && head[1].1 != ReplyView::Flag(true),
            }
        }),
    ensures
        parts_told(home, name, versions, held.len() as int, p, head + x, a),
        p.held.take(held.len() as int) == held,
{
    let i = held.len() as int;
    assert(q.held[i] == q.held.take(i + 1)[i]);
    assert(q.held.take(i) =~= held) by {
        assert forall|j: int| 0 <= j < i implies q.held[j] == held[j] by {
            assert(q.held.take(i + 1)[j] == held.push(here)[j]);
        }
    }
    lemma_versions_hold_more(home, name, versions, i, q.held, head, q.listed);
    let p = PlaceParts { listed: head + q.listed, ..q };
    assert(head + x =~= p.listed + p.again + p.places);
    p
}

/// A whole search through the common places lists the versions of nvm first. What follows are
/// its parts: the latest of the versions that have the program, if any, or else the common places
/// in their order.
pub proof fn law_common_places_are_searched(
    place: Place,
    name: Seq<char>,
    reply: ReplyView,
    moments: Seq<Moment>,
) -> (p: PlaceParts)
    requires
        alike(place, moments),
        done(
            TaskOf::Search(SearchTaskOf::WhichFromCommonPaths(name, PlaceSearchOf::Start)),
            Seq::empty(),
            reply,
            moments,
        ) is Some,
    ensures
        ({
            let home = home_path(place.mac_env);
            let (x, a) = done(
                TaskOf::Search(SearchTaskOf::WhichFromCommonPaths(name, PlaceSearchOf::Start)),
                Seq::empty(),
                reply,
                moments,
            )->0;
            &&& x.len() > 0
            &&& x[0].0 == EffectView::List(under(home, seq![".nvm/versions/node"@]))
            &&& parts_told(
                home,
                name,
                listed(x[0].1),
                0,
                p,
                x.drop_first(),
                a,
            )
        }),
{
    let home = home_path(place.mac_env);
    let start: TaskView = TaskOf::Search(
        SearchTaskOf::WhichFromCommonPaths(name, PlaceSearchOf::Start),
    );
    lemma_step(place, start, reply, moments);
    lemma_place_task(moments[0].0, name, PlaceSearchOf::Start, reply);
    let (task, asked) = task_step(moments[0].0, start, reply);
    let rest = moments.drop_first();
    lemma_version_place(home, name, Seq::empty(), true);
    let (x1, r1, after, x2) = lemma_ask(place, task, asked, ReplyOf::Nothing, rest);
    assert(asked.drop_first() =~= Seq::empty());
    lemma_step(place, task, r1, after);
    lemma_place_task(after[0].0, name, PlaceSearchOf::Listing, r1);
    let last = after.drop_first();
    assert((x1 + x2).drop_first() =~= x2);
    let none: Seq<Option<bool>> = Seq::empty();
    match r1 {
        ReplyOf::Names(Some(versions)) => {
            lemma_versions_from(place, name, versions, none, None, ReplyOf::Nothing, last)
        },
        _ => {
            lemma_places_from(place, name, 0, ReplyOf::Nothing, last);
            let p = PlaceParts {
                held: none,
                best: None,
                listed: Seq::empty(),
                again: Seq::empty(),
                places: x2,
            };
            assert(x2 =~= p.listed + p.again + p.places);
            p
        },
    }
}

/// Whether a whole search through the common places listed the versions of nvm and went by its
/// parts from there on.
pub open spec fn places_searched(
    home: Seq<u8>,
    name: Seq<char>,
    x: Seq<Exchange>,
    a: ReplyView,
) -> bool {
    &&& x.len() > 0
    &&& x[0].0 == EffectView::List(under(home, seq![".nvm/versions/node"@]))
    &&& exists|p: PlaceParts| #[trigger]
        parts_told(
            home,
            name,
            listed(x[0].1),
            0,
            p,
            x.drop_first(),
            a,
        )
}

// ---- shells and common places together ----

/// Whether a search for a program went first through the login shells and then, where they knew
/// no file, through the common places.
#[verifier::opaque]
pub open spec fn which_told(home: Seq<u8>, name: Seq<char>, x: Seq<Exchange>, a: ReplyView) -> bool {
    exists|n: int, told: ReplyView|
        0 <= n <= x.len() && #[trigger] shells_told(name, 0, x.take(n), told)
            && if told->Found_0 is Some {
            n == x.len() && a == told
        } else {
            places_searched(home, name, x.skip(n), a)
        }
}

/// The effects that searches ask for end as whole searches do.
proof fn lemma_single_searches(
    place: Place,
    name: Seq<char>,
    effect: EffectView,
    x: Seq<Exchange>,
    a: ReplyView,
)
    requires
        carried_out(place, effect, x, a),
    ensures
        effect == EffectView::WhichFromLoginShell(name) ==> shells_told(name, 0, x, a),
        effect == EffectView::WhichFromCommonPaths(name) ==> places_searched(
            home_path(place.mac_env),
            name,
            x,
            a,
        ),
{
    if effect == EffectView::WhichFromLoginShell(name) || effect
        == EffectView::WhichFromCommonPaths(name) {
        let task = begun(place.platform, effect)->0;
        let moments = choose|moments: Seq<Moment>|
            alike(place, moments) && #[trigger] done(task, Seq::empty(), ReplyOf::Nothing, moments)
                == Some((x, a));
        if effect == EffectView::WhichFromLoginShell(name) {
            law_login_shells_are_asked_in_turn(place, name, ReplyOf::Nothing, moments);
        } else {
            let p = law_common_places_are_searched(place, name, ReplyOf::Nothing, moments);
        }
    }
}

/// A whole search for a program goes first through the login shells and then, where they know no
/// file, through the common places; what is found there is what is found at all.
pub proof fn law_whole_search(
    place: Place,
    name: Seq<char>,
    reply: ReplyView,
    moments: Seq<Moment>,
)
    requires
        alike(place, moments),
        done(
            TaskOf::Search(SearchTaskOf::Which(name, WhichOf::Start)),
            Seq::empty(),
            reply,
            moments,
        ) is Some,
    ensures
        ({
            let (x, a) = done(
                TaskOf::Search(SearchTaskOf::Which(name, WhichOf::Start)),
                Seq::empty(),
                reply,
                moments,
            )->0;
            which_told(home_path(place.mac_env), name, x, a)
        }),
{
    reveal(which_told);
    let home = home_path(place.mac_env);
    let start: TaskView = TaskOf::Search(SearchTaskOf::Which(name, WhichOf::Start));
    let (x, a) = done(start, Seq::empty(), reply, moments)->0;
    lemma_step(place, start, reply, moments);
    lemma_which_task(moments[0].0, name, WhichOf::Start, reply);
    let (task, asked) = task_step(moments[0].0, start, reply);
    let rest = moments.drop_first();
    let (x1, r1, after, x2) = lemma_ask(place, task, asked, ReplyOf::Nothing, rest);
    assert(asked.drop_first() =~= Seq::empty());
    lemma_single_searches(place, name, asked[0], x1, r1);
    lemma_step(place, task, r1, after);
    lemma_which_task(after[0].0, name, WhichOf::Shells, r1);
    let (next, more) = task_step(after[0].0, task, r1);
    let last = after.drop_first();
    let n = x1.len() as int;
    assert(x.take(n) =~= x1);
    assert(x.skip(n) =~= x2);
    assert(shells_told(name, 0, x.take(n), r1));
    if r1->Found_0 is Some {
        assert(more =~= Seq::empty());
        lemma_end(next, ReplyOf::Nothing, last);
    } else {
        let (y1, r2, then, y2) = lemma_ask(place, next, more, ReplyOf::Nothing, last);
        assert(more.drop_first() =~= Seq::empty());
        lemma_single_searches(place, name, more[0], y1, r2);
        lemma_step(place, next, r2, then);
        lemma_which_task(then[0].0, name, WhichOf::Places, r2);
        let (end, none) = task_step(then[0].0, next, r2);
        assert(none =~= Seq::empty());
        lemma_end(end, ReplyOf::Nothing, then.drop_first());
        assert(x2 =~= y1);
        lemma_places_end_in_found(home, name, y1, r2);
    }
}

proof fn lemma_places_end_in_found(
    home: Seq<u8>,
    name: Seq<char>,
    x: Seq<Exchange>,
    a: ReplyView,
)
    requires
        places_searched(home, name, x, a),
    ensures
        a is Found,
        a->Found_0 is Some ==> is_there(x.last()) && x.last().0->IsFile_0 == a->Found_0->0,
        a->Found_0 is None ==> forall|i: int|
            #![trigger common_places(home, name)[i]]
            0 <= i < 6 ==> denied(x, EffectView::IsFile(common_places(home, name)[i])),
{
    let versions = listed(x[0].1);
    let y = x.drop_first();
    let p = choose|p: PlaceParts| #[trigger] parts_told(home, name, versions, 0, p, y, a);
    assert(parts_told(home, name, versions, 0, p, y, a));
    let m = (p.listed.len() + p.again.len()) as int;
    if a->Found_0 is Some {
        if p.again.len() > 0 && is_there(p.again[0]) {
            assert(y.last() == p.again[0]);
        } else {
            assert(y.last() == p.places.last());
            assert(is_there(p.places[p.places.len() - 1]));
        }
        assert(x.last() == y.last());
    } else {
        assert forall|i: int| #![trigger common_places(home, name)[i]] 0 <= i < 6 implies denied(
            x,
            EffectView::IsFile(common_places(home, name)[i]),
        ) by {
            let e = p.places[i];
            assert(y.len() == m + 6);
            assert(y[m + i] == e);
            assert(x[m + i + 1] == e);
            assert(!is_there(e));
            assert(x.contains((e.0, e.1)));
        }
    }
}

/// What a search for a program comes to, by what was asked and answered: what it finds is the
/// path that was asked about last, and that is a regular file; where it finds nothing, every one
/// of the common places was looked at and held nothing.
pub proof fn law_search_finds_what_is_there(
    home: Seq<u8>,
    name: Seq<char>,
    x: Seq<Exchange>,
    a: ReplyView,
)
    requires
        which_told(home, name, x, a),
    ensures
        a is Found,
        a->Found_0 is Some ==> x.len() > 0 && x.last() == (
            EffectView::IsFile(a->Found_0->0),
            ReplyView::Flag(true),
        ),
        a->Found_0 is None ==> forall|i: int|
            #![trigger common_places(home, name)[i]]
            0 <= i < 6 ==> denied(x, EffectView::IsFile(common_places(home, name)[i])),
{
    reveal(which_told);
    let (n, told) = choose|n: int, told: ReplyView|
        0 <= n <= x.len() && #[trigger] shells_told(name, 0, x.take(n), told)
            && if told->Found_0 is Some {
            n == x.len() && a == told
        } else {
            places_searched(home, name, x.skip(n), a)
        };
    if told->Found_0 is Some {
        assert(x.take(n) =~= x);
        lemma_shells_end(name, x, a);
    } else {
        let y = x.skip(n);
        lemma_places_end_in_found(home, name, y, a);
        assert(y.last() == x.last());
        assert forall|i: int| #![trigger common_places(home, name)[i]] 0 <= i < 6 && a->Found_0
            is None implies denied(x, EffectView::IsFile(common_places(home, name)[i])) by {
            lemma_denied_later(x, n, EffectView::IsFile(common_places(home, name)[i]));
        }
    }
}

proof fn lemma_shells_end(name: Seq<char>, x: Seq<Exchange>, a: ReplyView)
    requires
        shells_told(name, 0, x, a),
    ensures
        a is Found,
        a->Found_0 is Some ==> x.len() > 0 && is_there(x.last()) && x.last().0->IsFile_0
            == a->Found_0->0,
{
}

proof fn lemma_denied_later(x: Seq<Exchange>, n: int, e: EffectView)
    requires
        0 <= n <= x.len(),
        denied(x.skip(n), e),
    ensures
        denied(x, e),
{
    let y = x.skip(n);
    let r = choose|r: ReplyView| r != ReplyView::Flag(true) && #[trigger] y.contains((e, r));
    let i = choose|i: int| 0 <= i < y.len() && y[i] == (e, r);
    assert(x[n + i] == (e, r));
    assert(x.contains((e, r)));
}

/// The same of a whole run: a search in which no shell names a file and one of the common places
/// holds the program ends in that place, or in one that comes before it.
pub proof fn law_whole_search_finds_what_is_there(
    place: Place,
    name: Seq<char>,
    reply: ReplyView,
    moments: Seq<Moment>,
)
    requires
        alike(place, moments),
        done(
            TaskOf::Search(SearchTaskOf::Which(name, WhichOf::Start)),
            Seq::empty(),
            reply,
            moments,
        ) is Some,
    ensures
        ({
            let places = common_places(home_path(place.mac_env), name);
            let (x, a) = done(
                TaskOf::Search(SearchTaskOf::Which(name, WhichOf::Start)),
                Seq::empty(),
                reply,
                moments,
            )->0;
            &&& a is Found
            &&& a->Found_0 is Some ==> x.len() > 0 && x.last() == (
                EffectView::IsFile(a->Found_0->0),
                ReplyView::Flag(true),
            )
            &&& a->Found_0 is None ==> forall|i: int|
                #![trigger places[i]]
                0 <= i < 6 ==> denied(x, EffectView::IsFile(places[i]))
        }),
{
    law_whole_search(place, name, reply, moments);
    let (x, a) = done(
        TaskOf::Search(SearchTaskOf::Which(name, WhichOf::Start)),
        Seq::empty(),
        reply,
        moments,
    )->0;
    law_search_finds_what_is_there(home_path(place.mac_env), name, x, a);
}

// ---- node and the command line ----

/// Whether a search for the node of `dsh` looked in the directory of dsh first and took the one
/// there, or else went on to search everywhere.
pub open spec fn node_told(home: Seq<u8>, dsh: Seq<u8>, x: Seq<Exchange>, a: ReplyView) -> bool {
    match path_parent(dsh) {
        Some(dir) => {
            let beside = under(dir, seq!["node"@]);
            &&& x.len() > 0
            &&& x[0].0 == EffectView::IsFile(beside)
            &&& if is_there(x[0]) {
                x.len() == 1 && a == ReplyView::Found(Some(beside))
            } else {
                which_told(home, "node"@, x.drop_first(), a)
            }
        },
        None => which_told(home, "node"@, x, a),
    }
}

/// A whole search for the node of dsh takes the one in the directory of dsh, where there is one,
/// and otherwise whatever a search everywhere finds.
pub proof fn law_whole_node_search(
    place: Place,
    dsh: Seq<u8>,
    reply: ReplyView,
    moments: Seq<Moment>,
)
    requires
        alike(place, moments),
        done(
            TaskOf::Search(SearchTaskOf::NodeForDsh(dsh, NodeSearchOf::Start)),
            Seq::empty(),
            reply,
            moments,
        ) is Some,
    ensures
        ({
            let (x, a) = done(
                TaskOf::Search(SearchTaskOf::NodeForDsh(dsh, NodeSearchOf::Start)),
                Seq::empty(),
                reply,
                moments,
            )->0;
            node_told(home_path(place.mac_env), dsh, x, a)
        }),
{
    let home = home_path(place.mac_env);
    let start: TaskView = TaskOf::Search(SearchTaskOf::NodeForDsh(dsh, NodeSearchOf::Start));
    let (x, a) = done(start, Seq::empty(), reply, moments)->0;
    lemma_step(place, start, reply, moments);
    lemma_node_task(moments[0].0, dsh, NodeSearchOf::Start, reply);
    reveal_with_fuel(under, 2);
    let (task, asked) = task_step(moments[0].0, start, reply);
    let rest = moments.drop_first();
    match path_parent(dsh) {
        Some(dir) => {
            assert(seq!["node"@].drop_last() =~= Seq::empty());
            let (x1, r1, after, x2) = lemma_ask(place, task, asked, ReplyOf::Nothing, rest);
            assert(asked.drop_first() =~= Seq::empty());
            lemma_step(place, task, r1, after);
            lemma_node_task(after[0].0, dsh, NodeSearchOf::Beside(under(dir, seq!["node"@])), r1);
            let (next, more) = task_step(after[0].0, task, r1);
            let last = after.drop_first();
            if is_there(x1[0]) {
                assert(more =~= Seq::empty());
                lemma_end(next, ReplyOf::Nothing, last);
            } else {
                lemma_node_anywhere(place, dsh, more, ReplyOf::Nothing, last);
                assert(x.drop_first() =~= x2);
            }
        },
        None => {
            lemma_node_anywhere(place, dsh, asked, ReplyOf::Nothing, rest);
        },
    }
}

proof fn lemma_node_anywhere(
    place: Place,
    dsh: Seq<u8>,
    asked: Seq<EffectView>,
    reply: ReplyView,
    moments: Seq<Moment>,
)
    requires
        alike(place, moments),
        asked =~= seq![EffectView::Which("node"@)],
        done(
            TaskOf::Search(SearchTaskOf::NodeForDsh(dsh, NodeSearchOf::Anywhere)),
            asked,
            reply,
            moments,
        ) is Some,
    ensures
        ({
            let (x, a) = done(
                TaskOf::Search(SearchTaskOf::NodeForDsh(dsh, NodeSearchOf::Anywhere)),
                asked,
                reply,
                moments,
            )->0;
            which_told(home_path(place.mac_env), "node"@, x, a)
        }),
{
    let task: TaskView = TaskOf::Search(SearchTaskOf::NodeForDsh(dsh, NodeSearchOf::Anywhere));
    let (x, a) = done(task, asked, reply, moments)->0;
    let (x1, r1, after, x2) = lemma_ask(place, task, asked, reply, moments);
    assert(asked.drop_first() =~= Seq::empty());
    lemma_which(place, "node"@, x1, r1);
    lemma_step(place, task, r1, after);
    lemma_node_task(after[0].0, dsh, NodeSearchOf::Anywhere, r1);
    let (end, none) = task_step(after[0].0, task, r1);
    assert(none =~= Seq::empty());
    lemma_end(end, ReplyOf::Nothing, after.drop_first());
    assert(x =~= x1);
}

proof fn lemma_which(place: Place, name: Seq<char>, x: Seq<Exchange>, a: ReplyView)
    requires
        carried_out(place, EffectOf::Which(name), x, a),
    ensures
        which_told(home_path(place.mac_env), name, x, a),
        a is Found,
{
    let task = begun(place.platform, EffectOf::Which(name))->0;
    let moments = choose|moments: Seq<Moment>|
        alike(place, moments) && #[trigger] done(task, Seq::empty(), ReplyOf::Nothing, moments)
            == Some((x, a));
    law_whole_search(place, name, ReplyOf::Nothing, moments);
    law_search_finds_what_is_there(home_path(place.mac_env), name, x, a);
}

proof fn lemma_node(place: Place, dsh: Seq<u8>, x: Seq<Exchange>, a: ReplyView)
    requires
        carried_out(place, EffectOf::NodeForDsh(dsh), x, a),
    ensures
        node_told(home_path(place.mac_env), dsh, x, a),
        a is Found,
{
    let home = home_path(place.mac_env);
    let task = begun(place.platform, EffectOf::NodeForDsh(dsh))->0;
    let moments = choose|moments: Seq<Moment>|
        alike(place, moments) && #[trigger] done(task, Seq::empty(), ReplyOf::Nothing, moments)
            == Some((x, a));
    law_whole_node_search(place, dsh, ReplyOf::Nothing, moments);
    if path_parent(dsh) is Some {
        if !is_there(x[0]) {
            law_search_finds_what_is_there(home, "node"@, x.drop_first(), a);
        }
    } else {
        law_search_finds_what_is_there(home, "node"@, x, a);
    }
}

/// Whether a making of the command line searched for dsh and then for its node, and put the two
/// together, as texts, with the words that make dsh serve the web without opening a browser.
#[verifier::opaque]
pub open spec fn program_told(home: Seq<u8>, x: Seq<Exchange>, a: ReplyView) -> bool {
    exists|n: int, m: int, dsh: ReplyView, node: ReplyView|
        0 <= n <= m <= x.len() && #[trigger] which_told(home, "dsh"@, x.take(n), dsh)
            && #[trigger] node_part(home, dsh, x.subrange(n, m), node) && match (dsh, node) {
            (ReplyOf::Found(Some(d)), ReplyOf::Found(Some(e))) => x.len() == m + 1 && x[m].0 is Log
                && a == ReplyView::Program(
                Ok(seq![decoded(e), decoded(d), "--profile"@, "web"@, "--no-open"@]),
            ),
            (ReplyOf::Found(Some(_)), _) => x.len() == m && a == ReplyView::Program(
                Err("node 不在 PATH，无法生成服务定义（已尝试登录 shell 与常见安装路径）"@),
            ),
            _ => x.len() == m && a == ReplyView::Program(
                Err("dsh 不在 PATH，无法生成服务定义（已尝试登录 shell 与常见安装路径）"@),
            ),
        }
}

/// The search for node, which is made exactly where dsh was found.
pub open spec fn node_part(
    home: Seq<u8>,
    dsh: ReplyView,
    x: Seq<Exchange>,
    node: ReplyView,
) -> bool {
    match dsh {
        ReplyOf::Found(Some(d)) => node_told(home, d, x, node),
        _ => x.len() == 0,
    }
}

/// A whole making of the command line ends in the paths of node and dsh that were found, in this
/// order, and the words behind them; it fails exactly where one of the two was not found.
pub proof fn law_whole_command_line(place: Place, reply: ReplyView, moments: Seq<Moment>)
    requires
        alike(place, moments),
        done(
            TaskOf::Search(SearchTaskOf::DshProgram(ProgramSearchOf::Start)),
            Seq::empty(),
            reply,
            moments,
        ) is Some,
    ensures
        ({
            let (x, a) = done(
                TaskOf::Search(SearchTaskOf::DshProgram(ProgramSearchOf::Start)),
                Seq::empty(),
                reply,
                moments,
            )->0;
            program_told(home_path(place.mac_env), x, a)
        }),
{
    let home = home_path(place.mac_env);
    reveal(program_told);
    let start: TaskView = TaskOf::Search(SearchTaskOf::DshProgram(ProgramSearchOf::Start));
    let (x, a) = done(start, Seq::empty(), reply, moments)->0;
    lemma_step(place, start, reply, moments);
    lemma_program_task(moments[0].0, ProgramSearchOf::Start, reply);
    let (task, asked) = task_step(moments[0].0, start, reply);
    let rest = moments.drop_first();
    let (x1, r1, after, x2) = lemma_ask(place, task, asked, ReplyOf::Nothing, rest);
    assert(asked.drop_first() =~= Seq::empty());
    lemma_which(place, "dsh"@, x1, r1);
    lemma_step(place, task, r1, after);
    lemma_program_task(after[0].0, ProgramSearchOf::Dsh, r1);
    let (next, more) = task_step(after[0].0, task, r1);
    let last = after.drop_first();
    let n = x1.len() as int;
    assert(x.take(n) =~= x1);
    assert(which_told(home, "dsh"@, x.take(n), r1));
    if r1->Found_0 is None {
        assert(more =~= Seq::empty());
        lemma_end(next, ReplyOf::Nothing, last);
        assert(x.subrange(n, n).len() == 0);
        assert(node_part(home, r1, x.subrange(n, n), ReplyOf::Nothing));
    } else {
        let dsh = r1->Found_0->0;
        let (y1, r2, then, y2) = lemma_ask(place, next, more, ReplyOf::Nothing, last);
        assert(more.drop_first() =~= Seq::empty());
        lemma_node(place, dsh, y1, r2);
        lemma_step(place, next, r2, then);
        lemma_program_task(then[0].0, ProgramSearchOf::Node(dsh), r2);
        let (end, line) = task_step(then[0].0, next, r2);
        let m = n + y1.len();
        assert(x.subrange(n, m) =~= y1);
        assert(node_part(home, r1, x.subrange(n, m), r2));
        let tail = then.drop_first();
        if r2->Found_0 is None {
            assert(line =~= Seq::empty());
            lemma_end(end, ReplyOf::Nothing, tail);
            assert(x.len() == m);
        } else {
            let (z1, r3, finally, z2) = lemma_ask(place, end, line, ReplyOf::Nothing, tail);
            assert(line.drop_first() =~= Seq::empty());
            lemma_end(end, r3, finally);
            assert(x =~= x1 + y1 + z1);
            assert(x[m] == z1[0]);
        }
    }
}

// ---- the search path and the environment ----

/// Whether a search for the search path asked the login shells in turn, from the shell of number
/// `k` on, until one of them told a path that is not empty. Where none is left or one cannot be
/// run, the launcher's own path is the result, unless it is empty.
pub open spec fn path_told(
    own: Option<Seq<char>>,
    k: int,
    x: Seq<Exchange>,
    a: ReplyView,
) -> bool {
    let n = k + x.len();
    &&& a is SearchPath
    &&& n <= 3
    &&& forall|i: int|
        #![trigger x[i]]
        0 <= i < x.len() ==> x[i].0 == (EffectView::Run {
            program: shells()[k + i],
            args: seq!["-lc"@, "printf '%s' \"$PATH\""@],
        })
    &&& forall|i: int|
        #![trigger x[i]]
        0 <= i < x.len() - 1 ==> !not_run(x[i].1) && (wrote(x[i].1) is None || wrote(
            x[i].1,
        )->0.len() == 0)
    &&& if x.len() > 0 && wrote(x.last().1) is Some && wrote(x.last().1)->0.len() > 0 {
        a == ReplyView::SearchPath(wrote(x.last().1))
    } else {
        &&& n == 3 || (x.len() > 0 && not_run(x.last().1))
        &&& own is Some && own->0.len() > 0 ==> a == ReplyView::SearchPath(own)
        &&& own is None || own->0.len() == 0 ==> a == ReplyView::SearchPath(None)
    }
}

proof fn lemma_paths_from(place: Place, k: int, reply: ReplyView, moments: Seq<Moment>)
    requires
        0 <= k <= 3,
        alike(place, moments),
        ({
            let (s, asked) = ask_path(place.own, k);
            done(TaskOf::Search(SearchTaskOf::LoginShellPath(s)), asked, reply, moments) is Some
        }),
    ensures
        ({
            let (s, asked) = ask_path(place.own, k);
            let (x, a) = done(
                TaskOf::Search(SearchTaskOf::LoginShellPath(s)),
                asked,
                reply,
                moments,
            )->0;
            path_told(place.own, k, x, a)
        }),
    decreases 3 - k,
{
    let own = place.own;
    let (s, asked) = ask_path(own, k);
    let task: TaskView = TaskOf::Search(SearchTaskOf::LoginShellPath(s));
    let (x, a) = done(task, asked, reply, moments)->0;
    if k == 3 {
        assert(asked =~= Seq::empty());
        lemma_end(task, reply, moments);
    } else {
        let (x1, r1, later, x2) = lemma_ask(place, task, asked, reply, moments);
        assert(asked.drop_first() =~= Seq::empty());
        lemma_step(place, task, r1, later);
        lemma_path_task(later[0].0, s, r1);
        let (next, pending) = task_step(later[0].0, task, r1);
        let rest = later.drop_first();
        assert(x1 =~= seq![x1[0]]);
        if not_run(r1) || (wrote(r1) is Some && wrote(r1)->0.len() > 0) {
            assert(pending =~= Seq::empty());
            lemma_end(next, ReplyOf::Nothing, rest);
            assert(x =~= x1);
        } else {
            lemma_paths_from(place, k + 1, ReplyOf::Nothing, rest);
            assert forall|j: int| #![trigger x[j]] 1 <= j < x.len() implies x[j] == x2[j - 1] by {}
            if x2.len() > 0 {
                assert(x.last() == x2.last());
            }
        }
    }
}

/// A whole search for the search path ends in the first one that a login shell tells, or in the
/// launcher's own.
pub proof fn law_whole_path_search(place: Place, reply: ReplyView, moments: Seq<Moment>)
    requires
        alike(place, moments),
        done(
            TaskOf::Search(SearchTaskOf::LoginShellPath(PathSearchOf::Start)),
            Seq::empty(),
            reply,
            moments,
        ) is Some,
    ensures
        ({
            let (x, a) = done(
                TaskOf::Search(SearchTaskOf::LoginShellPath(PathSearchOf::Start)),
                Seq::empty(),
                reply,
                moments,
            )->0;
            path_told(place.own, 0, x, a)
        }),
{
    let task: TaskView = TaskOf::Search(SearchTaskOf::LoginShellPath(PathSearchOf::Start));
    lemma_step(place, task, reply, moments);
    lemma_path_task(moments[0].0, PathSearchOf::Start, reply);
    lemma_paths_from(place, 0, ReplyOf::Nothing, moments.drop_first());
}

/// The search path that was found, or else the launcher's own, or none at all.
pub open spec fn path_or_own(path: Option<Seq<char>>, own: Option<Seq<char>>) -> Seq<char> {
    match path {
        Some(p) => p,
        None => match own {
            Some(p) => p,
            None => Seq::empty(),
        },
    }
}

/// Whether a making of the environment searched for the search path and gave the service that
/// path, or the launcher's own where there is none, and a terminal that can do nothing.
#[verifier::opaque]
pub open spec fn env_told(own: Option<Seq<char>>, x: Seq<Exchange>, a: ReplyView) -> bool {
    &&& x.len() > 0
    &&& x.last().0 is Log
    &&& exists|path: Option<Seq<char>>|
        #[trigger] path_told(own, 0, x.drop_last(), ReplyView::SearchPath(path)) && a
            == ReplyView::Env(seq![("PATH"@, path_or_own(path, own)), ("TERM"@, "dumb"@)])
}

/// A whole making of the environment gives the service the search path of the user's login shell
/// and a terminal that can do nothing.
pub proof fn law_whole_environment(place: Place, reply: ReplyView, moments: Seq<Moment>)
    requires
        alike(place, moments),
        done(
            TaskOf::Search(SearchTaskOf::ServiceEnv(EnvSearchOf::Start)),
            Seq::empty(),
            reply,
            moments,
        ) is Some,
    ensures
        ({
            let (x, a) = done(
                TaskOf::Search(SearchTaskOf::ServiceEnv(EnvSearchOf::Start)),
                Seq::empty(),
                reply,
                moments,
            )->0;
            env_told(place.own, x, a)
        }),
{
    let own = place.own;
    reveal(env_told);
    let start: TaskView = TaskOf::Search(SearchTaskOf::ServiceEnv(EnvSearchOf::Start));
    let (x, a) = done(start, Seq::empty(), reply, moments)->0;
    lemma_step(place, start, reply, moments);
    lemma_env_task(moments[0].0, EnvSearchOf::Start, reply);
    let (task, asked) = task_step(moments[0].0, start, reply);
    let rest = moments.drop_first();
    let (x1, r1, after, x2) = lemma_ask(place, task, asked, ReplyOf::Nothing, rest);
    assert(asked.drop_first() =~= Seq::empty());
    let inner = begun(place.platform, asked[0])->0;
    let path_moments = choose|moments: Seq<Moment>|
        alike(place, moments) && #[trigger] done(inner, Seq::empty(), ReplyOf::Nothing, moments)
            == Some((x1, r1));
    law_whole_path_search(place, ReplyOf::Nothing, path_moments);
    lemma_step(place, task, r1, after);
    lemma_env_task(after[0].0, EnvSearchOf::Waiting, r1);
    let (end, line) = task_step(after[0].0, task, r1);
    let tail = after.drop_first();
    let (z1, r3, finally, z2) = lemma_ask(place, end, line, ReplyOf::Nothing, tail);
    assert(line.drop_first() =~= Seq::empty());
    lemma_end(end, r3, finally);
    assert(x =~= x1 + z1);
    assert(x.drop_last() =~= x1);
    let path = r1->SearchPath_0;
    assert(r1 == ReplyView::SearchPath(path));
    assert(path_told(own, 0, x.drop_last(), ReplyView::SearchPath(path)));
    assert(x.last() == z1[0]);
    assert(text_view(after[0].0.own) == own);
    let p = path_or_own(path, own);
    assert(task_answer(end) == Some(ReplyView::Env(service_variables(p))));
    assert(a == ReplyView::Env(seq![("PATH"@, p), ("TERM"@, "dumb"@)]));
}

/// The making of the command line, by the effect that names it.
pub proof fn lemma_program_effect(place: Place, x: Seq<Exchange>, a: ReplyView)
    requires
        carried_out(place, EffectOf::DshProgram, x, a),
    ensures
        program_told(home_path(place.mac_env), x, a),
        a is Program,
{
    let moments = lemma_unfold(place, EffectOf::DshProgram, x, a);
    law_whole_command_line(place, ReplyOf::Nothing, moments);
    reveal(program_told);
}

/// The making of the environment, by the effect that names it.
pub proof fn lemma_env_effect(place: Place, x: Seq<Exchange>, a: ReplyView)
    requires
        carried_out(place, EffectOf::ServiceEnv, x, a),
    ensures
        env_told(place.own, x, a),
        a is Env,
{
    let moments = lemma_unfold(place, EffectOf::ServiceEnv, x, a);
    law_whole_environment(place, ReplyOf::Nothing, moments);
    reveal(env_told);
}

} // verus!

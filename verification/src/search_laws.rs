//! What the searches promise.

use vstd::prelude::*;
use vstd::utf8::*;

use crate::effect::yes;
use crate::effect::EffectView;
use crate::effect::ReplyView;
use crate::native::decoded;
use crate::path::absolute;
use crate::path::cut;
use crate::path::dot_first;
use crate::path::idle;
use crate::path::law_parent_of_join;
use crate::path::lead;
use crate::path::lemma_piece;
use crate::path::lemma_piece_of_name;
use crate::path::path_join;
use crate::path::path_parent;
use crate::path::piece;
use crate::path::settle;
use crate::path::DOT;
use crate::path::SLASH;
use crate::programs::later;
use crate::programs::node_step;
use crate::programs::place_search_step;
use crate::programs::program_step;
use crate::programs::try_version;
use crate::programs::version_place;
use crate::programs::which_step;
use crate::programs::NodeSearchOf;
use crate::programs::PLACES;
use crate::programs::PlaceSearchOf;
use crate::programs::PlaceSearchView;
use crate::programs::ProgramSearchOf;
use crate::programs::VersionView;
use crate::programs::WhichOf;
use crate::programs::WhichView;
use crate::search::env_step;
use crate::search::path_search_step;
use crate::search::service_variables;
use crate::search::shell_search_step;
use crate::search::EnvSearchOf;
use crate::search::EnvSearchView;
use crate::search::PathSearchOf;
use crate::search::PathSearchView;
use crate::search::ShellSearchOf;
use crate::search::ShellSearchView;
use crate::version::law_version_not_before_itself;
use crate::version::law_version_order_is_transitive;
use crate::version::version_before;

verus! {

// ---- every search comes to an end ----

/// An upper bound for the steps that a search through the login shells still takes.
pub open spec fn shell_search_rank(state: ShellSearchView) -> int {
    match state {
        ShellSearchOf::Start => 7,
        ShellSearchOf::Asked(i) => if i < 3 {
            6 - 2 * i
        } else {
            2
        },
        ShellSearchOf::Checking(i, _) => if i < 3 {
            5 - 2 * i
        } else {
            1
        },
        ShellSearchOf::Ended(_) => 0,
    }
}

/// A path that a search through the login shells is looking at is absolute.
pub open spec fn looks_at_absolute(state: ShellSearchView) -> bool {
    state matches ShellSearchOf::Checking(_, p) ==> absolute(p)
}

/// A search through the login shells ends after at most seven steps, and until then it always
/// waits for an answer. What it looks at is an absolute path, and what it finds is one that it
/// has asked about and that is a regular file.
pub proof fn law_shell_search(name: Seq<char>, state: ShellSearchView, reply: ReplyView)
    requires
        state !is Ended,
        looks_at_absolute(state),
    ensures
        ({
            let (next, effects) = shell_search_step(name, state, reply);
            &&& 0 <= shell_search_rank(next) < shell_search_rank(state) <= 7
            &&& next !is Ended ==> effects.len() == 1
            &&& looks_at_absolute(next)
            &&& next matches ShellSearchOf::Checking(_, p) ==> effects.last()
                == EffectView::IsFile(p)
            &&& next matches ShellSearchOf::Ended(Some(p)) ==> absolute(p) && yes(reply) && (
            state matches ShellSearchOf::Checking(_, q) && p == q)
        }),
{
}

/// An upper bound for the steps that the search for the search path still takes.
pub open spec fn path_search_rank(state: PathSearchView) -> int {
    match state {
        PathSearchOf::Start => 4,
        PathSearchOf::Asked(i) => if i < 3 {
            3 - i
        } else {
            1
        },
        PathSearchOf::Ended(_) => 0,
    }
}

/// The search for the search path ends after at most four steps, and never in an empty path.
/// It ends without one only where the launcher's own is missing or empty.
pub proof fn law_path_search(own: Option<Seq<char>>, state: PathSearchView, reply: ReplyView)
    requires
        state !is Ended,
    ensures
        ({
            let (next, effects) = path_search_step(own, state, reply);
            &&& 0 <= path_search_rank(next) < path_search_rank(state) <= 4
            &&& next !is Ended ==> effects.len() == 1
            &&& next matches PathSearchOf::Ended(Some(p)) ==> p.len() > 0
            &&& next == PathSearchView::Ended(None) ==> own is None || own->0.len() == 0
        }),
{
}

/// The environment of the service holds the search path and the terminal, and nothing else.
pub proof fn law_environment_is_two_variables(
    own: Option<Seq<char>>,
    state: EnvSearchView,
    reply: ReplyView,
)
    requires
        state !is Ended,
    ensures
        env_step(own, state, reply).0 matches EnvSearchOf::Ended(v) ==> exists|p: Seq<char>|
            v == service_variables(p),
{
}

/// An upper bound for the steps that a search through the common places still takes.
pub open spec fn place_search_rank(state: PlaceSearchView, versions: int) -> int {
    match state {
        PlaceSearchOf::Start => 2 * versions + PLACES + 3,
        PlaceSearchOf::Listing => 2 * versions + PLACES + 2,
        PlaceSearchOf::Probing { versions: v, index, bin, best } => if index < v.len() {
            2 * (v.len() - index) + PLACES + if bin {
                1int
            } else {
                0
            }
        } else {
            PLACES as int + 2
        },
        PlaceSearchOf::Latest(_) => PLACES as int + 1,
        PlaceSearchOf::Trying(i) => if i < PLACES {
            PLACES - i
        } else {
            1
        },
        PlaceSearchOf::Ended(_) => 0,
    }
}

/// A search through the common places ends, however many versions are listed, and until then it
/// always waits for an answer. What it finds is a regular file.
pub proof fn law_place_search(
    home: Seq<u8>,
    name: Seq<char>,
    state: PlaceSearchView,
    reply: ReplyView,
    versions: int,
)
    requires
        state !is Ended,
        versions >= 0,
        reply matches ReplyView::Names(Some(v)) ==> v.len() <= versions,
        state matches PlaceSearchOf::Probing { versions: v, index, .. } ==> v.len() <= usize::MAX,
    ensures
        ({
            let (next, effects) = place_search_step(home, name, state, reply);
            &&& 0 <= place_search_rank(next, versions) < place_search_rank(state, versions)
            &&& next !is Ended ==> effects.len() == 1
            &&& next matches PlaceSearchOf::Ended(Some(_)) ==> yes(reply)
        }),
{
}

// ---- the latest version ----

/// The version that is kept of those that have the program.
pub open spec fn kept(versions: Seq<VersionView>) -> Option<VersionView>
    decreases versions.len(),
{
    if versions.len() == 0 {
        None
    } else {
        Some(later(kept(versions.drop_last()), versions.last()))
    }
}

/// The version that is kept is one of those that have the program, and none of them comes after
/// it in the order of versions.
pub proof fn law_latest_version_is_kept(versions: Seq<VersionView>)
    requires
        versions.len() > 0,
    ensures
        kept(versions) matches Some(v) && versions.contains(v) && forall|i: int|
            0 <= i < versions.len() ==> !version_before(v.0, (#[trigger] versions[i]).0),
    decreases versions.len(),
{
    let last = versions.last();
    let v = kept(versions)->0;
    law_version_not_before_itself(last.0);
    if versions.len() == 1 {
        assert(kept(versions.drop_last()) is None);
        assert(versions[0] == v);
    } else {
        let front = versions.drop_last();
        law_latest_version_is_kept(front);
        let b = kept(front)->0;
        let k = choose|k: int| 0 <= k < front.len() && front[k] == b;
        assert(versions[k] == b);
        assert(versions[versions.len() - 1] == last);
        assert forall|i: int| 0 <= i < versions.len() implies !version_before(
            v.0,
            (#[trigger] versions[i]).0,
        ) by {
            if i < front.len() {
                assert(front[i] == versions[i]);
                assert(!version_before(b.0, front[i].0));
                if version_before(b.0, last.0) && version_before(last.0, front[i].0) {
                    law_version_order_is_transitive(b.0, last.0, front[i].0);
                }
            }
        }
    }
}

/// Where a version has the program, if anywhere: the answers say whether it is in the directory
/// for programs and whether it is in the directory of the version itself.
pub open spec fn holding(answers: (bool, bool)) -> Option<bool> {
    if answers.0 {
        Some(true)
    } else if answers.1 {
        Some(false)
    } else {
        None
    }
}

/// The versions among the first `n` that have the program.
pub open spec fn passed(versions: Seq<Seq<u8>>, answers: Seq<(bool, bool)>, n: int) -> Seq<
    VersionView,
>
    decreases n,
{
    if n <= 0 {
        Seq::empty()
    } else {
        let front = passed(versions, answers, n - 1);
        match holding(answers[n - 1]) {
            Some(bin) => front.push((decoded(versions[n - 1]), bin)),
            None => front,
        }
    }
}

/// From version to version, the search keeps the latest of those that have the program, in
/// either directory; after the last version it looks at that one.
pub proof fn law_search_keeps_latest(
    home: Seq<u8>,
    name: Seq<char>,
    versions: Seq<Seq<u8>>,
    answers: Seq<(bool, bool)>,
    i: int,
)
    requires
        0 <= i < versions.len() <= usize::MAX,
        answers.len() == versions.len(),
    ensures
        ({
            let before = try_version(home, name, versions, i, kept(passed(versions, answers, i)));
            let after = try_version(
                home,
                name,
                versions,
                i + 1,
                kept(passed(versions, answers, i + 1)),
            );
            let first = place_search_step(home, name, before.0, ReplyView::Flag(answers[i].0));
            let second = place_search_step(home, name, first.0, ReplyView::Flag(answers[i].1));
            &&& before.1 == seq![
                EffectView::IsFile(version_place(home, name, versions[i], true)),
            ]
            &&& answers[i].0 ==> first == after
            &&& !answers[i].0 ==> first.1 == seq![
                EffectView::IsFile(version_place(home, name, versions[i], false)),
            ] && second == after
        }),
{
    let before = passed(versions, answers, i);
    match holding(answers[i]) {
        Some(bin) => {
            let after = before.push((decoded(versions[i]), bin));
            assert(after.drop_last() == before);
            assert(passed(versions, answers, i + 1) == after);
        },
        None => {},
    }
}

/// The path that is looked at last for a version whose name is text is the one that was found.
pub proof fn law_latest_path_is_the_one_found(
    home: Seq<u8>,
    name: Seq<char>,
    version: Seq<u8>,
    bin: bool,
)
    requires
        valid_utf8(version),
    ensures
        try_version(home, name, Seq::empty(), 0, Some((decoded(version), bin))) == (
            PlaceSearchView::Latest(version_place(home, name, version, bin)),
            seq![EffectView::IsFile(version_place(home, name, version, bin))],
        ),
{
    decode_utf8_encode_utf8(version);
}

// ---- node and dsh ----

/// The node that is looked at first lies in the directory of dsh.
pub proof fn law_node_beside_dsh(dsh: Seq<u8>, reply: ReplyView)
    requires
        path_parent(dsh) is Some,
    ensures
        node_step(dsh, NodeSearchOf::Start, reply).0 matches NodeSearchOf::Beside(node)
            && path_parent(node) == path_parent(dsh),
{
    let dir = path_parent(dsh)->0;
    let name = encode_utf8("node"@);
    lemma_node_name();
    lemma_parent_settled(dsh);
    let node = path_join(dir, name);
    assert(!absolute(name));
    if lead(dir) < dir.len() {
        law_parent_of_join(dir, name);
    } else if dir.len() == 0 {
        assert(node == name);
        lemma_single_piece(node, 0);
    } else {
        assert(dir.len() == 1);
        if dir[0] == SLASH {
            assert(node == dir + name);
            assert(node[0] == SLASH);
            lemma_single_piece(node, 1);
            assert(node.take(1) == dir);
        } else {
            assert(node == dir.push(SLASH) + name);
            assert(node[0] == DOT && node[1] == SLASH);
            lemma_piece_of_name(node, 1, 1, node.len() as int);
            assert(node[2] == name[0]);
            assert(!idle(node, 1, node.len() as int));
            assert(cut(node, 1, node.len() as int) == 1);
            assert(node.take(1) == dir);
        }
    }
}

proof fn lemma_node_name()
    ensures
        encode_utf8("node"@) == seq![0x6eu8, 0x6fu8, 0x64u8, 0x65u8],
{
    reveal_strlit("node");
    is_ascii_chars_encode_utf8("node"@);
    assert(encode_utf8("node"@) =~= seq![0x6eu8, 0x6fu8, 0x64u8, 0x65u8]);
}

/// A path whose only piece is the name has nothing but its lead for a parent.
proof fn lemma_single_piece(p: Seq<u8>, start: int)
    requires
        0 <= start < p.len(),
        start == lead(p),
        p.len() - start > 1,
        forall|i: int| start <= i < p.len() ==> p[i] != SLASH,
    ensures
        path_parent(p) == Some(p.take(start)),
{
    lemma_no_slash(p, start, p.len() as int);
    assert(!idle(p, start, p.len() as int));
    assert(cut(p, start, p.len() as int) == start);
}

proof fn lemma_no_slash(p: Seq<u8>, start: int, end: int)
    requires
        0 <= start <= end <= p.len(),
        forall|i: int| start <= i < end ==> p[i] != SLASH,
    ensures
        piece(p, start, end) == start,
    decreases end - start,
{
    if start < end {
        lemma_no_slash(p, start, end - 1);
    }
}

/// Where a path is cut, it ends or a slash follows.
proof fn lemma_cut_boundary(p: Seq<u8>, start: int, end: int)
    requires
        0 <= start < end <= p.len(),
    ensures
        start <= cut(p, start, end) < end,
        cut(p, start, end) > start ==> p[cut(p, start, end)] == SLASH,
    decreases end - start,
{
    lemma_piece(p, start, end);
    lemma_piece_slash(p, start, end);
}

proof fn lemma_piece_slash(p: Seq<u8>, start: int, end: int)
    requires
        0 <= start <= end <= p.len(),
    ensures
        piece(p, start, end) > start ==> p[piece(p, start, end) - 1] == SLASH,
    decreases end - start,
{
    if start < end && p[end - 1] != SLASH {
        lemma_piece_slash(p, start, end - 1);
    }
}

/// A settled end is the end itself or a cut, and no idle piece stands before it.
proof fn lemma_settled(p: Seq<u8>, start: int, end: int)
    requires
        0 <= start <= end <= p.len(),
        start < end < p.len() ==> p[end] == SLASH,
    ensures
        start <= settle(p, start, end) <= end,
        start < settle(p, start, end) ==> !idle(p, start, settle(p, start, end)),
        start < settle(p, start, end) < p.len() ==> p[settle(p, start, end)] == SLASH,
    decreases end - start,
{
    if start < end {
        lemma_cut_boundary(p, start, end);
        if idle(p, start, end) {
            lemma_settled(p, start, cut(p, start, end));
        }
    }
}

/// A parent is empty, a bare lead, or ends in a proper piece.
proof fn lemma_parent_settled(p: Seq<u8>)
    requires
        path_parent(p) is Some,
    ensures
        ({
            let dir = path_parent(p)->0;
            &&& lead(dir) < dir.len() ==> !idle(dir, lead(dir), dir.len() as int)
            &&& lead(dir) >= dir.len() ==> dir.len() <= 1
        }),
{
    let start = lead(p);
    let end = settle(p, start, p.len() as int);
    lemma_settled(p, start, p.len() as int);
    if end > start {
        lemma_cut_boundary(p, start, end);
        let c = cut(p, start, end);
        lemma_settled(p, start, c);
        let e = settle(p, start, c);
        let dir = p.take(e);
        if e > start {
            assert(p[e] == SLASH);
            assert(lead(dir) == start) by {
                if !absolute(p) && !dot_first(p) && dir[0] == DOT && e == 1 {
                    assert(p[1] == SLASH);
                }
            }
            lemma_piece_take(p, start, e);
            lemma_piece(p, start, e);
        } else {
            assert(dir.len() <= 1);
        }
    }
}

proof fn lemma_piece_take(p: Seq<u8>, start: int, end: int)
    requires
        0 <= start <= end <= p.len(),
    ensures
        forall|n: int| end <= n <= p.len() ==> #[trigger] piece(p.take(n), start, end) == piece(p, start, end),
    decreases end - start,
{
    if start < end {
        lemma_piece_take(p, start, end - 1);
        assert forall|n: int| end <= n <= p.len() implies #[trigger] piece(p.take(n), start, end)
            == piece(p, start, end) by {
            assert(p.take(n)[end - 1] == p[end - 1]);
            assert(piece(p.take(n), start, end - 1) == piece(p, start, end - 1));
        }
    }
}

// ---- the other searches ----

/// What the login shells know goes before what the common places hold.
pub proof fn law_which(name: Seq<char>, first: ReplyView, second: ReplyView)
    ensures
        first matches ReplyView::Found(Some(p)) ==> which_step(name, WhichOf::Shells, first).0
            == WhichView::Ended(Some(p)),
        !(first is Found && first->Found_0 is Some) ==> which_step(name, WhichOf::Shells, first)
            == (
            WhichView::Places,
            seq![EffectView::WhichFromCommonPaths(name)],
        ),
        second matches ReplyView::Found(found) ==> which_step(name, WhichOf::Places, second).0
            == WhichView::Ended(found),
{
}

/// The command line is made exactly where both dsh and node were found.
pub proof fn law_program_needs_both(dsh: Seq<u8>, first: ReplyView, second: ReplyView)
    ensures
        program_step(ProgramSearchOf::Dsh, first).0 is Ended <==> !(first is Found
            && first->Found_0 is Some),
        program_step(ProgramSearchOf::Dsh, first).0 matches ProgramSearchOf::Ended(r) ==> r is Err,
        program_step(ProgramSearchOf::Node(dsh), second).0 matches ProgramSearchOf::Ended(r) && (
        r is Ok <==> second is Found && second->Found_0 is Some),
{
}

} // verus!

//! Finding the programs that the service runs.

use vstd::prelude::*;
use vstd::utf8::*;

use crate::effect::is_yes;
use crate::effect::names;
use crate::effect::shown;
use crate::effect::yes;
use crate::effect::Effect;
use crate::effect::EffectOf;
use crate::effect::EffectView;
use crate::effect::Reply;
use crate::effect::ReplyOf;
use crate::effect::ReplyView;
use crate::locations::sub_path;
use crate::native::bytes_of;
use crate::native::copy_of;
use crate::native::decode;
use crate::native::decoded;
use crate::path::below;
use crate::path::join_path;
use crate::path::parent;
use crate::path::path_join;
use crate::path::path_parent;
use crate::text::concat3;
use crate::text::texts;
use crate::version::is_version_before;
use crate::version::version_before;

verus! {

// ---- common places ----

/// The directory with one directory for each version that nvm has installed.
pub open spec fn nvm_path(home: Seq<u8>) -> Seq<u8> {
    sub_path(home, ".nvm/versions/node"@)
}

/// The number of places where programs are commonly installed.
pub const PLACES: usize = 6;

/// The places where the program `name` is commonly installed.
pub open spec fn place(home: Seq<u8>, name: Seq<char>, i: int) -> Seq<u8> {
    if i == 0 {
        sub_path(sub_path(nvm_path(home), "current/bin"@), name)
    } else if i == 1 {
        sub_path(sub_path(home, ".local/bin"@), name)
    } else if i == 2 {
        sub_path(sub_path(home, ".volta/bin"@), name)
    } else if i == 3 {
        sub_path(encode_utf8("/opt/homebrew/bin"@), name)
    } else if i == 4 {
        sub_path(encode_utf8("/usr/local/bin"@), name)
    } else {
        sub_path(encode_utf8("/usr/bin"@), name)
    }
}

fn nvm_root(home: &Vec<u8>) -> (r: Vec<u8>)
    ensures
        r@ == nvm_path(home@),
{
    below(home, ".nvm/versions/node")
}

fn place_of(home: &Vec<u8>, name: &str, i: usize) -> (r: Vec<u8>)
    ensures
        r@ == place(home@, name@, i as int),
{
    let dir = if i == 0 {
        below(&nvm_root(home), "current/bin")
    } else if i == 1 {
        below(home, ".local/bin")
    } else if i == 2 {
        below(home, ".volta/bin")
    } else if i == 3 {
        bytes_of("/opt/homebrew/bin")
    } else if i == 4 {
        bytes_of("/usr/local/bin")
    } else {
        bytes_of("/usr/bin")
    };
    below(&dir, name)
}

/// The program `name` of an nvm version: in its directory for programs, where `bin` says so, and
/// in the directory of the version itself otherwise.
pub open spec fn version_place(
    home: Seq<u8>,
    name: Seq<char>,
    version: Seq<u8>,
    bin: bool,
) -> Seq<u8> {
    let dir = path_join(nvm_path(home), version);
    if bin {
        sub_path(sub_path(dir, "bin"@), name)
    } else {
        sub_path(dir, name)
    }
}

fn version_place_of(home: &Vec<u8>, name: &str, version: &Vec<u8>, bin: bool) -> (r: Vec<u8>)
    ensures
        r@ == version_place(home@, name@, version@, bin),
{
    let dir = join_path(&nvm_root(home), version);
    if bin {
        below(&below(&dir, "bin"), name)
    } else {
        below(&dir, name)
    }
}

/// A version that has the program, and whether it has it in its directory for programs.
pub type VersionView = (Seq<char>, bool);

/// The later of the version kept so far and another one.
pub open spec fn later(best: Option<VersionView>, version: VersionView) -> VersionView {
    match best {
        Some(b) => if version_before(b.0, version.0) {
            version
        } else {
            b
        },
        None => version,
    }
}

/// The states of a search through the common places, over texts `T`, paths `P` and lists of
/// names `N`.
#[derive(Debug, PartialEq, Eq)]
pub enum PlaceSearchOf<T, P, N> {
    /// Nothing has happened yet.
    Start,
    /// The versions are being listed.
    Listing,
    /// The version of this index is being looked at, in its directory for programs or outside;
    /// `best` is the latest that has the program.
    Probing { versions: N, index: usize, bin: bool, best: Option<(T, bool)> },
    /// The program of the latest version is being looked at.
    Latest(P),
    /// The place of this number is being looked at.
    Trying(usize),
    /// The search is over.
    Ended(Option<P>),
}

/// The states of a search through the common places.
pub type PlaceSearch = PlaceSearchOf<String, Vec<u8>, Vec<Vec<u8>>>;

/// The states of a search through the common places as the contracts speak of them.
pub type PlaceSearchView = PlaceSearchOf<Seq<char>, Seq<u8>, Seq<Seq<u8>>>;

/// The view of a version that may be missing.
pub open spec fn best_view(best: Option<(String, bool)>) -> Option<VersionView> {
    match best {
        Some(b) => Some((b.0@, b.1)),
        None => None,
    }
}

impl PlaceSearchOf<String, Vec<u8>, Vec<Vec<u8>>> {
    pub open spec fn view(&self) -> PlaceSearchView {
        match *self {
            PlaceSearchOf::Start => PlaceSearchOf::Start,
            PlaceSearchOf::Listing => PlaceSearchOf::Listing,
            PlaceSearchOf::Probing { versions, index, bin, best } => PlaceSearchOf::Probing {
                versions: names(versions@),
                index,
                bin,
                best: best_view(best),
            },
            PlaceSearchOf::Latest(p) => PlaceSearchOf::Latest(p@),
            PlaceSearchOf::Trying(i) => PlaceSearchOf::Trying(i),
            PlaceSearchOf::Ended(Some(p)) => PlaceSearchOf::Ended(Some(p@)),
            PlaceSearchOf::Ended(None) => PlaceSearchOf::Ended(None),
        }
    }
}

/// Looking at the place of number `i`, as long as there is one.
pub open spec fn try_place(home: Seq<u8>, name: Seq<char>, i: int) -> (
    PlaceSearchView,
    Seq<EffectView>,
) {
    if i < PLACES {
        (PlaceSearchOf::Trying(i as usize), seq![EffectOf::IsFile(place(home, name, i))])
    } else {
        (PlaceSearchOf::Ended(None), seq![])
    }
}

/// Looking at the version of number `i`; after the last one, once more at the latest that has
/// the program.
pub open spec fn try_version(
    home: Seq<u8>,
    name: Seq<char>,
    versions: Seq<Seq<u8>>,
    i: int,
    best: Option<VersionView>,
) -> (PlaceSearchView, Seq<EffectView>) {
    if i < versions.len() {
        (
            PlaceSearchOf::Probing { versions, index: i as usize, bin: true, best },
            seq![EffectOf::IsFile(version_place(home, name, versions[i], true))],
        )
    } else {
        match best {
            Some(version) => {
                let path = version_place(home, name, encode_utf8(version.0), version.1);
                (PlaceSearchOf::Latest(path), seq![EffectOf::IsFile(path)])
            },
            None => try_place(home, name, 0),
        }
    }
}

/// The search for a program in the common places: first in the latest nvm version that has it,
/// then place by place.
pub open spec fn place_search_step(
    home: Seq<u8>,
    name: Seq<char>,
    state: PlaceSearchView,
    reply: ReplyView,
) -> (PlaceSearchView, Seq<EffectView>) {
    match state {
        PlaceSearchOf::Start => (PlaceSearchOf::Listing, seq![EffectOf::List(nvm_path(home))]),
        PlaceSearchOf::Listing => match reply {
            ReplyOf::Names(Some(versions)) => try_version(home, name, versions, 0, None),
            _ => try_place(home, name, 0),
        },
        PlaceSearchOf::Probing { versions, index, bin, best } => if index < versions.len() {
            if yes(reply) {
                try_version(
                    home,
                    name,
                    versions,
                    index + 1,
                    Some(later(best, (decoded(versions[index as int]), bin))),
                )
            } else if bin {
                (
                    PlaceSearchOf::Probing { versions, index, bin: false, best },
                    seq![
                        EffectOf::IsFile(version_place(home, name, versions[index as int], false)),
                    ],
                )
            } else {
                try_version(home, name, versions, index + 1, best)
            }
        } else {
            try_version(home, name, versions, index as int, best)
        },
        PlaceSearchOf::Latest(path) => if yes(reply) {
            (PlaceSearchOf::Ended(Some(path)), seq![])
        } else {
            try_place(home, name, 0)
        },
        PlaceSearchOf::Trying(i) => if yes(reply) {
            (PlaceSearchOf::Ended(Some(place(home, name, i as int))), seq![])
        } else {
            try_place(home, name, i + 1)
        },
        PlaceSearchOf::Ended(found) => (PlaceSearchOf::Ended(found), seq![]),
    }
}

fn next_place(home: &Vec<u8>, name: &str, i: usize) -> (r: (PlaceSearch, Vec<Effect>))
    ensures
        (r.0@, shown(r.1@)) == try_place(home@, name@, i as int),
{
    let mut effects: Vec<Effect> = Vec::new();
    let next: PlaceSearch;
    if i < PLACES {
        effects.push(EffectOf::IsFile(place_of(home, name, i)));
        next = PlaceSearchOf::Trying(i);
    } else {
        next = PlaceSearchOf::Ended(None);
    }
    assert(shown(effects@) =~= try_place(home@, name@, i as int).1);
    (next, effects)
}

fn next_version(
    home: &Vec<u8>,
    name: &str,
    versions: Vec<Vec<u8>>,
    i: usize,
    best: Option<(String, bool)>,
) -> (r: (PlaceSearch, Vec<Effect>))
    ensures
        (r.0@, shown(r.1@)) == try_version(
            home@,
            name@,
            names(versions@),
            i as int,
            best_view(best),
        ),
{
    let ghost whole = try_version(
        home@,
        name@,
        names(versions@),
        i as int,
        best_view(best),
    );
    let mut effects: Vec<Effect> = Vec::new();
    let next: PlaceSearch;
    if i < versions.len() {
        effects.push(EffectOf::IsFile(version_place_of(home, name, &versions[i], true)));
        next = PlaceSearchOf::Probing { versions, index: i, bin: true, best };
    } else {
        match best {
            Some(version) => {
                let path = version_place_of(
                    home,
                    name,
                    &bytes_of(version.0.as_str()),
                    version.1,
                );
                effects.push(EffectOf::IsFile(copy_of(&path)));
                next = PlaceSearchOf::Latest(path);
            },
            None => {
                return next_place(home, name, 0);
            },
        }
    }
    assert(shown(effects@) =~= whole.1);
    (next, effects)
}

fn later_of(best: Option<(String, bool)>, version: (String, bool)) -> (r: (String, bool))
    ensures
        (r.0@, r.1) == later(best_view(best), (version.0@, version.1)),
{
    match best {
        Some(b) => if is_version_before(b.0.as_str(), version.0.as_str()) {
            version
        } else {
            b
        },
        None => version,
    }
}

/// The next step of the search for `name` in the common places.
pub fn which_from_common_paths(
    home: &Vec<u8>,
    name: &str,
    state: PlaceSearch,
    reply: Reply,
) -> (r: (PlaceSearch, Vec<Effect>))
    ensures
        (r.0@, shown(r.1@)) == place_search_step(home@, name@, state@, reply@),
{
    let ghost whole = place_search_step(home@, name@, state@, reply@);
    let yes = is_yes(&reply);
    let mut effects: Vec<Effect> = Vec::new();
    let next: PlaceSearch;
    match state {
        PlaceSearchOf::Start => {
            effects.push(EffectOf::List(nvm_root(home)));
            next = PlaceSearchOf::Listing;
        },
        PlaceSearchOf::Listing => match reply {
            ReplyOf::Names(Some(versions)) => {
                return next_version(home, name, versions, 0, None);
            },
            _ => {
                return next_place(home, name, 0);
            },
        },
        PlaceSearchOf::Probing { versions, index, bin, best } => {
            if index < versions.len() {
                if yes {
                    let version = later_of(best, (decode(&versions[index]), bin));
                    return next_version(home, name, versions, index + 1, Some(version));
                } else if bin {
                    effects.push(
                        EffectOf::IsFile(version_place_of(home, name, &versions[index], false)),
                    );
                    next = PlaceSearchOf::Probing { versions, index, bin: false, best };
                } else {
                    return next_version(home, name, versions, index + 1, best);
                }
            } else {
                return next_version(home, name, versions, index, best);
            }
        },
        PlaceSearchOf::Latest(path) => {
            if yes {
                next = PlaceSearchOf::Ended(Some(path));
            } else {
                return next_place(home, name, 0);
            }
        },
        PlaceSearchOf::Trying(i) => {
            if yes {
                next = PlaceSearchOf::Ended(Some(place_of(home, name, i)));
            } else if i < PLACES {
                return next_place(home, name, i + 1);
            } else {
                next = PlaceSearchOf::Ended(None);
            }
        },
        PlaceSearchOf::Ended(found) => {
            next = PlaceSearchOf::Ended(found);
        },
    }
    assert(shown(effects@) =~= whole.1);
    (next, effects)
}

// ---- shells and common places together ----

/// The states of a search everywhere, over paths `P`.
#[derive(Debug, PartialEq, Eq)]
pub enum WhichOf<P> {
    /// Nothing has happened yet.
    Start,
    /// The login shells are being asked.
    Shells,
    /// The common places are being looked at.
    Places,
    /// The search is over.
    Ended(Option<P>),
}

/// The states of a search everywhere.
pub type Which = WhichOf<Vec<u8>>;

/// The states of a search everywhere as the contracts speak of them.
pub type WhichView = WhichOf<Seq<u8>>;

impl WhichOf<Vec<u8>> {
    pub open spec fn view(&self) -> WhichView {
        match *self {
            WhichOf::Start => WhichOf::Start,
            WhichOf::Shells => WhichOf::Shells,
            WhichOf::Places => WhichOf::Places,
            WhichOf::Ended(Some(p)) => WhichOf::Ended(Some(p@)),
            WhichOf::Ended(None) => WhichOf::Ended(None),
        }
    }
}

/// The search for a program: what the login shells know, or else what the common places hold.
pub open spec fn which_step(name: Seq<char>, state: WhichView, reply: ReplyView) -> (
    WhichView,
    Seq<EffectView>,
) {
    match state {
        WhichOf::Start => (WhichOf::Shells, seq![EffectOf::WhichFromLoginShell(name)]),
        WhichOf::Shells => match reply {
            ReplyOf::Found(Some(p)) => (WhichOf::Ended(Some(p)), seq![]),
            _ => (WhichOf::Places, seq![EffectOf::WhichFromCommonPaths(name)]),
        },
        WhichOf::Places => match reply {
            ReplyOf::Found(found) => (WhichOf::Ended(found), seq![]),
            _ => (WhichOf::Ended(None), seq![]),
        },
        WhichOf::Ended(found) => (WhichOf::Ended(found), seq![]),
    }
}

/// The next step of the search for the program `name`.
pub fn which(name: &str, state: Which, reply: Reply) -> (r: (Which, Vec<Effect>))
    ensures
        (r.0@, shown(r.1@)) == which_step(name@, state@, reply@),
{
    let ghost whole = which_step(name@, state@, reply@);
    let mut effects: Vec<Effect> = Vec::new();
    let next: Which;
    match state {
        WhichOf::Start => {
            effects.push(EffectOf::WhichFromLoginShell(name.to_string()));
            next = WhichOf::Shells;
        },
        WhichOf::Shells => match reply {
            ReplyOf::Found(Some(p)) => {
                next = WhichOf::Ended(Some(p));
            },
            _ => {
                effects.push(EffectOf::WhichFromCommonPaths(name.to_string()));
                next = WhichOf::Places;
            },
        },
        WhichOf::Places => match reply {
            ReplyOf::Found(found) => {
                next = WhichOf::Ended(found);
            },
            _ => {
                next = WhichOf::Ended(None);
            },
        },
        WhichOf::Ended(found) => {
            next = WhichOf::Ended(found);
        },
    }
    assert(shown(effects@) =~= whole.1);
    (next, effects)
}

// ---- the node that goes with dsh ----

/// The states of the search for node, over paths `P`.
#[derive(Debug, PartialEq, Eq)]
pub enum NodeSearchOf<P> {
    /// Nothing has happened yet.
    Start,
    /// The node beside dsh is being looked at.
    Beside(P),
    /// Node is being looked for everywhere.
    Anywhere,
    /// The search is over.
    Ended(Option<P>),
}

/// The states of the search for node.
pub type NodeSearch = NodeSearchOf<Vec<u8>>;

/// The states of the search for node as the contracts speak of them.
pub type NodeSearchView = NodeSearchOf<Seq<u8>>;

impl NodeSearchOf<Vec<u8>> {
    pub open spec fn view(&self) -> NodeSearchView {
        match *self {
            NodeSearchOf::Start => NodeSearchOf::Start,
            NodeSearchOf::Beside(p) => NodeSearchOf::Beside(p@),
            NodeSearchOf::Anywhere => NodeSearchOf::Anywhere,
            NodeSearchOf::Ended(Some(p)) => NodeSearchOf::Ended(Some(p@)),
            NodeSearchOf::Ended(None) => NodeSearchOf::Ended(None),
        }
    }
}

/// The search for the node that runs `dsh`: the one in the same directory, or else any.
pub open spec fn node_step(dsh: Seq<u8>, state: NodeSearchView, reply: ReplyView) -> (
    NodeSearchView,
    Seq<EffectView>,
) {
    match state {
        NodeSearchOf::Start => match path_parent(dsh) {
            Some(dir) => {
                let path = sub_path(dir, "node"@);
                (NodeSearchOf::Beside(path), seq![EffectOf::IsFile(path)])
            },
            None => (NodeSearchOf::Anywhere, seq![EffectOf::Which("node"@)]),
        },
        NodeSearchOf::Beside(path) => if yes(reply) {
            (NodeSearchOf::Ended(Some(path)), seq![])
        } else {
            (NodeSearchOf::Anywhere, seq![EffectOf::Which("node"@)])
        },
        NodeSearchOf::Anywhere => match reply {
            ReplyOf::Found(found) => (NodeSearchOf::Ended(found), seq![]),
            _ => (NodeSearchOf::Ended(None), seq![]),
        },
        NodeSearchOf::Ended(found) => (NodeSearchOf::Ended(found), seq![]),
    }
}

/// The next step of the search for the node that runs `dsh`.
pub fn node_for_dsh(dsh: &Vec<u8>, state: NodeSearch, reply: Reply) -> (r: (
    NodeSearch,
    Vec<Effect>,
))
    ensures
        (r.0@, shown(r.1@)) == node_step(dsh@, state@, reply@),
{
    let ghost whole = node_step(dsh@, state@, reply@);
    let mut effects: Vec<Effect> = Vec::new();
    let next: NodeSearch;
    match state {
        NodeSearchOf::Start => match parent(dsh) {
            Some(dir) => {
                let path = below(&dir, "node");
                effects.push(EffectOf::IsFile(copy_of(&path)));
                next = NodeSearchOf::Beside(path);
            },
            None => {
                effects.push(EffectOf::Which("node".to_string()));
                next = NodeSearchOf::Anywhere;
            },
        },
        NodeSearchOf::Beside(path) => {
            if is_yes(&reply) {
                next = NodeSearchOf::Ended(Some(path));
            } else {
                effects.push(EffectOf::Which("node".to_string()));
                next = NodeSearchOf::Anywhere;
            }
        },
        NodeSearchOf::Anywhere => match reply {
            ReplyOf::Found(found) => {
                next = NodeSearchOf::Ended(found);
            },
            _ => {
                next = NodeSearchOf::Ended(None);
            },
        },
        NodeSearchOf::Ended(found) => {
            next = NodeSearchOf::Ended(found);
        },
    }
    assert(shown(effects@) =~= whole.1);
    (next, effects)
}

// ---- the command line ----

/// The states of the making of the command line, over texts `T`, paths `P` and lists of texts
/// `L`.
#[derive(Debug, PartialEq, Eq)]
pub enum ProgramSearchOf<T, P, L> {
    /// Nothing has happened yet.
    Start,
    /// Dsh is being looked for.
    Dsh,
    /// This dsh was found, and its node is being looked for.
    Node(P),
    /// The command line is made, or cannot be.
    Ended(Result<L, T>),
}

/// The states of the making of the command line.
pub type ProgramSearch = ProgramSearchOf<String, Vec<u8>, Vec<String>>;

/// The states of the making of the command line as the contracts speak of them.
pub type ProgramSearchView = ProgramSearchOf<Seq<char>, Seq<u8>, Seq<Seq<char>>>;

impl ProgramSearchOf<String, Vec<u8>, Vec<String>> {
    pub open spec fn view(&self) -> ProgramSearchView {
        match *self {
            ProgramSearchOf::Start => ProgramSearchOf::Start,
            ProgramSearchOf::Dsh => ProgramSearchOf::Dsh,
            ProgramSearchOf::Node(p) => ProgramSearchOf::Node(p@),
            ProgramSearchOf::Ended(Ok(l)) => ProgramSearchOf::Ended(Ok(texts(l@))),
            ProgramSearchOf::Ended(Err(e)) => ProgramSearchOf::Ended(Err(e@)),
        }
    }
}

/// The command line of the service, for the paths of node and dsh as texts.
pub open spec fn command_line(node: Seq<char>, dsh: Seq<char>) -> Seq<Seq<char>> {
    seq![node, dsh, "--profile"@, "web"@, "--no-open"@]
}

/// The making of the command line: dsh, then the node that goes with it.
pub open spec fn program_step(state: ProgramSearchView, reply: ReplyView) -> (
    ProgramSearchView,
    Seq<EffectView>,
) {
    match state {
        ProgramSearchOf::Start => (ProgramSearchOf::Dsh, seq![EffectOf::Which("dsh"@)]),
        ProgramSearchOf::Dsh => match reply {
            ReplyOf::Found(Some(dsh)) => (
                ProgramSearchOf::Node(dsh),
                seq![EffectOf::NodeForDsh(dsh)],
            ),
            _ => (
                ProgramSearchOf::Ended(
                    Err("dsh 不在 PATH，无法生成服务定义（已尝试登录 shell 与常见安装路径）"@),
                ),
                seq![],
            ),
        },
        ProgramSearchOf::Node(dsh) => match reply {
            ReplyOf::Found(Some(node)) => (
                ProgramSearchOf::Ended(Ok(command_line(decoded(node), decoded(dsh)))),
                seq![
                    EffectOf::Log(
                        "dsh_program: node="@ + decoded(node) + " dsh="@ + decoded(dsh),
                    ),
                ],
            ),
            _ => (
                ProgramSearchOf::Ended(
                    Err("node 不在 PATH，无法生成服务定义（已尝试登录 shell 与常见安装路径）"@),
                ),
                seq![],
            ),
        },
        ProgramSearchOf::Ended(r) => (ProgramSearchOf::Ended(r), seq![]),
    }
}

/// The command line of the service, for the paths of node and dsh as texts.
pub fn service_command(node: String, dsh: String) -> (r: Vec<String>)
    ensures
        texts(r@) == command_line(node@, dsh@),
{
    let mut r: Vec<String> = Vec::new();
    r.push(node);
    r.push(dsh);
    r.push("--profile".to_string());
    r.push("web".to_string());
    r.push("--no-open".to_string());
    assert(texts(r@) == command_line(node@, dsh@));
    r
}

/// The next step of the making of the command line.
pub fn dsh_program(state: ProgramSearch, reply: Reply) -> (r: (ProgramSearch, Vec<Effect>))
    ensures
        (r.0@, shown(r.1@)) == program_step(state@, reply@),
{
    let ghost whole = program_step(state@, reply@);
    let mut effects: Vec<Effect> = Vec::new();
    let next: ProgramSearch;
    match state {
        ProgramSearchOf::Start => {
            effects.push(EffectOf::Which("dsh".to_string()));
            next = ProgramSearchOf::Dsh;
        },
        ProgramSearchOf::Dsh => match reply {
            ReplyOf::Found(Some(dsh)) => {
                effects.push(EffectOf::NodeForDsh(copy_of(&dsh)));
                next = ProgramSearchOf::Node(dsh);
            },
            _ => {
                next = ProgramSearchOf::Ended(
                    Err(
                        "dsh 不在 PATH，无法生成服务定义（已尝试登录 shell 与常见安装路径）".to_string(),
                    ),
                );
            },
        },
        ProgramSearchOf::Node(dsh) => match reply {
            ReplyOf::Found(Some(node)) => {
                let node_text = decode(&node);
                let dsh_text = decode(&dsh);
                let mut line = concat3("dsh_program: node=", node_text.as_str(), " dsh=");
                line.append(dsh_text.as_str());
                effects.push(EffectOf::Log(line));
                next = ProgramSearchOf::Ended(Ok(service_command(node_text, dsh_text)));
            },
            _ => {
                next = ProgramSearchOf::Ended(
                    Err(
                        "node 不在 PATH，无法生成服务定义（已尝试登录 shell 与常见安装路径）".to_string(),
                    ),
                );
            },
        },
        ProgramSearchOf::Ended(r) => {
            next = ProgramSearchOf::Ended(r);
        },
    }
    assert(shown(effects@) =~= whole.1);
    (next, effects)
}

} // verus!

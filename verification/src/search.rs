//! What the user's login shells know: where a program is, and the full search path.

use vstd::prelude::*;
use vstd::utf8::*;

use crate::commands::answer;
use crate::commands::written;
use crate::effect::is_yes;
use crate::effect::shown;
use crate::effect::variables;
use crate::effect::yes;
use crate::effect::Effect;
use crate::effect::EffectOf;
use crate::effect::EffectView;
use crate::effect::Reply;
use crate::effect::ReplyOf;
use crate::effect::ReplyView;
use crate::native::bytes_of;
use crate::native::copy_of;
use crate::path::absolute;
use crate::path::is_absolute;
use crate::text::concat;
use crate::text::texts;

verus! {

// ---- the login shell ----

/// The shells that are asked, in this order.
pub open spec fn shell_name(i: int) -> Seq<char> {
    if i == 0 {
        "zsh"@
    } else if i == 1 {
        "bash"@
    } else {
        "sh"@
    }
}

fn shell(i: usize) -> (r: String)
    ensures
        r@ == shell_name(i as int),
{
    if i == 0 {
        "zsh".to_string()
    } else if i == 1 {
        "bash".to_string()
    } else {
        "sh".to_string()
    }
}

/// A login shell that runs `script`.
pub open spec fn shell_run(i: int, script: Seq<char>) -> EffectView {
    EffectOf::Run { program: shell_name(i), args: seq!["-lc"@, script] }
}

fn run_shell(i: usize, script: &str) -> (r: Effect)
    ensures
        r@ == shell_run(i as int, script@),
{
    let mut args: Vec<String> = Vec::new();
    args.push("-lc".to_string());
    args.push(script.to_string());
    assert(texts(args@) == seq!["-lc"@, script@]);
    EffectOf::Run { program: shell(i), args }
}

/// The states of a search through the login shells, over paths `P`.
#[derive(Debug, PartialEq, Eq)]
pub enum ShellSearchOf<P> {
    /// Nothing has happened yet.
    Start,
    /// The shell of this number was asked.
    Asked(usize),
    /// The shell of this number named this path, which has to be looked at.
    Checking(usize, P),
    /// The search is over.
    Ended(Option<P>),
}

/// The states of a search through the login shells.
pub type ShellSearch = ShellSearchOf<Vec<u8>>;

/// The states of a search through the login shells as the contracts speak of them.
pub type ShellSearchView = ShellSearchOf<Seq<u8>>;

impl ShellSearchOf<Vec<u8>> {
    pub open spec fn view(&self) -> ShellSearchView {
        match *self {
            ShellSearchOf::Start => ShellSearchOf::Start,
            ShellSearchOf::Asked(i) => ShellSearchOf::Asked(i),
            ShellSearchOf::Checking(i, p) => ShellSearchOf::Checking(i, p@),
            ShellSearchOf::Ended(Some(p)) => ShellSearchOf::Ended(Some(p@)),
            ShellSearchOf::Ended(None) => ShellSearchOf::Ended(None),
        }
    }
}

/// Asking the shell of number `i`, as long as there is one.
pub open spec fn ask_for(name: Seq<char>, i: int) -> (ShellSearchView, Seq<EffectView>) {
    if i < 3 {
        (ShellSearchOf::Asked(i as usize), seq![shell_run(i, "command -v "@ + name)])
    } else {
        (ShellSearchOf::Ended(None), seq![])
    }
}

/// The search for a program in the login shells. The first regular file that a shell names by an
/// absolute path is the result. A shell that fails or names no absolute path is passed over; one
/// that cannot be run ends the search.
pub open spec fn shell_search_step(
    name: Seq<char>,
    state: ShellSearchView,
    reply: ReplyView,
) -> (ShellSearchView, Seq<EffectView>) {
    match state {
        ShellSearchOf::Start => ask_for(name, 0),
        ShellSearchOf::Asked(i) => match reply {
            ReplyOf::Command(Some(o)) => if o.success && answer(o).len() > 0 && absolute(
                encode_utf8(answer(o)),
            ) {
                let path = encode_utf8(answer(o));
                (ShellSearchOf::Checking(i, path), seq![EffectOf::IsFile(path)])
            } else {
                ask_for(name, i + 1)
            },
            _ => (ShellSearchOf::Ended(None), seq![]),
        },
        ShellSearchOf::Checking(i, path) => if yes(reply) {
            (ShellSearchOf::Ended(Some(path)), seq![])
        } else {
            ask_for(name, i + 1)
        },
        ShellSearchOf::Ended(found) => (ShellSearchOf::Ended(found), seq![]),
    }
}

fn ask_next(name: &str, last: usize) -> (r: (ShellSearch, Vec<Effect>))
    ensures
        (r.0@, shown(r.1@)) == ask_for(name@, last + 1),
{
    let mut effects: Vec<Effect> = Vec::new();
    let next: ShellSearch;
    if last < 2 {
        effects.push(run_shell(last + 1, concat("command -v ", name).as_str()));
        next = ShellSearchOf::Asked(last + 1);
    } else {
        next = ShellSearchOf::Ended(None);
    }
    assert(shown(effects@) =~= ask_for(name@, last + 1).1);
    (next, effects)
}

/// The next step of the search for `name` in the login shells.
pub fn which_from_login_shell(name: &str, state: ShellSearch, reply: Reply) -> (r: (
    ShellSearch,
    Vec<Effect>,
))
    ensures
        (r.0@, shown(r.1@)) == shell_search_step(name@, state@, reply@),
{
    let mut effects: Vec<Effect> = Vec::new();
    let next: ShellSearch;
    match state {
        ShellSearchOf::Start => {
            effects.push(run_shell(0, concat("command -v ", name).as_str()));
            next = ShellSearchOf::Asked(0);
        },
        ShellSearchOf::Asked(i) => match reply {
            ReplyOf::Command(Some(o)) => {
                let text = written(&o.stdout);
                let path = bytes_of(text.as_str());
                if o.success && !text.as_str().is_empty() && is_absolute(&path) {
                    effects.push(EffectOf::IsFile(copy_of(&path)));
                    next = ShellSearchOf::Checking(i, path);
                } else {
                    return ask_next(name, i);
                }
            },
            _ => {
                next = ShellSearchOf::Ended(None);
            },
        },
        ShellSearchOf::Checking(i, path) => {
            if is_yes(&reply) {
                next = ShellSearchOf::Ended(Some(path));
            } else {
                return ask_next(name, i);
            }
        },
        ShellSearchOf::Ended(found) => {
            next = ShellSearchOf::Ended(found);
        },
    }
    assert(shown(effects@) =~= shell_search_step(name@, state@, reply@).1);
    (next, effects)
}

// ---- the search path ----

/// The states of the search for the user's search path, over texts `T`.
#[derive(Debug, PartialEq, Eq)]
pub enum PathSearchOf<T> {
    /// Nothing has happened yet.
    Start,
    /// The shell of this number was asked.
    Asked(usize),
    /// The search is over.
    Ended(Option<T>),
}

/// The states of the search for the user's search path.
pub type PathSearch = PathSearchOf<String>;

/// The states of the search for the search path as the contracts speak of them.
pub type PathSearchView = PathSearchOf<Seq<char>>;

/// The view of a text that may be missing.
pub open spec fn text_view(t: Option<String>) -> Option<Seq<char>> {
    match t {
        Some(t) => Some(t@),
        None => None,
    }
}

impl PathSearchOf<String> {
    pub open spec fn view(&self) -> PathSearchView {
        match *self {
            PathSearchOf::Start => PathSearchOf::Start,
            PathSearchOf::Asked(i) => PathSearchOf::Asked(i),
            PathSearchOf::Ended(t) => PathSearchOf::Ended(text_view(t)),
        }
    }
}

/// A text, where there is one that is not empty.
pub open spec fn unless_empty(t: Option<Seq<char>>) -> Option<Seq<char>> {
    match t {
        Some(t) => if t.len() > 0 {
            Some(t)
        } else {
            None
        },
        None => None,
    }
}

/// Asking the shell of number `i` for its search path; when there is none left, the launcher's
/// own search path has to do.
pub open spec fn ask_path(own: Option<Seq<char>>, i: int) -> (PathSearchView, Seq<EffectView>) {
    if i < 3 {
        (PathSearchOf::Asked(i as usize), seq![shell_run(i, "printf '%s' \"$PATH\""@)])
    } else {
        (PathSearchOf::Ended(unless_empty(own)), seq![])
    }
}

/// The search for the user's full search path. The first one that a login shell tells is the
/// result. A shell that fails or tells nothing is passed over; where one cannot be run, or none
/// is left, the launcher's own search path is the result, unless it is empty.
pub open spec fn path_search_step(
    own: Option<Seq<char>>,
    state: PathSearchView,
    reply: ReplyView,
) -> (PathSearchView, Seq<EffectView>) {
    match state {
        PathSearchOf::Start => ask_path(own, 0),
        PathSearchOf::Asked(i) => match reply {
            ReplyOf::Command(Some(o)) => if o.success && answer(o).len() > 0 {
                (PathSearchOf::Ended(Some(answer(o))), seq![])
            } else {
                ask_path(own, i + 1)
            },
            _ => (PathSearchOf::Ended(unless_empty(own)), seq![]),
        },
        PathSearchOf::Ended(t) => (PathSearchOf::Ended(t), seq![]),
    }
}

fn own_path(own: Option<String>) -> (r: Option<String>)
    ensures
        text_view(r) == unless_empty(text_view(own)),
{
    match own {
        Some(t) => if t.as_str().is_empty() {
            None
        } else {
            Some(t)
        },
        None => None,
    }
}

/// The next step of the search for the user's full search path. `own` is the launcher's own.
pub fn login_shell_path(own: Option<String>, state: PathSearch, reply: Reply) -> (r: (
    PathSearch,
    Vec<Effect>,
))
    ensures
        (r.0@, shown(r.1@)) == path_search_step(text_view(own), state@, reply@),
{
    let ghost own_view = text_view(own);
    let mut effects: Vec<Effect> = Vec::new();
    let next: PathSearch;
    match state {
        PathSearchOf::Start => {
            effects.push(run_shell(0, "printf '%s' \"$PATH\""));
            next = PathSearchOf::Asked(0);
        },
        PathSearchOf::Asked(i) => match reply {
            ReplyOf::Command(Some(o)) => {
                let text = written(&o.stdout);
                if o.success && !text.as_str().is_empty() {
                    next = PathSearchOf::Ended(Some(text));
                } else if i < 2 {
                    effects.push(run_shell(i + 1, "printf '%s' \"$PATH\""));
                    next = PathSearchOf::Asked(i + 1);
                } else {
                    next = PathSearchOf::Ended(own_path(own));
                }
            },
            _ => {
                next = PathSearchOf::Ended(own_path(own));
            },
        },
        PathSearchOf::Ended(t) => {
            next = PathSearchOf::Ended(t);
        },
    }
    assert(shown(effects@) =~= path_search_step(own_view, state@, reply@).1);
    (next, effects)
}

// ---- the environment ----

/// The variables that the service is given, with their values.
pub open spec fn service_variables(path: Seq<char>) -> Seq<(Seq<char>, Seq<char>)> {
    seq![("PATH"@, path), ("TERM"@, "dumb"@)]
}

/// The states of the making of the environment, over lists of variables `E`.
#[derive(Debug, PartialEq, Eq)]
pub enum EnvSearchOf<E> {
    /// Nothing has happened yet.
    Start,
    /// The search path is being looked for.
    Waiting,
    /// The environment is made.
    Ended(E),
}

/// The states of the making of the environment.
pub type EnvSearch = EnvSearchOf<Vec<(String, String)>>;

/// The states of the making of the environment as the contracts speak of them.
pub type EnvSearchView = EnvSearchOf<Seq<(Seq<char>, Seq<char>)>>;

impl EnvSearchOf<Vec<(String, String)>> {
    pub open spec fn view(&self) -> EnvSearchView {
        match *self {
            EnvSearchOf::Start => EnvSearchOf::Start,
            EnvSearchOf::Waiting => EnvSearchOf::Waiting,
            EnvSearchOf::Ended(v) => EnvSearchOf::Ended(variables(v@)),
        }
    }
}

/// The environment of the service: the search path that was found, or else the launcher's own.
pub open spec fn env_step(
    own: Option<Seq<char>>,
    state: EnvSearchView,
    reply: ReplyView,
) -> (EnvSearchView, Seq<EffectView>) {
    match state {
        EnvSearchOf::Start => (EnvSearchOf::Waiting, seq![EffectOf::LoginShellPath]),
        EnvSearchOf::Waiting => match reply {
            ReplyOf::SearchPath(Some(p)) => (
                EnvSearchOf::Ended(service_variables(p)),
                seq![EffectOf::Log("service_env: 登录 shell PATH="@ + p)],
            ),
            _ => (
                EnvSearchOf::Ended(
                    service_variables(
                        match own {
                            Some(p) => p,
                            None => Seq::empty(),
                        },
                    ),
                ),
                seq![EffectOf::Log("service_env: 登录 shell PATH 解析失败，回退当前进程 PATH"@)],
            ),
        },
        EnvSearchOf::Ended(v) => (EnvSearchOf::Ended(v), seq![]),
    }
}

fn variables_for(path: String) -> (r: Vec<(String, String)>)
    ensures
        variables(r@) == service_variables(path@),
{
    let mut r: Vec<(String, String)> = Vec::new();
    r.push(("PATH".to_string(), path));
    r.push(("TERM".to_string(), "dumb".to_string()));
    assert(variables(r@) == service_variables(path@));
    r
}

/// The next step of the making of the service's environment. `own` is the launcher's own search
/// path.
pub fn service_env(own: Option<String>, state: EnvSearch, reply: Reply) -> (r: (
    EnvSearch,
    Vec<Effect>,
))
    ensures
        (r.0@, shown(r.1@)) == env_step(text_view(own), state@, reply@),
{
    let ghost own_view = text_view(own);
    let mut effects: Vec<Effect> = Vec::new();
    let next: EnvSearch;
    match state {
        EnvSearchOf::Start => {
            effects.push(EffectOf::LoginShellPath);
            next = EnvSearchOf::Waiting;
        },
        EnvSearchOf::Waiting => match reply {
            ReplyOf::SearchPath(Some(p)) => {
                effects.push(EffectOf::Log(concat("service_env: 登录 shell PATH=", p.as_str())));
                next = EnvSearchOf::Ended(variables_for(p));
            },
            _ => {
                effects.push(
                    EffectOf::Log(
                        "service_env: 登录 shell PATH 解析失败，回退当前进程 PATH".to_string(),
                    ),
                );
                next = EnvSearchOf::Ended(
                    variables_for(
                        match own {
                            Some(p) => p,
                            None => String::new(),
                        },
                    ),
                );
            },
        },
        EnvSearchOf::Ended(v) => {
            next = EnvSearchOf::Ended(v);
        },
    }
    assert(shown(effects@) =~= env_step(own_view, state@, reply@).1);
    (next, effects)
}

} // verus!

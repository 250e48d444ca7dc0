//! The service under launchd.

use vstd::prelude::*;
use vstd::utf8::*;

use crate::definition::failure;
use crate::definition::failure_of;
use crate::definition::log;
use crate::definition::looked;
use crate::definition::looked_line;
use crate::definition::Render;
use crate::definition::RenderOf;
use crate::definition::RenderView;
use crate::effect::is_yes;
use crate::effect::outcome;
use crate::effect::outcome_of;
use crate::effect::outcome_view;
use crate::effect::shown;
use crate::effect::text_of_reply;
use crate::effect::text_reply;
use crate::effect::yes;
use crate::effect::Effect;
use crate::effect::EffectOf;
use crate::effect::EffectView;
use crate::effect::OutputView;
use crate::effect::Phase;
use crate::effect::Query;
use crate::effect::Reply;
use crate::effect::ReplyOf;
use crate::effect::ReplyView;
use crate::locations::home_dir;
use crate::locations::home_path;
use crate::locations::log_path;
use crate::locations::service_log_path;
use crate::locations::sub_path;
use crate::locations::Platform;
use crate::locations::Surroundings;
use crate::native::decode;
use crate::native::decoded;
use crate::path::below;
use crate::path::parent;
use crate::path::path_parent;
use crate::plist::keepalive_off;
use crate::plist::keeps_alive;
use crate::plist::plist;
use crate::plist::plist_has_env;
use crate::plist::plist_text;
use crate::plist::read_keepalive;
use crate::plist::read_run_at_load;
use crate::plist::runs_at_load;
use crate::plist::sets_environment;
use crate::plist::without_keepalive;
use crate::plist::LAUNCHD_LABEL;
use crate::text::concat;
use crate::text::concat3;
use crate::text::contains;
use crate::text::decimal;
use crate::text::decimal_of;
use crate::text::has;
use crate::text::texts;
use crate::text::truth;
use crate::text::truth_of;

verus! {

/// What the operations need to know.
#[derive(Debug, PartialEq, Eq)]
pub struct MacService {
    /// Where files go.
    pub env: Surroundings,
    /// The user's number.
    pub uid: String,
    /// Whether the service is to start at login.
    pub autostart: bool,
}

// ---- names ----

/// The file that defines the service.
pub open spec fn definition_path(env: Surroundings) -> Seq<u8> {
    sub_path(sub_path(home_path(env), "Library/LaunchAgents"@), LAUNCHD_LABEL@ + ".plist"@)
}

/// The file that defines the service.
pub fn plist_path(env: &Surroundings) -> (r: Vec<u8>)
    ensures
        r@ == definition_path(*env),
{
    below(
        &below(&home_dir(env), "Library/LaunchAgents"),
        concat(LAUNCHD_LABEL, ".plist").as_str(),
    )
}

/// The launchd domain of the user.
pub open spec fn domain(uid: Seq<char>) -> Seq<char> {
    "gui/"@ + uid
}

/// The service in the launchd domain of the user.
pub open spec fn service_name(uid: Seq<char>) -> Seq<char> {
    "gui/"@ + uid + "/"@ + LAUNCHD_LABEL@
}

/// The launchd domain of the user.
pub fn gui_target(uid: &str) -> (r: String)
    ensures
        r@ == domain(uid@),
{
    concat("gui/", uid)
}

/// The service in the launchd domain of the user.
pub fn service_target(uid: &str) -> (r: String)
    ensures
        r@ == service_name(uid@),
{
    let mut r = concat3("gui/", uid, "/");
    r.append(LAUNCHD_LABEL);
    r
}

// ---- commands ----

/// Taking the definition out of launchd.
pub open spec fn bootout(mac: MacService) -> EffectView {
    EffectOf::Launchctl(seq!["bootout"@, domain(mac.uid@), decoded(definition_path(mac.env))])
}

/// Handing the definition to launchd.
pub open spec fn bootstrap(mac: MacService) -> EffectView {
    EffectOf::Launchctl(seq!["bootstrap"@, domain(mac.uid@), decoded(definition_path(mac.env))])
}

/// Starting the service.
pub open spec fn kickstart(mac: MacService) -> EffectView {
    EffectOf::Launchctl(seq!["kickstart"@, service_name(mac.uid@)])
}

/// Ending the service and starting it again.
pub open spec fn kickstart_anew(mac: MacService) -> EffectView {
    EffectOf::Launchctl(seq!["kickstart"@, "-k"@, service_name(mac.uid@)])
}

/// Asking the service to end.
pub open spec fn terminate(mac: MacService) -> EffectView {
    EffectOf::Launchctl(seq!["kill"@, "SIGTERM"@, service_name(mac.uid@)])
}

/// Asking launchd about the service.
pub open spec fn print(mac: MacService) -> EffectView {
    EffectOf::Launchctl(seq!["print"@, service_name(mac.uid@)])
}

fn launchctl2(a: &str, b: String) -> (r: Effect)
    ensures
        r@ == EffectView::Launchctl(seq![a@, b@]),
{
    let mut args: Vec<String> = Vec::new();
    args.push(a.to_string());
    args.push(b);
    assert(texts(args@) == seq![a@, b@]);
    EffectOf::Launchctl(args)
}

fn launchctl3(a: &str, b: String, c: String) -> (r: Effect)
    ensures
        r@ == EffectView::Launchctl(seq![a@, b@, c@]),
{
    let mut args: Vec<String> = Vec::new();
    args.push(a.to_string());
    args.push(b);
    args.push(c);
    assert(texts(args@) == seq![a@, b@, c@]);
    EffectOf::Launchctl(args)
}

fn do_bootout(mac: &MacService) -> (r: Effect)
    ensures
        r@ == bootout(*mac),
{
    launchctl3("bootout", gui_target(mac.uid.as_str()), decode(&plist_path(&mac.env)))
}

fn do_bootstrap(mac: &MacService) -> (r: Effect)
    ensures
        r@ == bootstrap(*mac),
{
    launchctl3("bootstrap", gui_target(mac.uid.as_str()), decode(&plist_path(&mac.env)))
}

fn do_kickstart(mac: &MacService) -> (r: Effect)
    ensures
        r@ == kickstart(*mac),
{
    launchctl2("kickstart", service_target(mac.uid.as_str()))
}

// ---- is it running? ----

/// Whether launchd says that the service runs.
pub open spec fn says_running(o: OutputView) -> bool {
    o.success && contains(decoded(o.stdout), "state = running"@)
}

/// Whether the service runs: launchd is asked, and its answer is searched.
pub open spec fn running_step(mac: MacService, state: Query, reply: ReplyView) -> (
    Query,
    Seq<EffectView>,
) {
    match state {
        Query::Start => (Query::Waiting, seq![print(mac)]),
        Query::Ended(b) => (Query::Ended(b), seq![]),
        _ => match reply {
            ReplyOf::Command(Some(o)) => (
                Query::Ended(says_running(o)),
                seq![EffectOf::Log("service_is_running: "@ + truth(says_running(o)))],
            ),
            _ => (Query::Ended(false), seq![]),
        },
    }
}

/// Whether what launchd wrote about the service says that it runs.
pub fn tells_running(success: bool, text: &str) -> (r: bool)
    ensures
        r == (success && contains(text@, "state = running"@)),
{
    success && has(text, "state = running")
}

/// The next step of finding out whether the service runs.
pub fn service_is_running(mac: &MacService, state: Query, reply: Reply) -> (r: (
    Query,
    Vec<Effect>,
))
    ensures
        (r.0, shown(r.1@)) == running_step(*mac, state, reply@),
{
    let ghost whole = running_step(*mac, state, reply@);
    let mut effects: Vec<Effect> = Vec::new();
    let next: Query;
    match state {
        Query::Start => {
            effects.push(launchctl2("print", service_target(mac.uid.as_str())));
            next = Query::Waiting;
        },
        Query::Ended(b) => {
            next = Query::Ended(b);
        },
        _ => match reply {
            ReplyOf::Command(Some(o)) => {
                let running = tells_running(o.success, decode(&o.stdout).as_str());
                effects.push(EffectOf::Log(concat("service_is_running: ", truth_of(running))));
                next = Query::Ended(running);
            },
            _ => {
                next = Query::Ended(false);
            },
        },
    }
    assert(shown(effects@) =~= whole.1);
    (next, effects)
}

// ---- does it start at login? ----

/// The text that an answer brought, where it brought one.
pub open spec fn readable_reply(reply: ReplyView) -> Option<Seq<char>> {
    match reply {
        ReplyOf::Text(Ok(t)) => Some(t),
        _ => None,
    }
}

/// Whether the service starts at login: the definition is read.
pub open spec fn autostart_step(mac: MacService, state: Query, reply: ReplyView) -> (
    Query,
    Seq<EffectView>,
) {
    match state {
        Query::Start => (Query::Waiting, seq![EffectOf::ReadText(definition_path(mac.env))]),
        Query::Ended(b) => (Query::Ended(b), seq![]),
        _ => (Query::Ended(runs_at_load(readable_reply(reply))), seq![]),
    }
}

fn login_reply(reply: &Reply) -> (r: bool)
    ensures
        r == runs_at_load(readable_reply(reply@)),
{
    match reply {
        ReplyOf::Text(Ok(t)) => read_run_at_load(Some(t.as_str())),
        _ => read_run_at_load(None),
    }
}

fn alive_reply(reply: &Reply) -> (r: bool)
    ensures
        r == keeps_alive(readable_reply(reply@)),
{
    match reply {
        ReplyOf::Text(Ok(t)) => read_keepalive(Some(t.as_str())),
        _ => read_keepalive(None),
    }
}

fn env_reply(reply: &Reply) -> (r: bool)
    ensures
        r == sets_environment(readable_reply(reply@)),
{
    match reply {
        ReplyOf::Text(Ok(t)) => plist_has_env(Some(t.as_str())),
        _ => plist_has_env(None),
    }
}

/// The next step of finding out whether the service starts at login.
pub fn read_autostart(mac: &MacService, state: Query, reply: Reply) -> (r: (Query, Vec<Effect>))
    ensures
        (r.0, shown(r.1@)) == autostart_step(*mac, state, reply@),
{
    let ghost whole = autostart_step(*mac, state, reply@);
    let mut effects: Vec<Effect> = Vec::new();
    let next: Query;
    match state {
        Query::Start => {
            effects.push(EffectOf::ReadText(plist_path(&mac.env)));
            next = Query::Waiting;
        },
        Query::Ended(b) => {
            next = Query::Ended(b);
        },
        _ => {
            next = Query::Ended(login_reply(&reply));
        },
    }
    assert(shown(effects@) =~= whole.1);
    (next, effects)
}

// ---- making the definition ----

/// The making of the definition: the command line, then the environment, then the text.
pub open spec fn xml_step(
    mac: MacService,
    run_at_load: bool,
    keep_alive: bool,
    state: RenderView,
    reply: ReplyView,
) -> (RenderView, Seq<EffectView>) {
    match state {
        RenderOf::Start => (RenderOf::Program, seq![EffectOf::DshProgram]),
        RenderOf::Program => match reply {
            ReplyOf::Program(Ok(program)) => (
                RenderOf::Env(program),
                seq![EffectOf::ServiceEnv],
            ),
            ReplyOf::Program(Err(e)) => (RenderOf::Ended(Err(e)), seq![]),
            _ => (RenderOf::Ended(Err(Seq::empty())), seq![]),
        },
        RenderOf::Env(program) => match reply {
            ReplyOf::Env(env) => (
                RenderOf::Ended(
                    Ok(
                        plist(
                            program,
                            env,
                            run_at_load,
                            keep_alive,
                            decoded(service_log_path(Platform::MacOs, mac.env)),
                        ),
                    ),
                ),
                seq![],
            ),
            _ => (RenderOf::Ended(Err(Seq::empty())), seq![]),
        },
        RenderOf::Ended(r) => (RenderOf::Ended(r), seq![]),
    }
}

/// The next step of the making of the definition with the two switches.
pub fn plist_xml(
    mac: &MacService,
    run_at_load: bool,
    keep_alive: bool,
    state: Render,
    reply: Reply,
) -> (r: (Render, Vec<Effect>))
    ensures
        (r.0@, shown(r.1@)) == xml_step(*mac, run_at_load, keep_alive, state@, reply@),
{
    let ghost whole = xml_step(*mac, run_at_load, keep_alive, state@, reply@);
    let mut effects: Vec<Effect> = Vec::new();
    let next: Render;
    match state {
        RenderOf::Start => {
            effects.push(EffectOf::DshProgram);
            next = RenderOf::Program;
        },
        RenderOf::Program => match reply {
            ReplyOf::Program(Ok(program)) => {
                effects.push(EffectOf::ServiceEnv);
                next = RenderOf::Env(program);
            },
            ReplyOf::Program(Err(e)) => {
                next = RenderOf::Ended(Err(e));
            },
            _ => {
                next = RenderOf::Ended(Err(String::new()));
            },
        },
        RenderOf::Env(program) => match reply {
            ReplyOf::Env(env) => {
                let log = decode(&log_path(Platform::MacOs, &mac.env));
                next = RenderOf::Ended(
                    Ok(plist_text(&program, &env, run_at_load, keep_alive, log.as_str())),
                );
            },
            _ => {
                next = RenderOf::Ended(Err(String::new()));
            },
        },
        RenderOf::Ended(r) => {
            next = RenderOf::Ended(r);
        },
    }
    assert(shown(effects@) =~= whole.1);
    (next, effects)
}

// ---- writing the definition ----

/// The number of bytes of a text.
pub open spec fn byte_length(t: Seq<char>) -> usize {
    encode_utf8(t).len() as usize
}

/// The states of the writing of a definition, over texts `T`.
#[derive(Debug, PartialEq, Eq)]
pub enum WriteOf<T> {
    /// Nothing has happened yet.
    Start,
    /// The directory is being made.
    Directory,
    /// The definition is being made.
    Text,
    /// A definition of this many bytes is being written.
    File(usize),
    /// The definition is written, or could not be.
    Ended(Result<(), T>),
}

/// The states of the writing of a definition.
pub type Write = WriteOf<String>;

/// The states of the writing of a definition as the contracts speak of them.
pub type WriteView = WriteOf<Seq<char>>;

impl WriteOf<String> {
    pub open spec fn view(&self) -> WriteView {
        match *self {
            WriteOf::Start => WriteOf::Start,
            WriteOf::Directory => WriteOf::Directory,
            WriteOf::Text => WriteOf::Text,
            WriteOf::File(n) => WriteOf::File(n),
            WriteOf::Ended(r) => WriteOf::Ended(outcome_view(r)),
        }
    }
}

/// The writing of a definition that restarts the service after a crash.
pub open spec fn write_step(
    mac: MacService,
    run_at_load: bool,
    state: WriteView,
    reply: ReplyView,
) -> (WriteView, Seq<EffectView>) {
    let make = EffectOf::PlistXml { run_at_load, keep_alive: true };
    match state {
        WriteOf::Start => match path_parent(definition_path(mac.env)) {
            Some(dir) => (WriteOf::Directory, seq![EffectOf::CreateDirs(dir)]),
            None => (WriteOf::Text, seq![make]),
        },
        WriteOf::Directory => match outcome(reply) {
            Ok(_) => (WriteOf::Text, seq![make]),
            Err(e) => (WriteOf::Ended(Err(e)), seq![]),
        },
        WriteOf::Text => match text_reply(reply) {
            Ok(xml) => (
                WriteOf::File(byte_length(xml)),
                seq![EffectOf::WriteText { path: definition_path(mac.env), text: xml }],
            ),
            Err(e) => (WriteOf::Ended(Err(e)), seq![]),
        },
        WriteOf::File(n) => match outcome(reply) {
            Ok(_) => (
                WriteOf::Ended(Ok(())),
                seq![
                    EffectOf::Log(
                        "write_plist: 已写入 plist run_at_load="@ + truth(run_at_load) + " ("@
                            + decimal(n as nat) + ")"@,
                    ),
                ],
            ),
            Err(e) => (
                WriteOf::Ended(Err(e)),
                seq![EffectOf::Log("write_plist: 写入失败 "@ + e)],
            ),
        },
        WriteOf::Ended(r) => (WriteOf::Ended(r), seq![]),
    }
}

fn length_of(t: &str) -> (r: usize)
    ensures
        r == byte_length(t@),
{
    t.len()
}

/// The next step of the writing of a definition that restarts the service after a crash.
pub fn write_plist(mac: &MacService, run_at_load: bool, state: Write, reply: Reply) -> (r: (
    Write,
    Vec<Effect>,
))
    ensures
        (r.0@, shown(r.1@)) == write_step(*mac, run_at_load, state@, reply@),
{
    let ghost whole = write_step(*mac, run_at_load, state@, reply@);
    let mut effects: Vec<Effect> = Vec::new();
    let next: Write;
    match state {
        WriteOf::Start => match parent(&plist_path(&mac.env)) {
            Some(dir) => {
                effects.push(EffectOf::CreateDirs(dir));
                next = WriteOf::Directory;
            },
            None => {
                effects.push(EffectOf::PlistXml { run_at_load, keep_alive: true });
                next = WriteOf::Text;
            },
        },
        WriteOf::Directory => match outcome_of(reply) {
            Ok(_) => {
                effects.push(EffectOf::PlistXml { run_at_load, keep_alive: true });
                next = WriteOf::Text;
            },
            Err(e) => {
                next = WriteOf::Ended(Err(e));
            },
        },
        WriteOf::Text => match text_of_reply(reply) {
            Ok(xml) => {
                next = WriteOf::File(length_of(xml.as_str()));
                effects.push(EffectOf::WriteText { path: plist_path(&mac.env), text: xml });
            },
            Err(e) => {
                next = WriteOf::Ended(Err(e));
            },
        },
        WriteOf::File(n) => match outcome_of(reply) {
            Ok(_) => {
                let mut line = concat3(
                    "write_plist: 已写入 plist run_at_load=",
                    truth_of(run_at_load),
                    " (",
                );
                line.append(decimal_of(n as u64).as_str());
                line.append(")");
                effects.push(EffectOf::Log(line));
                next = WriteOf::Ended(Ok(()));
            },
            Err(e) => {
                effects.push(EffectOf::Log(concat("write_plist: 写入失败 ", e.as_str())));
                next = WriteOf::Ended(Err(e));
            },
        },
        WriteOf::Ended(r) => {
            next = WriteOf::Ended(r);
        },
    }
    assert(shown(effects@) =~= whole.1);
    (next, effects)
}

// ---- switching the restart off ----

/// The states of a rewriting in place, over texts `T`.
#[derive(Debug, PartialEq, Eq)]
pub enum RewriteOf<T> {
    /// Nothing has happened yet.
    Start,
    /// The definition is being read.
    Reading,
    /// The definition is being written.
    Writing,
    /// The definition is rewritten, or could not be.
    Ended(Result<(), T>),
}

/// The states of a rewriting in place.
pub type Rewrite = RewriteOf<String>;

/// The states of a rewriting in place as the contracts speak of them.
pub type RewriteView = RewriteOf<Seq<char>>;

impl RewriteOf<String> {
    pub open spec fn view(&self) -> RewriteView {
        match *self {
            RewriteOf::Start => RewriteOf::Start,
            RewriteOf::Reading => RewriteOf::Reading,
            RewriteOf::Writing => RewriteOf::Writing,
            RewriteOf::Ended(r) => RewriteOf::Ended(outcome_view(r)),
        }
    }
}

/// Turning the restart switch off in the definition as it stands.
pub open spec fn off_step(mac: MacService, state: RewriteView, reply: ReplyView) -> (
    RewriteView,
    Seq<EffectView>,
) {
    match state {
        RewriteOf::Start => (
            RewriteOf::Reading,
            seq![EffectOf::ReadText(definition_path(mac.env))],
        ),
        RewriteOf::Reading => match text_reply(reply) {
            Ok(xml) => match without_keepalive(xml) {
                Ok(new) => (
                    RewriteOf::Writing,
                    seq![EffectOf::WriteText { path: definition_path(mac.env), text: new }],
                ),
                Err(e) => (RewriteOf::Ended(Err(e)), seq![]),
            },
            Err(e) => (RewriteOf::Ended(Err("读取 plist 失败: "@ + e)), seq![]),
        },
        RewriteOf::Writing => match outcome(reply) {
            Ok(_) => (
                RewriteOf::Ended(Ok(())),
                seq![
                    EffectOf::Log(
                        "write_plist_keepalive_off: 已把 KeepAlive 改为 false（文本替换）"@,
                    ),
                ],
            ),
            Err(e) => (RewriteOf::Ended(Err("写入 plist 失败: "@ + e)), seq![]),
        },
        RewriteOf::Ended(r) => (RewriteOf::Ended(r), seq![]),
    }
}

/// The next step of turning the restart switch off in the definition as it stands.
pub fn write_plist_keepalive_off(mac: &MacService, state: Rewrite, reply: Reply) -> (r: (
    Rewrite,
    Vec<Effect>,
))
    ensures
        (r.0@, shown(r.1@)) == off_step(*mac, state@, reply@),
{
    let ghost whole = off_step(*mac, state@, reply@);
    let mut effects: Vec<Effect> = Vec::new();
    let next: Rewrite;
    match state {
        RewriteOf::Start => {
            effects.push(EffectOf::ReadText(plist_path(&mac.env)));
            next = RewriteOf::Reading;
        },
        RewriteOf::Reading => match text_of_reply(reply) {
            Ok(xml) => match keepalive_off(xml.as_str()) {
                Ok(new) => {
                    effects.push(EffectOf::WriteText { path: plist_path(&mac.env), text: new });
                    next = RewriteOf::Writing;
                },
                Err(e) => {
                    next = RewriteOf::Ended(Err(e));
                },
            },
            Err(e) => {
                next = RewriteOf::Ended(Err(concat("读取 plist 失败: ", e.as_str())));
            },
        },
        RewriteOf::Writing => match outcome_of(reply) {
            Ok(_) => {
                effects.push(
                    log("write_plist_keepalive_off: 已把 KeepAlive 改为 false（文本替换）"),
                );
                next = RewriteOf::Ended(Ok(()));
            },
            Err(e) => {
                next = RewriteOf::Ended(Err(concat("写入 plist 失败: ", e.as_str())));
            },
        },
        RewriteOf::Ended(r) => {
            next = RewriteOf::Ended(r);
        },
    }
    assert(shown(effects@) =~= whole.1);
    (next, effects)
}

// ---- seeing to the definition ----

/// The states of seeing to the definition, over texts `T`.
#[derive(Debug, PartialEq, Eq)]
pub enum EnsureOf<T> {
    /// Nothing has happened yet.
    Start,
    /// Is there a definition?
    Looking,
    /// There is none; its directory is being made.
    NewDirectory,
    /// There is none; it is being made.
    NewText,
    /// There is none; one of this many bytes is being written.
    NewFile(usize),
    /// There is one; does it set an environment?
    Inspecting,
    /// It sets none; its start-at-login switch is being read.
    OldLogin,
    /// It sets none and has this start-at-login switch; its restart switch is being read.
    OldAlive(bool),
    /// A new one is being made from the old switches.
    OldText,
    /// A new one is being written over it.
    OldFile,
    /// The new one was handed to launchd; does the service run?
    Reloaded,
    /// The definition is seen to, or could not be.
    Ended(Result<(), T>),
}

/// The states of seeing to the definition.
pub type Ensure = EnsureOf<String>;

/// The states of seeing to the definition as the contracts speak of them.
pub type EnsureView = EnsureOf<Seq<char>>;

impl EnsureOf<String> {
    pub open spec fn view(&self) -> EnsureView {
        match *self {
            EnsureOf::Start => EnsureOf::Start,
            EnsureOf::Looking => EnsureOf::Looking,
            EnsureOf::NewDirectory => EnsureOf::NewDirectory,
            EnsureOf::NewText => EnsureOf::NewText,
            EnsureOf::NewFile(n) => EnsureOf::NewFile(n),
            EnsureOf::Inspecting => EnsureOf::Inspecting,
            EnsureOf::OldLogin => EnsureOf::OldLogin,
            EnsureOf::OldAlive(b) => EnsureOf::OldAlive(b),
            EnsureOf::OldText => EnsureOf::OldText,
            EnsureOf::OldFile => EnsureOf::OldFile,
            EnsureOf::Reloaded => EnsureOf::Reloaded,
            EnsureOf::Ended(r) => EnsureOf::Ended(outcome_view(r)),
        }
    }
}

/// Seeing to the definition. A missing one is written. One that sets no environment is written
/// anew, with its two switches as they are, and handed to launchd. Any other one is left alone.
pub open spec fn ensure_step(mac: MacService, state: EnsureView, reply: ReplyView) -> (
    EnsureView,
    Seq<EffectView>,
) {
    let path = definition_path(mac.env);
    let make = EffectOf::PlistXml { run_at_load: mac.autostart, keep_alive: true };
    match state {
        EnsureOf::Start => (EnsureOf::Looking, seq![EffectOf::Exists(path)]),
        EnsureOf::Looking => if yes(reply) {
            (
                EnsureOf::Inspecting,
                seq![EffectOf::Log(looked_line(path, true)), EffectOf::ReadText(path)],
            )
        } else {
            match path_parent(path) {
                Some(dir) => (
                    EnsureOf::NewDirectory,
                    seq![EffectOf::Log(looked_line(path, false)), EffectOf::CreateDirs(dir)],
                ),
                None => (
                    EnsureOf::NewText,
                    seq![EffectOf::Log(looked_line(path, false)), make],
                ),
            }
        },
        EnsureOf::NewDirectory => match outcome(reply) {
            Ok(_) => (EnsureOf::NewText, seq![make]),
            Err(e) => (EnsureOf::Ended(Err(e)), seq![]),
        },
        EnsureOf::NewText => match text_reply(reply) {
            Ok(xml) => (
                EnsureOf::NewFile(byte_length(xml)),
                seq![EffectOf::WriteText { path, text: xml }],
            ),
            Err(e) => (EnsureOf::Ended(Err(e)), seq![]),
        },
        EnsureOf::NewFile(n) => match outcome(reply) {
            Ok(_) => (
                EnsureOf::Ended(Ok(())),
                seq![
                    EffectOf::Log(
                        "ensure_definition: 已写入 plist ("@ + decimal(n as nat) + ")"@,
                    ),
                ],
            ),
            Err(e) => (
                EnsureOf::Ended(Err(e)),
                seq![EffectOf::Log("ensure_definition: 写入失败 "@ + e)],
            ),
        },
        EnsureOf::Inspecting => if sets_environment(readable_reply(reply)) {
            (EnsureOf::Ended(Ok(())), seq![])
        } else {
            (
                EnsureOf::OldLogin,
                seq![
                    EffectOf::Log(
                        "ensure_definition: 检测到旧版 plist（缺 EnvironmentVariables），升级"@,
                    ),
                    EffectOf::ReadText(path),
                ],
            )
        },
        EnsureOf::OldLogin => (
            EnsureOf::OldAlive(runs_at_load(readable_reply(reply))),
            seq![EffectOf::ReadText(path)],
        ),
        EnsureOf::OldAlive(run_at_load) => (
            EnsureOf::OldText,
            seq![
                EffectOf::PlistXml {
                    run_at_load,
                    keep_alive: keeps_alive(readable_reply(reply)),
                },
            ],
        ),
        EnsureOf::OldText => match text_reply(reply) {
            Ok(xml) => (EnsureOf::OldFile, seq![EffectOf::WriteText { path, text: xml }]),
            Err(e) => (EnsureOf::Ended(Err(e)), seq![]),
        },
        EnsureOf::OldFile => match outcome(reply) {
            Ok(_) => (
                EnsureOf::Reloaded,
                seq![
                    EffectOf::Log("ensure_definition: 旧版 plist 已升级，重新装载"@),
                    bootout(mac),
                    bootstrap(mac),
                    EffectOf::ServiceIsRunning,
                ],
            ),
            Err(e) => (
                EnsureOf::Ended(Err(e)),
                seq![EffectOf::Log("ensure_definition: 升级写入失败 "@ + e)],
            ),
        },
        EnsureOf::Reloaded => if yes(reply) {
            (EnsureOf::Ended(Ok(())), seq![kickstart(mac)])
        } else {
            (EnsureOf::Ended(Ok(())), seq![])
        },
        EnsureOf::Ended(r) => (EnsureOf::Ended(r), seq![]),
    }
}

/// The next step of seeing to the definition.
pub fn ensure_definition(mac: &MacService, state: Ensure, reply: Reply) -> (r: (
    Ensure,
    Vec<Effect>,
))
    ensures
        (r.0@, shown(r.1@)) == ensure_step(*mac, state@, reply@),
{
    let ghost whole = ensure_step(*mac, state@, reply@);
    let path = plist_path(&mac.env);
    let mut effects: Vec<Effect> = Vec::new();
    let next: Ensure;
    match state {
        EnsureOf::Start => {
            effects.push(EffectOf::Exists(path));
            next = EnsureOf::Looking;
        },
        EnsureOf::Looking => {
            if is_yes(&reply) {
                effects.push(EffectOf::Log(looked(&path, true)));
                effects.push(EffectOf::ReadText(path));
                next = EnsureOf::Inspecting;
            } else {
                effects.push(EffectOf::Log(looked(&path, false)));
                match parent(&path) {
                    Some(dir) => {
                        effects.push(EffectOf::CreateDirs(dir));
                        next = EnsureOf::NewDirectory;
                    },
                    None => {
                        effects.push(
                            EffectOf::PlistXml { run_at_load: mac.autostart, keep_alive: true },
                        );
                        next = EnsureOf::NewText;
                    },
                }
            }
        },
        EnsureOf::NewDirectory => match outcome_of(reply) {
            Ok(_) => {
                effects.push(EffectOf::PlistXml { run_at_load: mac.autostart, keep_alive: true });
                next = EnsureOf::NewText;
            },
            Err(e) => {
                next = EnsureOf::Ended(Err(e));
            },
        },
        EnsureOf::NewText => match text_of_reply(reply) {
            Ok(xml) => {
                next = EnsureOf::NewFile(length_of(xml.as_str()));
                effects.push(EffectOf::WriteText { path, text: xml });
            },
            Err(e) => {
                next = EnsureOf::Ended(Err(e));
            },
        },
        EnsureOf::NewFile(n) => match outcome_of(reply) {
            Ok(_) => {
                effects.push(
                    EffectOf::Log(
                        concat3(
                            "ensure_definition: 已写入 plist (",
                            decimal_of(n as u64).as_str(),
                            ")",
                        ),
                    ),
                );
                next = EnsureOf::Ended(Ok(()));
            },
            Err(e) => {
                effects.push(EffectOf::Log(concat("ensure_definition: 写入失败 ", e.as_str())));
                next = EnsureOf::Ended(Err(e));
            },
        },
        EnsureOf::Inspecting => {
            if env_reply(&reply) {
                next = EnsureOf::Ended(Ok(()));
            } else {
                effects.push(
                    log("ensure_definition: 检测到旧版 plist（缺 EnvironmentVariables），升级"),
                );
                effects.push(EffectOf::ReadText(path));
                next = EnsureOf::OldLogin;
            }
        },
        EnsureOf::OldLogin => {
            effects.push(EffectOf::ReadText(path));
            next = EnsureOf::OldAlive(login_reply(&reply));
        },
        EnsureOf::OldAlive(run_at_load) => {
            effects.push(
                EffectOf::PlistXml { run_at_load, keep_alive: alive_reply(&reply) },
            );
            next = EnsureOf::OldText;
        },
        EnsureOf::OldText => match text_of_reply(reply) {
            Ok(xml) => {
                effects.push(EffectOf::WriteText { path, text: xml });
                next = EnsureOf::OldFile;
            },
            Err(e) => {
                next = EnsureOf::Ended(Err(e));
            },
        },
        EnsureOf::OldFile => match outcome_of(reply) {
            Ok(_) => {
                effects.push(log("ensure_definition: 旧版 plist 已升级，重新装载"));
                effects.push(do_bootout(mac));
                effects.push(do_bootstrap(mac));
                effects.push(EffectOf::ServiceIsRunning);
                next = EnsureOf::Reloaded;
            },
            Err(e) => {
                effects.push(
                    EffectOf::Log(concat("ensure_definition: 升级写入失败 ", e.as_str())),
                );
                next = EnsureOf::Ended(Err(e));
            },
        },
        EnsureOf::Reloaded => {
            if is_yes(&reply) {
                effects.push(do_kickstart(mac));
            }
            next = EnsureOf::Ended(Ok(()));
        },
        EnsureOf::Ended(r) => {
            next = EnsureOf::Ended(r);
        },
    }
    assert(shown(effects@) =~= whole.1);
    (next, effects)
}

// ---- starting, stopping, restarting ----

/// Starting the service: a definition that restarts it, out of launchd, into launchd, and a
/// start. A definition that cannot be written keeps nothing back.
pub open spec fn start_step(mac: MacService, state: Phase, reply: ReplyView) -> (
    Phase,
    Seq<EffectView>,
) {
    match state {
        Phase::Start => (
            Phase::Defining,
            seq![
                EffectOf::Log("service_start: begin"@),
                EffectOf::WritePlist { run_at_load: mac.autostart },
            ],
        ),
        Phase::Ended => (Phase::Ended, seq![]),
        _ => (
            Phase::Ended,
            failure("service_start: 写 KeepAlive=true plist 失败 "@, reply) + seq![
                bootout(mac),
                bootstrap(mac),
                kickstart(mac),
                EffectOf::Log("service_start: end"@),
            ],
        ),
    }
}

/// The next step of starting the service.
pub fn service_start(mac: &MacService, state: Phase, reply: Reply) -> (r: (Phase, Vec<Effect>))
    ensures
        (r.0, shown(r.1@)) == start_step(*mac, state, reply@),
{
    let ghost whole = start_step(*mac, state, reply@);
    let mut effects: Vec<Effect> = Vec::new();
    let next: Phase;
    match state {
        Phase::Start => {
            effects.push(log("service_start: begin"));
            effects.push(EffectOf::WritePlist { run_at_load: mac.autostart });
            next = Phase::Defining;
        },
        Phase::Ended => {
            next = Phase::Ended;
        },
        _ => {
            effects = failure_of("service_start: 写 KeepAlive=true plist 失败 ", reply);
            effects.push(do_bootout(mac));
            effects.push(do_bootstrap(mac));
            effects.push(do_kickstart(mac));
            effects.push(log("service_start: end"));
            next = Phase::Ended;
        },
    }
    assert(shown(effects@) =~= whole.1);
    (next, effects)
}

/// Stopping the service: out of launchd, the restart switch turned off, into launchd, and a
/// request to end where it still runs.
pub open spec fn stop_step(mac: MacService, state: Phase, reply: ReplyView) -> (
    Phase,
    Seq<EffectView>,
) {
    match state {
        Phase::Start => (
            Phase::Defining,
            seq![
                EffectOf::Log("service_stop: begin"@),
                bootout(mac),
                EffectOf::WritePlistKeepaliveOff,
            ],
        ),
        Phase::Defining => (
            Phase::Checking,
            failure("service_stop: 写 KeepAlive=false plist 失败 "@, reply) + seq![
                bootstrap(mac),
                EffectOf::ServiceIsRunning,
            ],
        ),
        Phase::Checking => if yes(reply) {
            (Phase::Ended, seq![terminate(mac), EffectOf::Log("service_stop: end"@)])
        } else {
            (Phase::Ended, seq![EffectOf::Log("service_stop: end"@)])
        },
        Phase::Ended => (Phase::Ended, seq![]),
    }
}

/// The next step of stopping the service.
pub fn service_stop(mac: &MacService, state: Phase, reply: Reply) -> (r: (Phase, Vec<Effect>))
    ensures
        (r.0, shown(r.1@)) == stop_step(*mac, state, reply@),
{
    let ghost whole = stop_step(*mac, state, reply@);
    let mut effects: Vec<Effect> = Vec::new();
    let next: Phase;
    match state {
        Phase::Start => {
            effects.push(log("service_stop: begin"));
            effects.push(do_bootout(mac));
            effects.push(EffectOf::WritePlistKeepaliveOff);
            next = Phase::Defining;
        },
        Phase::Defining => {
            effects = failure_of("service_stop: 写 KeepAlive=false plist 失败 ", reply);
            effects.push(do_bootstrap(mac));
            effects.push(EffectOf::ServiceIsRunning);
            next = Phase::Checking;
        },
        Phase::Checking => {
            if is_yes(&reply) {
                effects.push(
                    launchctl3(
                        "kill",
                        "SIGTERM".to_string(),
                        service_target(mac.uid.as_str()),
                    ),
                );
            }
            effects.push(log("service_stop: end"));
            next = Phase::Ended;
        },
        Phase::Ended => {
            next = Phase::Ended;
        },
    }
    assert(shown(effects@) =~= whole.1);
    (next, effects)
}

/// Restarting the service: a definition that restarts it, then an end and a start in one.
pub open spec fn restart_step(mac: MacService, state: Phase, reply: ReplyView) -> (
    Phase,
    Seq<EffectView>,
) {
    match state {
        Phase::Start => (
            Phase::Defining,
            seq![
                EffectOf::Log("service_restart: begin"@),
                EffectOf::WritePlist { run_at_load: mac.autostart },
            ],
        ),
        Phase::Ended => (Phase::Ended, seq![]),
        _ => (
            Phase::Ended,
            failure("service_restart: 写 KeepAlive=true plist 失败 "@, reply) + seq![
                kickstart_anew(mac),
                EffectOf::Log("service_restart: end"@),
            ],
        ),
    }
}

/// The next step of restarting the service.
pub fn service_restart(mac: &MacService, state: Phase, reply: Reply) -> (r: (
    Phase,
    Vec<Effect>,
))
    ensures
        (r.0, shown(r.1@)) == restart_step(*mac, state, reply@),
{
    let ghost whole = restart_step(*mac, state, reply@);
    let mut effects: Vec<Effect> = Vec::new();
    let next: Phase;
    match state {
        Phase::Start => {
            effects.push(log("service_restart: begin"));
            effects.push(EffectOf::WritePlist { run_at_load: mac.autostart });
            next = Phase::Defining;
        },
        Phase::Ended => {
            next = Phase::Ended;
        },
        _ => {
            effects = failure_of("service_restart: 写 KeepAlive=true plist 失败 ", reply);
            effects.push(
                launchctl3("kickstart", "-k".to_string(), service_target(mac.uid.as_str())),
            );
            effects.push(log("service_restart: end"));
            next = Phase::Ended;
        },
    }
    assert(shown(effects@) =~= whole.1);
    (next, effects)
}

// ---- starting at login ----

/// Choosing whether the service starts at login: the choice is remembered and written, and the
/// definition goes out of launchd and in again; a running service is started again.
pub open spec fn set_autostart_step(
    mac: MacService,
    enabled: bool,
    state: Phase,
    reply: ReplyView,
) -> (Phase, Seq<EffectView>) {
    match state {
        Phase::Start => (
            Phase::Defining,
            seq![
                EffectOf::StoreAutostart(enabled),
                EffectOf::WritePlist { run_at_load: enabled },
            ],
        ),
        Phase::Defining => (
            Phase::Checking,
            (match outcome(reply) {
                Ok(_) => seq![],
                Err(e) => seq![
                    EffectOf::Warn("dsh-launcher: 写入 LaunchAgent 失败: "@ + e),
                    EffectOf::Log("set_autostart: 写入失败 "@ + e),
                ],
            }) + seq![bootout(mac), bootstrap(mac), EffectOf::ServiceIsRunning],
        ),
        Phase::Checking => if yes(reply) {
            (Phase::Ended, seq![kickstart(mac)])
        } else {
            (Phase::Ended, seq![])
        },
        Phase::Ended => (Phase::Ended, seq![]),
    }
}

/// The next step of choosing whether the service starts at login.
pub fn set_autostart(mac: &MacService, enabled: bool, state: Phase, reply: Reply) -> (r: (
    Phase,
    Vec<Effect>,
))
    ensures
        (r.0, shown(r.1@)) == set_autostart_step(*mac, enabled, state, reply@),
{
    let ghost whole = set_autostart_step(*mac, enabled, state, reply@);
    let mut effects: Vec<Effect> = Vec::new();
    let next: Phase;
    match state {
        Phase::Start => {
            effects.push(EffectOf::StoreAutostart(enabled));
            effects.push(EffectOf::WritePlist { run_at_load: enabled });
            next = Phase::Defining;
        },
        Phase::Defining => {
            match outcome_of(reply) {
                Ok(_) => {},
                Err(e) => {
                    effects.push(
                        EffectOf::Warn(
                            concat("dsh-launcher: 写入 LaunchAgent 失败: ", e.as_str()),
                        ),
                    );
                    effects.push(EffectOf::Log(concat("set_autostart: 写入失败 ", e.as_str())));
                },
            }
            effects.push(do_bootout(mac));
            effects.push(do_bootstrap(mac));
            effects.push(EffectOf::ServiceIsRunning);
            next = Phase::Checking;
        },
        Phase::Checking => {
            if is_yes(&reply) {
                effects.push(do_kickstart(mac));
            }
            next = Phase::Ended;
        },
        Phase::Ended => {
            next = Phase::Ended;
        },
    }
    assert(shown(effects@) =~= whole.1);
    (next, effects)
}

} // verus!

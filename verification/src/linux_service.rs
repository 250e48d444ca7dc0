//! The service under systemd.

use vstd::prelude::*;

use crate::definition::failure;
use crate::definition::failure_of;
use crate::definition::log;
use crate::definition::looked;
use crate::definition::looked_line;
use crate::definition::Render;
use crate::definition::RenderOf;
use crate::definition::RenderView;
use crate::effect::is_yes;
use crate::effect::outcome;
use crate::effect::outcome_of;
use crate::effect::outcome_view;
use crate::effect::shown;
use crate::effect::text_of_reply;
use crate::effect::text_reply;
use crate::effect::variables;
use crate::effect::yes;
use crate::effect::Effect;
use crate::effect::EffectOf;
use crate::effect::EffectView;
use crate::effect::Phase;
use crate::effect::Query;
use crate::effect::Reply;
use crate::effect::ReplyOf;
use crate::effect::ReplyView;
use crate::locations::config_root;
use crate::locations::config_root_path;
use crate::locations::log_path;
use crate::locations::service_log_path;
use crate::locations::sub_path;
use crate::locations::Platform;
use crate::locations::Surroundings;
use crate::native::decode;
use crate::native::decoded;
use crate::native::quotation;
use crate::native::quote;
use crate::path::below;
use crate::path::parent;
use crate::path::path_parent;
use crate::search::service_variables;
use crate::text::concat;
use crate::text::concat3;
use crate::text::contains;
use crate::text::has;
use crate::text::join;
use crate::text::joined;
use crate::text::occurs_at;
use crate::text::texts;
use crate::text::truth;
use crate::text::truth_of;

verus! {

/// The name of the unit that defines the service.
pub const UNIT_NAME: &'static str = "dsh-launcher-web.service";

/// What the operations need to know.
#[derive(Debug, PartialEq, Eq)]
pub struct LinuxService {
    /// Where files go.
    pub env: Surroundings,
    /// Whether the service is to start at login.
    pub autostart: bool,
}

/// The file that defines the service.
pub open spec fn definition_path(env: Surroundings) -> Seq<u8> {
    sub_path(
        sub_path(config_root_path(Platform::Linux, env), "systemd/user"@),
        UNIT_NAME@,
    )
}

/// The file that defines the service.
pub fn unit_path(env: &Surroundings) -> (r: Vec<u8>)
    ensures
        r@ == definition_path(*env),
{
    below(&below(&config_root(Platform::Linux, env), "systemd/user"), UNIT_NAME)
}

// ---- the unit ----

/// One variable with its value.
pub open spec fn variable_line(v: (Seq<char>, Seq<char>)) -> Seq<char> {
    "Environment="@ + v.0 + "="@ + v.1
}

/// The unit for a command of quoted words, its environment and the log file. The command is one
/// line, with a space between its words.
pub open spec fn unit(
    words: Seq<Seq<char>>,
    env: Seq<(Seq<char>, Seq<char>)>,
    log: Seq<char>,
) -> Seq<char> {
    "# 由 dsh-launcher 自动生成，请勿手改。\n[Unit]\nDescription=DSH web service (dsh --profile web)\nAfter=network-online.target\nWants=network-online.target\n\n[Service]\nType=simple\nExecStart="@
        + join(words, " "@) + "\n"@ + join(
        env.map_values(|v: (Seq<char>, Seq<char>)| variable_line(v)),
        "\n"@,
    ) + "\nRestart=always\nRestartSec=2\nStandardOutput=append:"@ + log
        + "\nStandardError=append:"@ + log + "\n\n[Install]\nWantedBy=default.target\n"@
}

fn variable_lines(env: &Vec<(String, String)>) -> (r: String)
    ensures
        r@ == join(
            variables(env@).map_values(|v: (Seq<char>, Seq<char>)| variable_line(v)),
            "\n"@,
        ),
{
    let mut lines: Vec<String> = Vec::new();
    let mut i: usize = 0;
    while i < env.len()
        invariant
            0 <= i <= env@.len(),
            lines@.len() == i,
            forall|k: int| 0 <= k < i ==> lines@[k]@ == variable_line((env@[k].0@, env@[k].1@)),
        decreases env@.len() - i,
    {
        let mut line = concat3("Environment=", env[i].0.as_str(), "=");
        line.append(env[i].1.as_str());
        lines.push(line);
        i = i + 1;
    }
    assert(texts(lines@) == variables(env@).map_values(
        |v: (Seq<char>, Seq<char>)| variable_line(v),
    ));
    joined(&lines, "\n")
}

/// The unit for a command of quoted words, its environment and the log file.
pub fn unit_text(words: &Vec<String>, env: &Vec<(String, String)>, log: &str) -> (r: String)
    ensures
        r@ == unit(texts(words@), variables(env@), log@),
{
    let mut r = String::new();
    r.append(
        "# 由 dsh-launcher 自动生成，请勿手改。\n[Unit]\nDescription=DSH web service (dsh --profile web)\nAfter=network-online.target\nWants=network-online.target\n\n[Service]\nType=simple\nExecStart=",
    );
    r.append(joined(words, " ").as_str());
    r.append("\n");
    r.append(variable_lines(env).as_str());
    r.append("\nRestart=always\nRestartSec=2\nStandardOutput=append:");
    r.append(log);
    r.append("\nStandardError=append:");
    r.append(log);
    r.append("\n\n[Install]\nWantedBy=default.target\n");
    r
}

/// The quoted forms of a list of words.
pub open spec fn all_quoted(words: Seq<Seq<char>>) -> Seq<Seq<char>> {
    words.map_values(|w: Seq<char>| quotation(w))
}

fn quote_all(words: &Vec<String>) -> (r: Vec<String>)
    ensures
        texts(r@) == all_quoted(texts(words@)),
{
    let mut r: Vec<String> = Vec::new();
    let mut i: usize = 0;
    while i < words.len()
        invariant
            0 <= i <= words@.len(),
            r@.len() == i,
            forall|k: int| 0 <= k < i ==> r@[k]@ == quotation(words@[k]@),
        decreases words@.len() - i,
    {
        r.push(quote(words[i].as_str()));
        i = i + 1;
    }
    assert(texts(r@) == all_quoted(texts(words@)));
    r
}

/// Whether a unit hands the service a search path.
pub open spec fn sets_path(unit: Seq<char>) -> bool {
    contains(unit, "Environment=PATH="@)
}

/// A unit as the launcher writes it hands the service a search path.
pub proof fn law_unit_sets_path(words: Seq<Seq<char>>, path: Seq<char>, log: Seq<char>)
    ensures
        sets_path(unit(words, service_variables(path), log)),
{
    let head = "# 由 dsh-launcher 自动生成，请勿手改。\n[Unit]\nDescription=DSH web service (dsh --profile web)\nAfter=network-online.target\nWants=network-online.target\n\n[Service]\nType=simple\nExecStart="@
        + join(words, " "@) + "\n"@;
    let list = service_variables(path).map_values(|v: (Seq<char>, Seq<char>)| variable_line(v));
    let a = variable_line(("PATH"@, path));
    let b = variable_line(("TERM"@, "dumb"@));
    assert(list == seq![a, b]);
    assert(list.drop_last() == seq![a]);
    assert(join(seq![a], "\n"@) == a);
    assert(join(list, "\n"@) == a + "\n"@ + b);
    let key = "Environment=PATH="@;
    assert(key == "Environment="@ + "PATH"@ + "="@) by {
        reveal_strlit("Environment=PATH=");
        reveal_strlit("Environment=");
        reveal_strlit("PATH");
        reveal_strlit("=");
    }
    let s = unit(words, service_variables(path), log);
    let i = head.len() as int;
    assert(a == key + path);
    assert(s.subrange(i, i + key.len()) == key);
    assert(occurs_at(s, key, i));
}

// ---- commands ----

fn systemctl1(a: &str) -> (r: Effect)
    ensures
        r@ == EffectView::Systemctl(seq![a@]),
{
    let mut args: Vec<String> = Vec::new();
    args.push(a.to_string());
    assert(texts(args@) == seq![a@]);
    EffectOf::Systemctl(args)
}

fn systemctl2(a: &str, b: &str) -> (r: Effect)
    ensures
        r@ == EffectView::Systemctl(seq![a@, b@]),
{
    let mut args: Vec<String> = Vec::new();
    args.push(a.to_string());
    args.push(b.to_string());
    assert(texts(args@) == seq![a@, b@]);
    EffectOf::Systemctl(args)
}

/// Having systemd read its units anew.
pub open spec fn daemon_reload() -> EffectView {
    EffectOf::Systemctl(seq!["daemon-reload"@])
}

/// Having systemd do something to the service.
pub open spec fn unit_command(verb: Seq<char>) -> EffectView {
    EffectOf::Systemctl(seq![verb, UNIT_NAME@])
}

/// Whether a command ran and ended with success.
pub open spec fn succeeded(reply: ReplyView) -> bool {
    match reply {
        ReplyOf::Command(Some(o)) => o.success,
        _ => false,
    }
}

fn has_succeeded(reply: &Reply) -> (r: bool)
    ensures
        r == succeeded(reply@),
{
    match reply {
        ReplyOf::Command(Some(o)) => o.success,
        _ => false,
    }
}

// ---- is it running, does it start at login? ----

/// Whether the service runs: systemd is asked.
pub open spec fn running_step(state: Query, reply: ReplyView) -> (Query, Seq<EffectView>) {
    match state {
        Query::Start => (
            Query::Waiting,
            seq![EffectOf::Systemctl(seq!["is-active"@, "--quiet"@, UNIT_NAME@])],
        ),
        Query::Ended(b) => (Query::Ended(b), seq![]),
        _ => (Query::Ended(succeeded(reply)), seq![]),
    }
}

/// The next step of finding out whether the service runs.
pub fn service_is_running(state: Query, reply: Reply) -> (r: (Query, Vec<Effect>))
    ensures
        (r.0, shown(r.1@)) == running_step(state, reply@),
{
    let ghost whole = running_step(state, reply@);
    let mut effects: Vec<Effect> = Vec::new();
    let next: Query;
    match state {
        Query::Start => {
            let mut args: Vec<String> = Vec::new();
            args.push("is-active".to_string());
            args.push("--quiet".to_string());
            args.push(UNIT_NAME.to_string());
            assert(texts(args@) == seq!["is-active"@, "--quiet"@, UNIT_NAME@]);
            effects.push(EffectOf::Systemctl(args));
            next = Query::Waiting;
        },
        Query::Ended(b) => {
            next = Query::Ended(b);
        },
        _ => {
            next = Query::Ended(has_succeeded(&reply));
        },
    }
    assert(shown(effects@) =~= whole.1);
    (next, effects)
}

/// Whether the service starts at login: it does where there is a unit and systemd says that it
/// is enabled.
pub open spec fn autostart_step(linux: LinuxService, state: Query, reply: ReplyView) -> (
    Query,
    Seq<EffectView>,
) {
    match state {
        Query::Start => (Query::Waiting, seq![EffectOf::Exists(definition_path(linux.env))]),
        Query::Waiting => if yes(reply) {
            (Query::Asking, seq![unit_command("is-enabled"@)])
        } else {
            (Query::Ended(false), seq![])
        },
        Query::Asking => (Query::Ended(succeeded(reply)), seq![]),
        Query::Ended(b) => (Query::Ended(b), seq![]),
    }
}

/// The next step of finding out whether the service starts at login.
pub fn read_autostart(linux: &LinuxService, state: Query, reply: Reply) -> (r: (
    Query,
    Vec<Effect>,
))
    ensures
        (r.0, shown(r.1@)) == autostart_step(*linux, state, reply@),
{
    let ghost whole = autostart_step(*linux, state, reply@);
    let mut effects: Vec<Effect> = Vec::new();
    let next: Query;
    match state {
        Query::Start => {
            effects.push(EffectOf::Exists(unit_path(&linux.env)));
            next = Query::Waiting;
        },
        Query::Waiting => {
            if is_yes(&reply) {
                effects.push(systemctl2("is-enabled", UNIT_NAME));
                next = Query::Asking;
            } else {
                next = Query::Ended(false);
            }
        },
        Query::Asking => {
            next = Query::Ended(has_succeeded(&reply));
        },
        Query::Ended(b) => {
            next = Query::Ended(b);
        },
    }
    assert(shown(effects@) =~= whole.1);
    (next, effects)
}

// ---- making and writing the unit ----

/// The making of the unit: the command line, then the environment, then the text. Whether the
/// service is enabled is no part of it.
pub open spec fn content_step(linux: LinuxService, state: RenderView, reply: ReplyView) -> (
    RenderView,
    Seq<EffectView>,
) {
    match state {
        RenderOf::Start => (RenderOf::Program, seq![EffectOf::DshProgram]),
        RenderOf::Program => match reply {
            ReplyOf::Program(Ok(program)) => (
                RenderOf::Env(program),
                seq![EffectOf::ServiceEnv],
            ),
            ReplyOf::Program(Err(e)) => (RenderOf::Ended(Err(e)), seq![]),
            _ => (RenderOf::Ended(Err(Seq::empty())), seq![]),
        },
        RenderOf::Env(program) => match reply {
            ReplyOf::Env(env) => (
                RenderOf::Ended(
                    Ok(
                        unit(
                            all_quoted(program),
                            env,
                            decoded(service_log_path(Platform::Linux, linux.env)),
                        ),
                    ),
                ),
                seq![],
            ),
            _ => (RenderOf::Ended(Err(Seq::empty())), seq![]),
        },
        RenderOf::Ended(r) => (RenderOf::Ended(r), seq![]),
    }
}

/// The next step of the making of the unit.
pub fn unit_content(linux: &LinuxService, state: Render, reply: Reply) -> (r: (
    Render,
    Vec<Effect>,
))
    ensures
        (r.0@, shown(r.1@)) == content_step(*linux, state@, reply@),
{
    let ghost whole = content_step(*linux, state@, reply@);
    let mut effects: Vec<Effect> = Vec::new();
    let next: Render;
    match state {
        RenderOf::Start => {
            effects.push(EffectOf::DshProgram);
            next = RenderOf::Program;
        },
        RenderOf::Program => match reply {
            ReplyOf::Program(Ok(program)) => {
                effects.push(EffectOf::ServiceEnv);
                next = RenderOf::Env(program);
            },
            ReplyOf::Program(Err(e)) => {
                next = RenderOf::Ended(Err(e));
            },
            _ => {
                next = RenderOf::Ended(Err(String::new()));
            },
        },
        RenderOf::Env(program) => match reply {
            ReplyOf::Env(env) => {
                let log_file = decode(&log_path(Platform::Linux, &linux.env));
                next = RenderOf::Ended(
                    Ok(unit_text(&quote_all(&program), &env, log_file.as_str())),
                );
            },
            _ => {
                next = RenderOf::Ended(Err(String::new()));
            },
        },
        RenderOf::Ended(r) => {
            next = RenderOf::Ended(r);
        },
    }
    assert(shown(effects@) =~= whole.1);
    (next, effects)
}

/// The states of the writing of the unit, over texts `T`.
#[derive(Debug, PartialEq, Eq)]
pub enum WriteOf<T> {
    /// Nothing has happened yet.
    Start,
    /// The directory is being made.
    Directory,
    /// The unit is being made.
    Text,
    /// The unit is being written.
    File,
    /// The unit is written, or could not be.
    Ended(Result<(), T>),
}

/// The states of the writing of the unit.
pub type Write = WriteOf<String>;

/// The states of the writing of the unit as the contracts speak of them.
pub type WriteView = WriteOf<Seq<char>>;

impl WriteOf<String> {
    pub open spec fn view(&self) -> WriteView {
        match *self {
            WriteOf::Start => WriteOf::Start,
            WriteOf::Directory => WriteOf::Directory,
            WriteOf::Text => WriteOf::Text,
            WriteOf::File => WriteOf::File,
            WriteOf::Ended(r) => WriteOf::Ended(outcome_view(r)),
        }
    }
}

/// The writing of the unit.
pub open spec fn write_step(
    linux: LinuxService,
    enabled: bool,
    state: WriteView,
    reply: ReplyView,
) -> (WriteView, Seq<EffectView>) {
    let path = definition_path(linux.env);
    let make = EffectOf::UnitContent { enabled };
    match state {
        WriteOf::Start => match path_parent(path) {
            Some(dir) => (WriteOf::Directory, seq![EffectOf::CreateDirs(dir)]),
            None => (WriteOf::Text, seq![make]),
        },
        WriteOf::Directory => match outcome(reply) {
            Ok(_) => (WriteOf::Text, seq![make]),
            Err(e) => (WriteOf::Ended(Err(e)), seq![]),
        },
        WriteOf::Text => match text_reply(reply) {
            Ok(text) => (WriteOf::File, seq![EffectOf::WriteText { path, text }]),
            Err(e) => (WriteOf::Ended(Err(e)), seq![]),
        },
        WriteOf::File => match outcome(reply) {
            Ok(_) => (
                WriteOf::Ended(Ok(())),
                seq![
                    EffectOf::Log(
                        "write_unit: 已写入 "@ + decoded(path) + " enabled="@ + truth(enabled),
                    ),
                ],
            ),
            Err(e) => (WriteOf::Ended(Err("写入 systemd unit 失败: "@ + e)), seq![]),
        },
        WriteOf::Ended(r) => (WriteOf::Ended(r), seq![]),
    }
}

/// The next step of the writing of the unit.
pub fn write_unit(linux: &LinuxService, enabled: bool, state: Write, reply: Reply) -> (r: (
    Write,
    Vec<Effect>,
))
    ensures
        (r.0@, shown(r.1@)) == write_step(*linux, enabled, state@, reply@),
{
    let ghost whole = write_step(*linux, enabled, state@, reply@);
    let path = unit_path(&linux.env);
    let mut effects: Vec<Effect> = Vec::new();
    let next: Write;
    match state {
        WriteOf::Start => match parent(&path) {
            Some(dir) => {
                effects.push(EffectOf::CreateDirs(dir));
                next = WriteOf::Directory;
            },
            None => {
                effects.push(EffectOf::UnitContent { enabled });
                next = WriteOf::Text;
            },
        },
        WriteOf::Directory => match outcome_of(reply) {
            Ok(_) => {
                effects.push(EffectOf::UnitContent { enabled });
                next = WriteOf::Text;
            },
            Err(e) => {
                next = WriteOf::Ended(Err(e));
            },
        },
        WriteOf::Text => match text_of_reply(reply) {
            Ok(text) => {
                effects.push(EffectOf::WriteText { path, text });
                next = WriteOf::File;
            },
            Err(e) => {
                next = WriteOf::Ended(Err(e));
            },
        },
        WriteOf::File => match outcome_of(reply) {
            Ok(_) => {
                let mut line = concat3("write_unit: 已写入 ", decode(&path).as_str(), " enabled=");
                line.append(truth_of(enabled));
                effects.push(EffectOf::Log(line));
                next = WriteOf::Ended(Ok(()));
            },
            Err(e) => {
                next = WriteOf::Ended(Err(concat("写入 systemd unit 失败: ", e.as_str())));
            },
        },
        WriteOf::Ended(r) => {
            next = WriteOf::Ended(r);
        },
    }
    assert(shown(effects@) =~= whole.1);
    (next, effects)
}

// ---- seeing to the unit ----

/// The states of seeing to the unit, over texts `T`.
#[derive(Debug, PartialEq, Eq)]
pub enum EnsureOf<T> {
    /// Nothing has happened yet.
    Start,
    /// Is there a unit?
    Looking,
    /// There is none; it is being written.
    New,
    /// There is one; does it hand the service a search path?
    Inspecting,
    /// It does not; a new one is being written over it.
    Old,
    /// Systemd has read the new one; does the service run?
    Reloaded,
    /// The unit is seen to, or could not be.
    Ended(Result<(), T>),
}

/// The states of seeing to the unit.
pub type Ensure = EnsureOf<String>;

/// The states of seeing to the unit as the contracts speak of them.
pub type EnsureView = EnsureOf<Seq<char>>;

impl EnsureOf<String> {
    pub open spec fn view(&self) -> EnsureView {
        match *self {
            EnsureOf::Start => EnsureOf::Start,
            EnsureOf::Looking => EnsureOf::Looking,
            EnsureOf::New => EnsureOf::New,
            EnsureOf::Inspecting => EnsureOf::Inspecting,
            EnsureOf::Old => EnsureOf::Old,
            EnsureOf::Reloaded => EnsureOf::Reloaded,
            EnsureOf::Ended(r) => EnsureOf::Ended(outcome_view(r)),
        }
    }
}

/// Seeing to the unit. A missing one is written. One without a search path is written anew, and
/// a running service is restarted with it. Any other one is left alone.
pub open spec fn ensure_step(linux: LinuxService, state: EnsureView, reply: ReplyView) -> (
    EnsureView,
    Seq<EffectView>,
) {
    let path = definition_path(linux.env);
    let write = EffectOf::WriteUnit { enabled: linux.autostart };
    match state {
        EnsureOf::Start => (EnsureOf::Looking, seq![EffectOf::Exists(path)]),
        EnsureOf::Looking => if yes(reply) {
            (
                EnsureOf::Inspecting,
                seq![EffectOf::Log(looked_line(path, true)), EffectOf::ReadText(path)],
            )
        } else {
            (EnsureOf::New, seq![EffectOf::Log(looked_line(path, false)), write])
        },
        EnsureOf::New => (EnsureOf::Ended(outcome(reply)), seq![]),
        EnsureOf::Inspecting => match text_reply(reply) {
            Ok(text) if sets_path(text) => (EnsureOf::Ended(Ok(())), seq![]),
            _ => (
                EnsureOf::Old,
                seq![
                    EffectOf::Log(
                        "ensure_definition: 检测到旧版 unit（缺 Environment=PATH=），升级"@,
                    ),
                    write,
                ],
            ),
        },
        EnsureOf::Old => match outcome(reply) {
            Ok(_) => (EnsureOf::Reloaded, seq![daemon_reload(), EffectOf::ServiceIsRunning]),
            Err(e) => (EnsureOf::Ended(Err(e)), seq![]),
        },
        EnsureOf::Reloaded => if yes(reply) {
            (EnsureOf::Ended(Ok(())), seq![unit_command("restart"@)])
        } else {
            (EnsureOf::Ended(Ok(())), seq![])
        },
        EnsureOf::Ended(r) => (EnsureOf::Ended(r), seq![]),
    }
}

fn sets_path_reply(reply: Reply) -> (r: bool)
    ensures
        r == (text_reply(reply@) is Ok && sets_path(text_reply(reply@)->Ok_0)),
{
    match text_of_reply(reply) {
        Ok(text) => has(text.as_str(), "Environment=PATH="),
        Err(_) => false,
    }
}

/// The next step of seeing to the unit.
pub fn ensure_definition(linux: &LinuxService, state: Ensure, reply: Reply) -> (r: (
    Ensure,
    Vec<Effect>,
))
    ensures
        (r.0@, shown(r.1@)) == ensure_step(*linux, state@, reply@),
{
    let ghost whole = ensure_step(*linux, state@, reply@);
    let path = unit_path(&linux.env);
    let mut effects: Vec<Effect> = Vec::new();
    let next: Ensure;
    match state {
        EnsureOf::Start => {
            effects.push(EffectOf::Exists(path));
            next = EnsureOf::Looking;
        },
        EnsureOf::Looking => {
            if is_yes(&reply) {
                effects.push(EffectOf::Log(looked(&path, true)));
                effects.push(EffectOf::ReadText(path));
                next = EnsureOf::Inspecting;
            } else {
                effects.push(EffectOf::Log(looked(&path, false)));
                effects.push(EffectOf::WriteUnit { enabled: linux.autostart });
                next = EnsureOf::New;
            }
        },
        EnsureOf::New => {
            next = EnsureOf::Ended(outcome_of(reply));
        },
        EnsureOf::Inspecting => {
            if sets_path_reply(reply) {
                next = EnsureOf::Ended(Ok(()));
            } else {
                effects.push(
                    log("ensure_definition: 检测到旧版 unit（缺 Environment=PATH=），升级"),
                );
                effects.push(EffectOf::WriteUnit { enabled: linux.autostart });
                next = EnsureOf::Old;
            }
        },
        EnsureOf::Old => match outcome_of(reply) {
            Ok(_) => {
                effects.push(systemctl1("daemon-reload"));
                effects.push(EffectOf::ServiceIsRunning);
                next = EnsureOf::Reloaded;
            },
            Err(e) => {
                next = EnsureOf::Ended(Err(e));
            },
        },
        EnsureOf::Reloaded => {
            if is_yes(&reply) {
                effects.push(systemctl2("restart", UNIT_NAME));
            }
            next = EnsureOf::Ended(Ok(()));
        },
        EnsureOf::Ended(r) => {
            next = EnsureOf::Ended(r);
        },
    }
    assert(shown(effects@) =~= whole.1);
    (next, effects)
}

// ---- starting, stopping, restarting ----

/// Starting the service: its unit is seen to, read, enabled and started. A unit that cannot be
/// seen to keeps nothing back.
pub open spec fn start_step(state: Phase, reply: ReplyView) -> (Phase, Seq<EffectView>) {
    match state {
        Phase::Start => (
            Phase::Defining,
            seq![EffectOf::Log("service_start: begin"@), EffectOf::EnsureDefinition],
        ),
        Phase::Ended => (Phase::Ended, seq![]),
        _ => (
            Phase::Ended,
            failure("service_start: ensure_definition 失败 "@, reply) + seq![
                daemon_reload(),
                unit_command("enable"@),
                unit_command("start"@),
                EffectOf::Log("service_start: end"@),
            ],
        ),
    }
}

/// The next step of starting the service.
pub fn service_start(state: Phase, reply: Reply) -> (r: (Phase, Vec<Effect>))
    ensures
        (r.0, shown(r.1@)) == start_step(state, reply@),
{
    let ghost whole = start_step(state, reply@);
    let mut effects: Vec<Effect> = Vec::new();
    let next: Phase;
    match state {
        Phase::Start => {
            effects.push(log("service_start: begin"));
            effects.push(EffectOf::EnsureDefinition);
            next = Phase::Defining;
        },
        Phase::Ended => {
            next = Phase::Ended;
        },
        _ => {
            effects = failure_of("service_start: ensure_definition 失败 ", reply);
            effects.push(systemctl1("daemon-reload"));
            effects.push(systemctl2("enable", UNIT_NAME));
            effects.push(systemctl2("start", UNIT_NAME));
            effects.push(log("service_start: end"));
            next = Phase::Ended;
        },
    }
    assert(shown(effects@) =~= whole.1);
    (next, effects)
}

/// Stopping the service: systemd stops it.
pub open spec fn stop_step(state: Phase) -> (Phase, Seq<EffectView>) {
    match state {
        Phase::Start => (
            Phase::Ended,
            seq![
                EffectOf::Log("service_stop: begin"@),
                unit_command("stop"@),
                EffectOf::Log("service_stop: end"@),
            ],
        ),
        _ => (Phase::Ended, seq![]),
    }
}

/// The next step of stopping the service.
pub fn service_stop(state: Phase) -> (r: (Phase, Vec<Effect>))
    ensures
        (r.0, shown(r.1@)) == stop_step(state),
{
    let mut effects: Vec<Effect> = Vec::new();
    match state {
        Phase::Start => {
            effects.push(log("service_stop: begin"));
            effects.push(systemctl2("stop", UNIT_NAME));
            effects.push(log("service_stop: end"));
        },
        _ => {},
    }
    assert(shown(effects@) =~= stop_step(state).1);
    (Phase::Ended, effects)
}

/// Restarting the service: its unit is seen to and read, and systemd restarts it.
pub open spec fn restart_step(state: Phase, reply: ReplyView) -> (Phase, Seq<EffectView>) {
    match state {
        Phase::Start => (
            Phase::Defining,
            seq![EffectOf::Log("service_restart: begin"@), EffectOf::EnsureDefinition],
        ),
        Phase::Ended => (Phase::Ended, seq![]),
        _ => (
            Phase::Ended,
            failure("service_restart: ensure_definition 失败 "@, reply) + seq![
                daemon_reload(),
                unit_command("restart"@),
                EffectOf::Log("service_restart: end"@),
            ],
        ),
    }
}

/// The next step of restarting the service.
pub fn service_restart(state: Phase, reply: Reply) -> (r: (Phase, Vec<Effect>))
    ensures
        (r.0, shown(r.1@)) == restart_step(state, reply@),
{
    let ghost whole = restart_step(state, reply@);
    let mut effects: Vec<Effect> = Vec::new();
    let next: Phase;
    match state {
        Phase::Start => {
            effects.push(log("service_restart: begin"));
            effects.push(EffectOf::EnsureDefinition);
            next = Phase::Defining;
        },
        Phase::Ended => {
            next = Phase::Ended;
        },
        _ => {
            effects = failure_of("service_restart: ensure_definition 失败 ", reply);
            effects.push(systemctl1("daemon-reload"));
            effects.push(systemctl2("restart", UNIT_NAME));
            effects.push(log("service_restart: end"));
            next = Phase::Ended;
        },
    }
    assert(shown(effects@) =~= whole.1);
    (next, effects)
}

// ---- starting at login ----

/// Choosing whether the service starts at login: the choice is remembered, the unit is written
/// and read, and systemd enables or disables it.
pub open spec fn set_autostart_step(enabled: bool, state: Phase, reply: ReplyView) -> (
    Phase,
    Seq<EffectView>,
) {
    match state {
        Phase::Start => (
            Phase::Defining,
            seq![EffectOf::StoreAutostart(enabled), EffectOf::WriteUnit { enabled }],
        ),
        Phase::Ended => (Phase::Ended, seq![]),
        _ => (
            Phase::Ended,
            (match outcome(reply) {
                Ok(_) => seq![],
                Err(e) => seq![
                    EffectOf::Warn("dsh-launcher: 写入 systemd unit 失败: "@ + e),
                    EffectOf::Log("set_autostart: 写入失败 "@ + e),
                ],
            }) + seq![
                daemon_reload(),
                if enabled {
                    unit_command("enable"@)
                } else {
                    unit_command("disable"@)
                },
            ],
        ),
    }
}

/// The next step of choosing whether the service starts at login.
pub fn set_autostart(enabled: bool, state: Phase, reply: Reply) -> (r: (Phase, Vec<Effect>))
    ensures
        (r.0, shown(r.1@)) == set_autostart_step(enabled, state, reply@),
{
    let ghost whole = set_autostart_step(enabled, state, reply@);
    let mut effects: Vec<Effect> = Vec::new();
    let next: Phase;
    match state {
        Phase::Start => {
            effects.push(EffectOf::StoreAutostart(enabled));
            effects.push(EffectOf::WriteUnit { enabled });
            next = Phase::Defining;
        },
        Phase::Ended => {
            next = Phase::Ended;
        },
        _ => {
            match outcome_of(reply) {
                Ok(_) => {},
                Err(e) => {
                    effects.push(
                        EffectOf::Warn(
                            concat("dsh-launcher: 写入 systemd unit 失败: ", e.as_str()),
                        ),
                    );
                    effects.push(EffectOf::Log(concat("set_autostart: 写入失败 ", e.as_str())));
                },
            }
            effects.push(systemctl1("daemon-reload"));
            if enabled {
                effects.push(systemctl2("enable", UNIT_NAME));
            } else {
                effects.push(systemctl2("disable", UNIT_NAME));
            }
            next = Phase::Ended;
        },
    }
    assert(shown(effects@) =~= whole.1);
    (next, effects)
}

} // verus!

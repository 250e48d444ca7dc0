//! Commands that leave a trace in the log, and what their output says.

use vstd::prelude::*;
use vstd::utf8::*;

use crate::effect::shown;
use crate::effect::Effect;
use crate::effect::EffectOf;
use crate::effect::EffectView;
use crate::effect::Output;
use crate::effect::OutputOf;
use crate::effect::OutputView;
use crate::effect::Reply;
use crate::effect::ReplyOf;
use crate::effect::ReplyView;
use crate::native::copy_of;
use crate::native::decode;
use crate::native::decoded;
use crate::native::quotation;
use crate::native::quote;
use crate::native::strict;
use crate::text::concat;
use crate::text::join;
use crate::text::joined;
use crate::text::signed_decimal;
use crate::text::signed_decimal_of;
use crate::text::texts;
use crate::text::trim;
use crate::text::trimmed;

verus! {

/// The view of an output that may be missing.
pub open spec fn output_view(output: Option<&Output>) -> Option<OutputView> {
    match output {
        Some(o) => Some(o@),
        None => None,
    }
}

/// A copy of a list of texts.
pub fn copy_texts(list: &Vec<String>) -> (r: Vec<String>)
    ensures
        texts(r@) == texts(list@),
{
    let mut r: Vec<String> = Vec::new();
    let mut i: usize = 0;
    while i < list.len()
        invariant
            0 <= i <= list@.len(),
            r@ == list@.take(i as int),
        decreases list@.len() - i,
    {
        r.push(list[i].clone());
        i = i + 1;
        assert(r@ == list@.take(i as int));
    }
    assert(list@.take(i as int) == list@);
    r
}

/// What a command wrote to standard output, without white space around it.
pub open spec fn answer(o: OutputView) -> Seq<char> {
    trim(decoded(o.stdout))
}

/// What a command wrote, without white space around it.
pub fn written(bytes: &Vec<u8>) -> (r: String)
    ensures
        r@ == trim(decoded(bytes@)),
{
    trimmed(decode(bytes).as_str())
}

// ---- the log ----

/// The time that `date` told, or the beginning of 1970.
pub open spec fn stamp(date: Option<OutputView>) -> Seq<char> {
    match date {
        Some(o) => if o.success {
            answer(o)
        } else {
            "1970-01-01 00:00:00"@
        },
        None => "1970-01-01 00:00:00"@,
    }
}

/// The time that `date` told, or the beginning of 1970 where it failed or could not be run.
pub fn chrono_now(date: Option<&Output>) -> (r: String)
    ensures
        r@ == stamp(output_view(date)),
{
    match date {
        Some(o) => if o.success {
            written(&o.stdout)
        } else {
            "1970-01-01 00:00:00".to_string()
        },
        None => "1970-01-01 00:00:00".to_string(),
    }
}

/// One line of the launcher's log.
pub fn log_line(now: &str, msg: &str) -> (r: String)
    ensures
        r@ == now@ + " [dsh-launcher] "@ + msg@ + "\n"@,
{
    let mut r = concat(now, " [dsh-launcher] ");
    r.append(msg);
    r.append("\n");
    r
}

/// What is said where the launcher's log, the file `path`, cannot be opened.
pub fn log_trouble(path: &Vec<u8>, error: &str) -> (r: String)
    ensures
        r@ == "dsh-launcher: 无法写托盘日志 "@ + decoded(path@) + ": "@ + error@,
{
    let mut r = concat("dsh-launcher: 无法写托盘日志 ", decode(path).as_str());
    r.append(": ");
    r.append(error);
    r
}

// ---- the user ----

/// The user's number as `id -u` told it, or 0.
pub open spec fn user_number(id: Option<OutputView>) -> Seq<char> {
    match id {
        Some(o) => if valid_utf8(o.stdout) {
            trim(decode_utf8(o.stdout))
        } else {
            "0"@
        },
        None => "0"@,
    }
}

/// The user's number as `id -u` told it, or 0 where it could not be run or told no text.
pub fn uid(id: Option<&Output>) -> (r: String)
    ensures
        r@ == user_number(output_view(id)),
{
    match id {
        Some(o) => match strict(copy_of(&o.stdout)) {
            Some(t) => trimmed(t.as_str()),
            None => "0".to_string(),
        },
        None => "0".to_string(),
    }
}

// ---- logged commands ----

/// The states of a logged command, over its output `B`.
#[derive(Debug, PartialEq, Eq)]
pub enum LoggedOf<B> {
    /// Nothing has happened yet.
    Start,
    /// The command is running.
    Running,
    /// The command has ended with this output, or could not be run.
    Ended(Option<OutputOf<B>>),
}

/// The states of a logged command.
pub type Logged = LoggedOf<Vec<u8>>;

/// The states of a logged command as the contracts speak of them.
pub type LoggedView = LoggedOf<Seq<u8>>;

impl LoggedOf<Vec<u8>> {
    pub open spec fn view(&self) -> LoggedView {
        match *self {
            LoggedOf::Start => LoggedOf::Start,
            LoggedOf::Running => LoggedOf::Running,
            LoggedOf::Ended(Some(o)) => LoggedOf::Ended(Some(o@)),
            LoggedOf::Ended(None) => LoggedOf::Ended(None),
        }
    }
}

/// The exit code that is logged; one for a command that has none.
pub open spec fn logged_code(code: Option<i32>) -> int {
    match code {
        Some(c) => c as int,
        None => -1,
    }
}

/// The line that tells how a command ended, with its outputs already quoted.
pub open spec fn ending(
    line: Seq<char>,
    code: Option<i32>,
    stdout: Seq<char>,
    stderr: Seq<char>,
) -> Seq<char> {
    line + " -> exit "@ + signed_decimal(logged_code(code)) + " stdout="@ + stdout + " stderr="@
        + stderr
}

/// The line that tells how a command ended.
pub open spec fn report(line: Seq<char>, o: OutputView) -> Seq<char> {
    ending(
        line,
        o.code,
        quotation(trim(decoded(o.stdout))),
        quotation(trim(decoded(o.stderr))),
    )
}

/// The line that tells how a command ended, with its outputs already quoted.
pub fn ending_line(line: &str, code: Option<i32>, stdout: &str, stderr: &str) -> (r: String)
    ensures
        r@ == ending(line@, code, stdout@, stderr@),
{
    let c: i32 = match code {
        Some(c) => c,
        None => -1,
    };
    let mut r = concat(line, " -> exit ");
    r.append(signed_decimal_of(c).as_str());
    r.append(" stdout=");
    r.append(stdout);
    r.append(" stderr=");
    r.append(stderr);
    r
}

fn report_line(line: &str, o: &Output) -> (r: String)
    ensures
        r@ == report(line@, o@),
{
    let stdout = quote(written(&o.stdout).as_str());
    let stderr = quote(written(&o.stderr).as_str());
    ending_line(line, o.code, stdout.as_str(), stderr.as_str())
}

/// A logged command: its line in the log, the command, and a line on how it ended. `line` is the
/// command as the log shows it.
pub open spec fn logged_step(
    line: Seq<char>,
    program: Seq<char>,
    args: Seq<Seq<char>>,
    state: LoggedView,
    reply: ReplyView,
) -> (LoggedView, Seq<EffectView>) {
    match state {
        LoggedOf::Start => (
            LoggedOf::Running,
            seq![EffectOf::Log(line), EffectOf::Run { program, args }],
        ),
        LoggedOf::Running => match reply {
            ReplyOf::Command(Some(o)) => (
                LoggedOf::Ended(Some(o)),
                seq![EffectOf::Log(report(line, o))],
            ),
            _ => (LoggedOf::Ended(None), seq![]),
        },
        LoggedOf::Ended(o) => (LoggedOf::Ended(o), seq![]),
    }
}

fn logged(
    line: String,
    program: &str,
    args: Vec<String>,
    state: Logged,
    reply: Reply,
) -> (r: (Logged, Vec<Effect>))
    ensures
        (r.0@, shown(r.1@)) == logged_step(line@, program@, texts(args@), state@, reply@),
{
    let mut effects: Vec<Effect> = Vec::new();
    let next: Logged;
    match state {
        LoggedOf::Start => {
            effects.push(EffectOf::Log(line));
            effects.push(EffectOf::Run { program: program.to_string(), args });
            next = LoggedOf::Running;
        },
        LoggedOf::Running => match reply {
            ReplyOf::Command(Some(o)) => {
                effects.push(EffectOf::Log(report_line(line.as_str(), &o)));
                next = LoggedOf::Ended(Some(o));
            },
            _ => {
                next = LoggedOf::Ended(None);
            },
        },
        LoggedOf::Ended(o) => {
            next = LoggedOf::Ended(o);
        },
    }
    proof {
        assert(shown(effects@) =~= logged_step(line@, program@, texts(args@), state@, reply@).1);
    }
    (next, effects)
}

/// `launchctl` with `args`, logged.
pub open spec fn launchctl_step(
    args: Seq<Seq<char>>,
    state: LoggedView,
    reply: ReplyView,
) -> (LoggedView, Seq<EffectView>) {
    logged_step("launchctl "@ + join(args, " "@), "launchctl"@, args, state, reply)
}

/// `systemctl --user` with `args`, logged.
pub open spec fn systemctl_step(
    args: Seq<Seq<char>>,
    state: LoggedView,
    reply: ReplyView,
) -> (LoggedView, Seq<EffectView>) {
    logged_step(
        "systemctl --user "@ + join(args, " "@),
        "systemctl"@,
        seq!["--user"@] + args,
        state,
        reply,
    )
}

/// The next step of `launchctl` with `args`, logged.
pub fn launchctl_logged(args: &Vec<String>, state: Logged, reply: Reply) -> (r: (
    Logged,
    Vec<Effect>,
))
    ensures
        (r.0@, shown(r.1@)) == launchctl_step(texts(args@), state@, reply@),
{
    let line = concat("launchctl ", joined(args, " ").as_str());
    logged(line, "launchctl", copy_texts(args), state, reply)
}

/// The next step of `systemctl --user` with `args`, logged.
pub fn systemctl_logged(args: &Vec<String>, state: Logged, reply: Reply) -> (r: (
    Logged,
    Vec<Effect>,
))
    ensures
        (r.0@, shown(r.1@)) == systemctl_step(texts(args@), state@, reply@),
{
    let line = concat("systemctl --user ", joined(args, " ").as_str());
    let mut all: Vec<String> = Vec::new();
    all.push("--user".to_string());
    let mut rest = copy_texts(args);
    all.append(&mut rest);
    assert(texts(all@) == seq!["--user"@] + texts(args@));
    logged(line, "systemctl", all, state, reply)
}

} // verus!

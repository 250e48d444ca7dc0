//! Showing the web interface: in a window of its own, or in the user's browser.

use vstd::prelude::*;

use crate::definition::log;
use crate::effect::is_yes;
use crate::effect::outcome;
use crate::effect::outcome_of;
use crate::effect::result_view;
use crate::effect::shown;
use crate::effect::text_of_reply;
use crate::effect::text_reply;
use crate::effect::yes;
use crate::effect::Activation;
use crate::effect::Effect;
use crate::effect::EffectOf;
use crate::effect::EffectView;
use crate::effect::Reply;
use crate::effect::ReplyView;
use crate::effect::Scale;
use crate::locations::Platform;
use crate::native::copy_of;
use crate::text::ascii_lower;
use crate::text::begins_with;
use crate::text::concat;
use crate::text::texts;
use crate::text::to_ascii_lower;

verus! {

/// The address of the web interface.
pub const WEB_URL: &'static str = "http://127.0.0.1:3080";

/// The port of the web interface.
pub const WEB_PORT: u16 = 3080;

/// How long the launcher waits for the service before it opens the window anyway, in
/// nanoseconds.
pub const STARTUP_UI_WAIT: u64 = 10_000_000_000;

/// The pause between two looks at the service while the launcher waits, in milliseconds.
pub const STARTUP_UI_PAUSE: u64 = 200;

/// How long after its making a window's size is not remembered, in nanoseconds.
pub const WINDOW_SIZE_SAVE_DELAY: u64 = 1_000_000_000;

/// The label of the window.
pub const WINDOW_LABEL: &'static str = "dsh-ui";

// ---- other programs ----

/// The command that opens an address in the user's browser.
pub open spec fn url_opener(platform: Platform, url: Seq<char>) -> EffectView {
    match platform {
        Platform::MacOs => EffectOf::Spawn { program: "open"@, args: seq![url] },
        Platform::Linux => EffectOf::Spawn { program: "xdg-open"@, args: seq![url] },
        Platform::Windows => EffectOf::Spawn {
            program: "cmd"@,
            args: seq!["/c"@, "start"@, ""@, url],
        },
    }
}

/// The command that opens an address in the user's browser.
pub fn open_url(platform: Platform, url: &str) -> (r: Effect)
    ensures
        r@ == url_opener(platform, url@),
{
    let mut args: Vec<String> = Vec::new();
    match platform {
        Platform::MacOs => {
            args.push(url.to_string());
            assert(texts(args@) == seq![url@]);
            EffectOf::Spawn { program: "open".to_string(), args }
        },
        Platform::Linux => {
            args.push(url.to_string());
            assert(texts(args@) == seq![url@]);
            EffectOf::Spawn { program: "xdg-open".to_string(), args }
        },
        Platform::Windows => {
            args.push("/c".to_string());
            args.push("start".to_string());
            args.push("".to_string());
            args.push(url.to_string());
            assert(texts(args@) == seq!["/c"@, "start"@, ""@, url@]);
            EffectOf::Spawn { program: "cmd".to_string(), args }
        },
    }
}

/// The command that opens a file as the user likes; there is none on Windows.
pub open spec fn path_opener(platform: Platform, path: Seq<u8>) -> Seq<EffectView> {
    match platform {
        Platform::MacOs => seq![EffectOf::SpawnOn { program: "open"@, path }],
        Platform::Linux => seq![EffectOf::SpawnOn { program: "xdg-open"@, path }],
        Platform::Windows => seq![],
    }
}

/// The command that opens a file as the user likes; there is none on Windows.
pub fn open_path(platform: Platform, path: &Vec<u8>) -> (r: Vec<Effect>)
    ensures
        shown(r@) == path_opener(platform, path@),
{
    let mut effects: Vec<Effect> = Vec::new();
    match platform {
        Platform::MacOs => {
            effects.push(EffectOf::SpawnOn { program: "open".to_string(), path: copy_of(path) });
        },
        Platform::Linux => {
            effects.push(
                EffectOf::SpawnOn { program: "xdg-open".to_string(), path: copy_of(path) },
            );
        },
        Platform::Windows => {},
    }
    assert(shown(effects@) =~= path_opener(platform, path@));
    effects
}

/// Whether an address is one for a browser; the case of its letters is of no account.
pub open spec fn is_web_address(url: Seq<char>) -> bool {
    ||| "http://"@.is_prefix_of(ascii_lower(url))
    ||| "https://"@.is_prefix_of(ascii_lower(url))
}

/// What is done about an address outside the web interface: one for a browser is opened, any
/// other is ignored.
pub open spec fn external(platform: Platform, url: Seq<char>) -> Seq<EffectView> {
    if is_web_address(url) {
        seq![EffectOf::Log("open_external: "@ + url), url_opener(platform, url)]
    } else {
        seq![]
    }
}

/// What is done about an address outside the web interface.
pub fn open_external(platform: Platform, url: &str) -> (r: Vec<Effect>)
    ensures
        shown(r@) == external(platform, url@),
{
    let mut effects: Vec<Effect> = Vec::new();
    let lower = to_ascii_lower(url);
    if begins_with(lower.as_str(), "http://") || begins_with(lower.as_str(), "https://") {
        effects.push(EffectOf::Log(concat("open_external: ", url)));
        effects.push(open_url(platform, url));
    }
    assert(shown(effects@) =~= external(platform, url@));
    effects
}

/// What is done about a page that asks for a new window: it gets none, and its address is dealt
/// with as one outside the web interface. The first part says whether the window is allowed.
pub fn on_new_window(platform: Platform, url: &str) -> (r: (bool, Vec<Effect>))
    ensures
        !r.0,
        shown(r.1@) == external(platform, url@),
{
    (false, open_external(platform, url))
}

// ---- the window ----

/// The states of opening the window.
#[derive(Clone, Copy, Debug, PartialEq, Eq, Structural)]
pub enum Opening {
    /// Nothing has happened yet.
    Start,
    /// Is there a window already?
    Looking,
    /// A window is being made; from this time on its size is remembered.
    Making { persist_after: u64 },
    /// The window is open, or a browser is.
    Ended,
}

/// An ordinary application while its window is shown; only macOS tells the two apart.
pub open spec fn activation(platform: Platform, how: Activation) -> Seq<EffectView> {
    if platform == Platform::MacOs {
        seq![EffectOf::SetActivation(how)]
    } else {
        seq![]
    }
}

fn activate(platform: Platform, how: Activation) -> (r: Vec<Effect>)
    ensures
        shown(r@) == activation(platform, how),
{
    let mut effects: Vec<Effect> = Vec::new();
    if platform == Platform::MacOs {
        effects.push(EffectOf::SetActivation(how));
    }
    assert(shown(effects@) =~= activation(platform, how));
    effects
}

/// Opening the window: the one that there is, or a new one, or, where none can be made, the
/// user's browser.
pub open spec fn open_step(platform: Platform, now: u64, state: Opening, reply: ReplyView) -> (
    Opening,
    Seq<EffectView>,
) {
    match state {
        Opening::Start => (
            Opening::Looking,
            seq![EffectOf::Log("open_dsh_ui: 使用内置浏览器"@)] + activation(
                platform,
                Activation::Regular,
            ) + seq![EffectOf::FindWindow(WINDOW_LABEL@)],
        ),
        Opening::Looking => if yes(reply) {
            (
                Opening::Ended,
                seq![
                    EffectOf::ShowWindow,
                    EffectOf::FocusWindow,
                    EffectOf::Log("open_builtin: 复用已有窗口"@),
                ],
            )
        } else {
            (
                Opening::Making { persist_after: (now + WINDOW_SIZE_SAVE_DELAY) as u64 },
                seq![
                    EffectOf::CreateWindow {
                        label: WINDOW_LABEL@,
                        url: WEB_URL@,
                        title: "dsh 界面"@,
                    },
                ],
            )
        },
        Opening::Making { persist_after } => match outcome(reply) {
            Ok(_) => (
                Opening::Ended,
                seq![
                    EffectOf::Log("open_builtin: 内置窗口已创建"@),
                    EffectOf::WatchWindow { persist_after },
                    EffectOf::ShowWindow,
                    EffectOf::FocusWindow,
                ],
            ),
            Err(e) => (
                Opening::Ended,
                seq![
                    EffectOf::Log("open_builtin: 创建窗口失败 "@ + e),
                    url_opener(platform, WEB_URL@),
                ],
            ),
        },
        Opening::Ended => (Opening::Ended, seq![]),
    }
}

/// The next step of opening the window. `now` is the time in nanoseconds since any fixed moment.
pub fn open_builtin(platform: Platform, now: u64, state: Opening, reply: Reply) -> (r: (
    Opening,
    Vec<Effect>,
))
    requires
        now + WINDOW_SIZE_SAVE_DELAY <= u64::MAX,
    ensures
        (r.0, shown(r.1@)) == open_step(platform, now, state, reply@),
{
    let ghost whole = open_step(platform, now, state, reply@);
    let mut effects: Vec<Effect> = Vec::new();
    let next: Opening;
    match state {
        Opening::Start => {
            effects.push(log("open_dsh_ui: 使用内置浏览器"));
            let mut regular = activate(platform, Activation::Regular);
            effects.append(&mut regular);
            effects.push(EffectOf::FindWindow(WINDOW_LABEL.to_string()));
            next = Opening::Looking;
        },
        Opening::Looking => {
            if is_yes(&reply) {
                effects.push(EffectOf::ShowWindow);
                effects.push(EffectOf::FocusWindow);
                effects.push(log("open_builtin: 复用已有窗口"));
                next = Opening::Ended;
            } else {
                effects.push(
                    EffectOf::CreateWindow {
                        label: WINDOW_LABEL.to_string(),
                        url: WEB_URL.to_string(),
                        title: "dsh 界面".to_string(),
                    },
                );
                next = Opening::Making { persist_after: now + WINDOW_SIZE_SAVE_DELAY };
            }
        },
        Opening::Making { persist_after } => match outcome_of(reply) {
            Ok(_) => {
                effects.push(log("open_builtin: 内置窗口已创建"));
                effects.push(EffectOf::WatchWindow { persist_after });
                effects.push(EffectOf::ShowWindow);
                effects.push(EffectOf::FocusWindow);
                next = Opening::Ended;
            },
            Err(e) => {
                effects.push(
                    EffectOf::Log(concat("open_builtin: 创建窗口失败 ", e.as_str())),
                );
                effects.push(open_url(platform, WEB_URL));
                next = Opening::Ended;
            },
        },
        Opening::Ended => {
            next = Opening::Ended;
        },
    }
    assert(shown(effects@) =~= whole.1);
    (next, effects)
}

/// The next step of opening the web interface: always in the launcher's own window.
pub fn open_dsh_ui(platform: Platform, now: u64, state: Opening, reply: Reply) -> (r: (
    Opening,
    Vec<Effect>,
))
    requires
        now + WINDOW_SIZE_SAVE_DELAY <= u64::MAX,
    ensures
        (r.0, shown(r.1@)) == open_step(platform, now, state, reply@),
{
    open_builtin(platform, now, state, reply)
}

/// What happens to the window.
#[derive(Clone, Copy, Debug, PartialEq, Eq, Structural)]
pub enum WindowEvent {
    /// It has a new size, in physical pixels.
    Resized { width: u32, height: u32 },
    /// It has a new scale factor, and with it a new size, in physical pixels.
    ScaleFactorChanged { width: u32, height: u32 },
    /// The user wants it closed.
    CloseRequested,
    /// Anything else.
    Other,
}

/// What is done about a window event. A new size is remembered once the window has settled. A
/// close request remembers the size and hides the window.
pub open spec fn window_effects(
    platform: Platform,
    event: WindowEvent,
    now: u64,
    persist_after: u64,
) -> Seq<EffectView> {
    match event {
        WindowEvent::Resized { width, height } => if now >= persist_after {
            seq![EffectOf::SaveWindowSize { width, height, scale: Scale::Window }]
        } else {
            seq![]
        },
        WindowEvent::ScaleFactorChanged { width, height } => if now >= persist_after {
            seq![EffectOf::SaveWindowSize { width, height, scale: Scale::Event }]
        } else {
            seq![]
        },
        WindowEvent::CloseRequested => seq![
            EffectOf::SaveCurrentWindowSize,
            EffectOf::PreventClose,
            EffectOf::HideWindow,
        ] + activation(platform, Activation::Accessory),
        WindowEvent::Other => seq![],
    }
}

/// What is done about a window event.
pub fn on_window_event(
    platform: Platform,
    event: WindowEvent,
    now: u64,
    persist_after: u64,
) -> (r: Vec<Effect>)
    ensures
        shown(r@) == window_effects(platform, event, now, persist_after),
{
    let mut effects: Vec<Effect> = Vec::new();
    match event {
        WindowEvent::Resized { width, height } => {
            if now >= persist_after {
                effects.push(EffectOf::SaveWindowSize { width, height, scale: Scale::Window });
            }
        },
        WindowEvent::ScaleFactorChanged { width, height } => {
            if now >= persist_after {
                effects.push(EffectOf::SaveWindowSize { width, height, scale: Scale::Event });
            }
        },
        WindowEvent::CloseRequested => {
            effects.push(EffectOf::SaveCurrentWindowSize);
            effects.push(EffectOf::PreventClose);
            effects.push(EffectOf::HideWindow);
            let mut accessory = activate(platform, Activation::Accessory);
            effects.append(&mut accessory);
        },
        WindowEvent::Other => {},
    }
    assert(shown(effects@) =~= window_effects(platform, event, now, persist_after));
    effects
}

// ---- remembering the size ----

/// The states of the remembering of a window size.
#[derive(Clone, Copy, Debug, PartialEq, Eq, Structural)]
pub enum Saving {
    /// Nothing has happened yet.
    Start,
    /// The directory is being made.
    Directory,
    /// The file is being written.
    File,
    /// The size is remembered, or could not be.
    Ended,
}

/// The writing of a size, `raw` being its written form or why it has none.
pub open spec fn write_size(path: Seq<u8>, raw: Result<Seq<char>, Seq<char>>) -> (
    Saving,
    Seq<EffectView>,
) {
    match raw {
        Ok(text) => (Saving::File, seq![EffectOf::WriteText { path, text }]),
        Err(e) => (Saving::Ended, seq![EffectOf::Log("save_window_size: 序列化失败 "@ + e)]),
    }
}

/// The remembering of a window size in the file `path`, which lies in `dir`. A size that is not
/// `valid` is not remembered. A directory that cannot be made keeps nothing back.
pub open spec fn save_step(
    dir: Option<Seq<u8>>,
    path: Seq<u8>,
    valid: bool,
    raw: Result<Seq<char>, Seq<char>>,
    state: Saving,
    reply: ReplyView,
) -> (Saving, Seq<EffectView>) {
    match state {
        Saving::Start => if !valid {
            (Saving::Ended, seq![])
        } else {
            match dir {
                Some(d) => (Saving::Directory, seq![EffectOf::CreateDirs(d)]),
                None => write_size(path, raw),
            }
        },
        Saving::Directory => write_size(path, raw),
        Saving::File => match outcome(reply) {
            Ok(_) => (Saving::Ended, seq![]),
            Err(e) => (Saving::Ended, seq![EffectOf::Log("save_window_size: 写入失败 "@ + e)]),
        },
        Saving::Ended => (Saving::Ended, seq![]),
    }
}

fn size_written(path: &Vec<u8>, raw: Result<String, String>) -> (r: (Saving, Vec<Effect>))
    ensures
        (r.0, shown(r.1@)) == write_size(path@, result_view(raw)),
{
    let ghost whole = write_size(path@, result_view(raw));
    let mut effects: Vec<Effect> = Vec::new();
    let next: Saving;
    match raw {
        Ok(text) => {
            effects.push(EffectOf::WriteText { path: copy_of(path), text });
            next = Saving::File;
        },
        Err(e) => {
            effects.push(EffectOf::Log(concat("save_window_size: 序列化失败 ", e.as_str())));
            next = Saving::Ended;
        },
    }
    assert(shown(effects@) =~= whole.1);
    (next, effects)
}

/// The view of a path that may be missing.
pub open spec fn dir_view(dir: Option<&Vec<u8>>) -> Option<Seq<u8>> {
    match dir {
        Some(d) => Some(d@),
        None => None,
    }
}

/// The next step of the remembering of a window size. `dir` is the directory of `path`, `valid`
/// says whether the size is one that a window can have, and `raw` is its written form or why it
/// has none.
pub fn save_window_size(
    dir: Option<&Vec<u8>>,
    path: &Vec<u8>,
    valid: bool,
    raw: Result<String, String>,
    state: Saving,
    reply: Reply,
) -> (r: (Saving, Vec<Effect>))
    ensures
        (r.0, shown(r.1@)) == save_step(dir_view(dir), path@, valid, result_view(raw), state, reply@),
{
    let ghost whole = save_step(dir_view(dir), path@, valid, result_view(raw), state, reply@);
    let mut effects: Vec<Effect> = Vec::new();
    let next: Saving;
    match state {
        Saving::Start => {
            if valid {
                match dir {
                    Some(d) => {
                        effects.push(EffectOf::CreateDirs(copy_of(d)));
                        next = Saving::Directory;
                    },
                    None => {
                        return size_written(path, raw);
                    },
                }
            } else {
                next = Saving::Ended;
            }
        },
        Saving::Directory => {
            return size_written(path, raw);
        },
        Saving::File => {
            match outcome_of(reply) {
                Ok(_) => {},
                Err(e) => {
                    effects.push(EffectOf::Log(concat("save_window_size: 写入失败 ", e.as_str())));
                },
            }
            next = Saving::Ended;
        },
        Saving::Ended => {
            next = Saving::Ended;
        },
    }
    assert(shown(effects@) =~= whole.1);
    (next, effects)
}

/// The states of the looking up of a window size, over texts `T`.
#[derive(Debug, PartialEq, Eq)]
pub enum LoadingOf<T> {
    /// Nothing has happened yet.
    Start,
    /// The file is being read.
    Reading,
    /// This is the written form of the size, where there is one.
    Ended(Option<T>),
}

/// The states of the looking up of a window size.
pub type Loading = LoadingOf<String>;

/// The states of the looking up of a window size as the contracts speak of them.
pub type LoadingView = LoadingOf<Seq<char>>;

impl LoadingOf<String> {
    pub open spec fn view(&self) -> LoadingView {
        match *self {
            LoadingOf::Start => LoadingOf::Start,
            LoadingOf::Reading => LoadingOf::Reading,
            LoadingOf::Ended(Some(t)) => LoadingOf::Ended(Some(t@)),
            LoadingOf::Ended(None) => LoadingOf::Ended(None),
        }
    }
}

/// The looking up of a window size in the file `path`; there is none where it cannot be read.
pub open spec fn load_step(path: Seq<u8>, state: LoadingView, reply: ReplyView) -> (
    LoadingView,
    Seq<EffectView>,
) {
    match state {
        LoadingOf::Start => (LoadingOf::Reading, seq![EffectOf::ReadText(path)]),
        LoadingOf::Reading => match text_reply(reply) {
            Ok(text) => (LoadingOf::Ended(Some(text)), seq![]),
            Err(_) => (LoadingOf::Ended(None), seq![]),
        },
        LoadingOf::Ended(raw) => (LoadingOf::Ended(raw), seq![]),
    }
}

/// The next step of the looking up of a window size.
pub fn load_window_size(path: &Vec<u8>, state: Loading, reply: Reply) -> (r: (
    Loading,
    Vec<Effect>,
))
    ensures
        (r.0@, shown(r.1@)) == load_step(path@, state@, reply@),
{
    let ghost whole = load_step(path@, state@, reply@);
    let mut effects: Vec<Effect> = Vec::new();
    let next: Loading;
    match state {
        LoadingOf::Start => {
            effects.push(EffectOf::ReadText(copy_of(path)));
            next = LoadingOf::Reading;
        },
        LoadingOf::Reading => match text_of_reply(reply) {
            Ok(text) => {
                next = LoadingOf::Ended(Some(text));
            },
            Err(_) => {
                next = LoadingOf::Ended(None);
            },
        },
        LoadingOf::Ended(raw) => {
            next = LoadingOf::Ended(raw);
        },
    }
    assert(shown(effects@) =~= whole.1);
    (next, effects)
}

// ---- the window at startup ----

/// The states of waiting for the service at startup.
#[derive(Clone, Copy, Debug, PartialEq, Eq, Structural)]
pub enum Waiting {
    /// Nothing has happened yet.
    Start,
    /// The service is being looked at; at this time the waiting is over.
    Polling { deadline: u64 },
    /// The service is being looked at for the last time.
    Last,
    /// The window is being opened.
    Opening,
    /// The window was asked for.
    Ended,
}

/// Opening the window at startup: as soon as the service answers, and after a while even if it
/// does not.
pub open spec fn startup_step(now: u64, state: Waiting, reply: ReplyView) -> (
    Waiting,
    Seq<EffectView>,
) {
    match state {
        Waiting::Start => (
            Waiting::Polling { deadline: (now + STARTUP_UI_WAIT) as u64 },
            seq![EffectOf::ProbePort(WEB_PORT)],
        ),
        Waiting::Polling { deadline } => if !yes(reply) && now < deadline {
            (
                Waiting::Polling { deadline },
                seq![EffectOf::Sleep(STARTUP_UI_PAUSE), EffectOf::ProbePort(WEB_PORT)],
            )
        } else {
            (Waiting::Last, seq![EffectOf::ProbePort(WEB_PORT)])
        },
        Waiting::Last => (
            Waiting::Opening,
            seq![
                EffectOf::Log(
                    if yes(reply) {
                        "startup_ui: dsh 已就绪，准备打开内置窗口"@
                    } else {
                        "startup_ui: 等待 dsh 超时，仍尝试打开内置窗口"@
                    },
                ),
                EffectOf::OpenDshUiOnMainThread,
            ],
        ),
        Waiting::Opening => match outcome(reply) {
            Ok(_) => (Waiting::Ended, seq![]),
            Err(e) => (
                Waiting::Ended,
                seq![EffectOf::Log("startup_ui: 调度内置窗口失败 "@ + e)],
            ),
        },
        Waiting::Ended => (Waiting::Ended, seq![]),
    }
}

/// The next step of opening the window at startup. `now` is the time in nanoseconds since any
/// fixed moment.
pub fn startup_ui(now: u64, state: Waiting, reply: Reply) -> (r: (Waiting, Vec<Effect>))
    requires
        now + STARTUP_UI_WAIT <= u64::MAX,
    ensures
        (r.0, shown(r.1@)) == startup_step(now, state, reply@),
{
    let ghost whole = startup_step(now, state, reply@);
    let mut effects: Vec<Effect> = Vec::new();
    let next: Waiting;
    match state {
        Waiting::Start => {
            effects.push(EffectOf::ProbePort(WEB_PORT));
            next = Waiting::Polling { deadline: now + STARTUP_UI_WAIT };
        },
        Waiting::Polling { deadline } => {
            if !is_yes(&reply) && now < deadline {
                effects.push(EffectOf::Sleep(STARTUP_UI_PAUSE));
                effects.push(EffectOf::ProbePort(WEB_PORT));
                next = Waiting::Polling { deadline };
            } else {
                effects.push(EffectOf::ProbePort(WEB_PORT));
                next = Waiting::Last;
            }
        },
        Waiting::Last => {
            if is_yes(&reply) {
                effects.push(log("startup_ui: dsh 已就绪，准备打开内置窗口"));
            } else {
                effects.push(log("startup_ui: 等待 dsh 超时，仍尝试打开内置窗口"));
            }
            effects.push(EffectOf::OpenDshUiOnMainThread);
            next = Waiting::Opening;
        },
        Waiting::Opening => {
            match outcome_of(reply) {
                Ok(_) => {},
                Err(e) => {
                    effects.push(
                        EffectOf::Log(concat("startup_ui: 调度内置窗口失败 ", e.as_str())),
                    );
                },
            }
            next = Waiting::Ended;
        },
        Waiting::Ended => {
            next = Waiting::Ended;
        },
    }
    assert(shown(effects@) =~= whole.1);
    (next, effects)
}

} // verus!

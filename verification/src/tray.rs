//! The tray icon: its menu, what the menu does, and its status line.

use vstd::prelude::*;

use crate::definition::log;
use crate::effect::is_yes;
use crate::effect::shown;
use crate::effect::yes;
use crate::effect::Effect;
use crate::effect::EffectOf;
use crate::effect::EffectView;
use crate::effect::Reply;
use crate::effect::ReplyView;
use crate::locations::is_managed;
use crate::locations::managed;
use crate::locations::Platform;
use crate::native::copy_of;
use crate::text::concat;
use crate::text::same;
use crate::text::truth;
use crate::text::truth_of;
use crate::window::open_path;
use crate::window::path_opener;
use crate::window::WEB_PORT;

verus! {

// ---- the menu ----

/// One entry of the menu, over texts `T`.
#[derive(Debug, PartialEq, Eq)]
pub enum MenuEntryOf<T> {
    /// An entry to choose, where it is enabled.
    Item { id: T, text: T, enabled: bool },
    /// An entry to choose, where it is enabled, with a mark.
    Check { id: T, text: T, enabled: bool, checked: bool },
    /// A line between entries.
    Separator,
}

/// One entry of the menu.
pub type MenuEntry = MenuEntryOf<String>;

/// One entry of the menu as the contracts speak of it.
pub type MenuEntryView = MenuEntryOf<Seq<char>>;

impl MenuEntryOf<String> {
    pub open spec fn view(&self) -> MenuEntryView {
        match *self {
            MenuEntryOf::Item { id, text, enabled } => MenuEntryOf::Item {
                id: id@,
                text: text@,
                enabled,
            },
            MenuEntryOf::Check { id, text, enabled, checked } => MenuEntryOf::Check {
                id: id@,
                text: text@,
                enabled,
                checked,
            },
            MenuEntryOf::Separator => MenuEntryOf::Separator,
        }
    }
}

/// The menu, from top to bottom; all of its entries are enabled. `autostart` says whether the
/// service starts at login.
pub open spec fn menu(autostart: bool) -> Seq<MenuEntryView> {
    seq![
        MenuEntryOf::Item { id: "status"@, text: "dsh: 检测中…"@, enabled: true },
        MenuEntryOf::Item { id: "open"@, text: "打开 dsh 界面"@, enabled: true },
        MenuEntryOf::Separator,
        MenuEntryOf::Item { id: "restart"@, text: "重启 dsh"@, enabled: true },
        MenuEntryOf::Item { id: "stop"@, text: "停止 dsh"@, enabled: true },
        MenuEntryOf::Item { id: "start"@, text: "启动 dsh"@, enabled: true },
        MenuEntryOf::Separator,
        MenuEntryOf::Check {
            id: "autostart"@,
            text: "开机自启 dsh"@,
            enabled: true,
            checked: autostart,
        },
        MenuEntryOf::Item { id: "log"@, text: "查看日志"@, enabled: true },
        MenuEntryOf::Separator,
        MenuEntryOf::Item { id: "quit"@, text: "退出托盘（dsh 继续运行）"@, enabled: true },
    ]
}

fn item(id: &str, text: &str) -> (r: MenuEntry)
    ensures
        r@ == (MenuEntryView::Item { id: id@, text: text@, enabled: true }),
{
    MenuEntryOf::Item { id: id.to_string(), text: text.to_string(), enabled: true }
}

/// The menu, from top to bottom. `autostart` says whether the service starts at login.
pub fn build_menu(autostart: bool) -> (r: Vec<MenuEntry>)
    ensures
        r@.map_values(|e: MenuEntry| e@) == menu(autostart),
{
    let mut r: Vec<MenuEntry> = Vec::new();
    r.push(item("status", "dsh: 检测中…"));
    r.push(item("open", "打开 dsh 界面"));
    r.push(MenuEntryOf::Separator);
    r.push(item("restart", "重启 dsh"));
    r.push(item("stop", "停止 dsh"));
    r.push(item("start", "启动 dsh"));
    r.push(MenuEntryOf::Separator);
    r.push(
        MenuEntryOf::Check {
            id: "autostart".to_string(),
            text: "开机自启 dsh".to_string(),
            enabled: true,
            checked: autostart,
        },
    );
    r.push(item("log", "查看日志"));
    r.push(MenuEntryOf::Separator);
    r.push(item("quit", "退出托盘（dsh 继续运行）"));
    assert(r@.map_values(|e: MenuEntry| e@) =~= menu(autostart));
    r
}

/// The kinds of entries that a menu can hold.
#[derive(Clone, Copy, Debug, PartialEq, Eq, Structural)]
pub enum MenuItemKind {
    MenuItem,
    Check,
    Submenu,
    Predefined,
    Icon,
}

/// Whether an entry takes a new text; `None` stands for one that is not there.
pub fn set_menu_text(entry: Option<MenuItemKind>) -> (r: bool)
    ensures
        r == (entry == Some(MenuItemKind::MenuItem) || entry == Some(MenuItemKind::Check) || entry
            == Some(MenuItemKind::Submenu)),
{
    match entry {
        Some(MenuItemKind::MenuItem) => true,
        Some(MenuItemKind::Check) => true,
        Some(MenuItemKind::Submenu) => true,
        _ => false,
    }
}

// ---- what the menu does ----

/// The states of a menu choice.
#[derive(Clone, Copy, Debug, PartialEq, Eq, Structural)]
pub enum Choice {
    /// Nothing has happened yet.
    Start,
    /// Is there a log file?
    Log,
    /// The choice was carried out.
    Ended,
}

/// Something done to the service, where the platform has a way to run it.
pub open spec fn to_service(platform: Platform, effect: EffectView) -> Seq<EffectView> {
    if managed(platform) {
        seq![effect]
    } else {
        seq![]
    }
}

/// What a menu choice does at once, and whether it has to look for the log file.
pub open spec fn chosen(
    platform: Platform,
    id: Seq<char>,
    autostart: bool,
    log_file: Seq<u8>,
) -> (Choice, Seq<EffectView>) {
    if id == "open"@ {
        (Choice::Ended, seq![EffectOf::OpenDshUi])
    } else if id == "restart"@ {
        (Choice::Ended, to_service(platform, EffectOf::ServiceRestart))
    } else if id == "stop"@ {
        (Choice::Ended, to_service(platform, EffectOf::ServiceStop))
    } else if id == "start"@ {
        (Choice::Ended, to_service(platform, EffectOf::ServiceStart))
    } else if id == "autostart"@ {
        (
            Choice::Ended,
            seq![EffectOf::Log("autostart: 切换为 "@ + truth(!autostart))] + to_service(
                platform,
                EffectOf::SetAutostart(!autostart),
            ),
        )
    } else if id == "log"@ {
        (Choice::Log, seq![EffectOf::Exists(log_file)])
    } else if id == "quit"@ {
        (Choice::Ended, seq![EffectOf::Exit(0)])
    } else {
        (Choice::Ended, seq![])
    }
}

/// A menu choice. The log file is made first where there is none.
pub open spec fn menu_step(
    platform: Platform,
    id: Seq<char>,
    autostart: bool,
    log_file: Seq<u8>,
    state: Choice,
    reply: ReplyView,
) -> (Choice, Seq<EffectView>) {
    match state {
        Choice::Start => (
            chosen(platform, id, autostart, log_file).0,
            seq![EffectOf::Log("menu: "@ + id)] + chosen(platform, id, autostart, log_file).1,
        ),
        Choice::Log => if yes(reply) {
            (Choice::Ended, path_opener(platform, log_file))
        } else {
            (
                Choice::Ended,
                seq![EffectOf::WriteText { path: log_file, text: ""@ }] + path_opener(
                    platform,
                    log_file,
                ),
            )
        },
        Choice::Ended => (Choice::Ended, seq![]),
    }
}

/// The next step of the menu choice `id`.
pub fn handle_menu(
    platform: Platform,
    id: &str,
    autostart: bool,
    log_file: &Vec<u8>,
    state: Choice,
    reply: Reply,
) -> (r: (Choice, Vec<Effect>))
    ensures
        (r.0, shown(r.1@)) == menu_step(platform, id@, autostart, log_file@, state, reply@),
{
    let ghost whole = menu_step(platform, id@, autostart, log_file@, state, reply@);
    let service = is_managed(platform);
    let mut effects: Vec<Effect> = Vec::new();
    let mut next: Choice = Choice::Ended;
    match state {
        Choice::Start => {
            effects.push(EffectOf::Log(concat("menu: ", id)));
            if same(id, "open") {
                effects.push(EffectOf::OpenDshUi);
            } else if same(id, "restart") {
                if service {
                    effects.push(EffectOf::ServiceRestart);
                }
            } else if same(id, "stop") {
                if service {
                    effects.push(EffectOf::ServiceStop);
                }
            } else if same(id, "start") {
                if service {
                    effects.push(EffectOf::ServiceStart);
                }
            } else if same(id, "autostart") {
                effects.push(EffectOf::Log(concat("autostart: 切换为 ", truth_of(!autostart))));
                if service {
                    effects.push(EffectOf::SetAutostart(!autostart));
                }
            } else if same(id, "log") {
                effects.push(EffectOf::Exists(copy_of(log_file)));
                next = Choice::Log;
            } else if same(id, "quit") {
                effects.push(EffectOf::Exit(0));
            }
        },
        Choice::Log => {
            if !is_yes(&reply) {
                effects.push(
                    EffectOf::WriteText { path: copy_of(log_file), text: "".to_string() },
                );
            }
            let mut opener = open_path(platform, log_file);
            effects.append(&mut opener);
        },
        Choice::Ended => {},
    }
    assert(shown(effects@) =~= whole.1);
    (next, effects)
}

// ---- the status line ----

/// Whether the service answers.
#[derive(Clone, Copy, Debug, PartialEq, Eq, Structural)]
pub enum DshStatus {
    Running,
    Stopped,
}

/// Whether the service answers: it does where its port accepts a connection.
pub fn probe_status(port_open: bool) -> (r: DshStatus)
    ensures
        r == (if port_open {
            DshStatus::Running
        } else {
            DshStatus::Stopped
        }),
{
    if port_open {
        DshStatus::Running
    } else {
        DshStatus::Stopped
    }
}

/// A message that takes the place of the status for a while.
#[derive(Debug, PartialEq, Eq)]
pub struct ActionMsg {
    /// The message.
    pub text: String,
    /// When it was given, in nanoseconds since any fixed moment.
    pub at: u64,
}

/// How long a message takes the place of the status, in nanoseconds.
pub const ACTION_MSG_TIME: u64 = 3_000_000_000;

/// The pause between two looks at the status, in milliseconds.
pub const STATUS_POLL_MS: u64 = 2000;

/// Gives a message; it takes the place of any earlier one.
pub fn show_action_msg(slot: &mut Option<ActionMsg>, msg: String, now: u64)
    ensures
        *final(slot) is Some,
        final(slot)->0.text@ == msg@,
        final(slot)->0.at == now,
{
    *slot = Some(ActionMsg { text: msg, at: now });
}

/// The message that is to be shown at the time `now`, where there is one.
pub open spec fn current_msg(slot: Option<ActionMsg>, now: u64) -> Option<Seq<char>> {
    match slot {
        Some(m) => if now - m.at < ACTION_MSG_TIME {
            Some(m.text@)
        } else {
            None
        },
        None => None,
    }
}

/// The status as the menu tells it.
pub open spec fn status_text(status: DshStatus) -> Seq<char> {
    match status {
        DshStatus::Running => "dsh: 运行中"@,
        DshStatus::Stopped => "dsh: 已停止"@,
    }
}

/// Showing a text at the icon and in the menu, until the next look.
pub open spec fn show_status(text: Seq<char>) -> Seq<EffectView> {
    seq![
        EffectOf::SetTooltip(text),
        EffectOf::SetMenuText { id: "status"@, text },
        EffectOf::Sleep(STATUS_POLL_MS),
    ]
}

/// The states of the status line.
#[derive(Clone, Copy, Debug, PartialEq, Eq, Structural)]
pub enum Polling {
    /// It is time for a look.
    Start,
    /// The service is being looked at.
    Probing,
}

/// The status line, without end: a message as long as it is fresh, and the status otherwise.
pub open spec fn status_step(
    slot: Option<ActionMsg>,
    now: u64,
    state: Polling,
    reply: ReplyView,
) -> (Polling, Seq<EffectView>) {
    match state {
        Polling::Start => match current_msg(slot, now) {
            Some(text) => (Polling::Start, show_status(text)),
            None => (Polling::Probing, seq![EffectOf::ProbePort(WEB_PORT)]),
        },
        Polling::Probing => {
            let text = status_text(
                if yes(reply) {
                    DshStatus::Running
                } else {
                    DshStatus::Stopped
                },
            );
            (Polling::Start, seq![EffectOf::Log("status: "@ + text)] + show_status(text))
        },
    }
}

fn status_effects(text: &str) -> (r: Vec<Effect>)
    ensures
        shown(r@) == show_status(text@),
{
    let mut effects: Vec<Effect> = Vec::new();
    effects.push(EffectOf::SetTooltip(text.to_string()));
    effects.push(EffectOf::SetMenuText { id: "status".to_string(), text: text.to_string() });
    effects.push(EffectOf::Sleep(STATUS_POLL_MS));
    assert(shown(effects@) =~= show_status(text@));
    effects
}

/// The next step of the status line. `now` is the time in nanoseconds since any fixed moment.
pub fn status_poller(slot: &Option<ActionMsg>, now: u64, state: Polling, reply: Reply) -> (r: (
    Polling,
    Vec<Effect>,
))
    ensures
        (r.0, shown(r.1@)) == status_step(*slot, now, state, reply@),
{
    let ghost whole = status_step(*slot, now, state, reply@);
    let mut effects: Vec<Effect> = Vec::new();
    let next: Polling;
    match state {
        Polling::Start => {
            match slot {
                Some(m) if now < m.at || now - m.at < ACTION_MSG_TIME => {
                    effects = status_effects(m.text.as_str());
                    next = Polling::Start;
                },
                _ => {
                    effects.push(EffectOf::ProbePort(WEB_PORT));
                    next = Polling::Probing;
                },
            }
        },
        Polling::Probing => {
            let text = match probe_status(is_yes(&reply)) {
                DshStatus::Running => "dsh: 运行中",
                DshStatus::Stopped => "dsh: 已停止",
            };
            effects.push(EffectOf::Log(concat("status: ", text)));
            let mut rest = status_effects(text);
            effects.append(&mut rest);
            next = Polling::Start;
        },
    }
    assert(shown(effects@) =~= whole.1);
    (next, effects)
}

} // verus!

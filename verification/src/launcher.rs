//! What the launcher does when it comes up.

use vstd::prelude::*;

use crate::definition::log;
use crate::effect::is_yes;
use crate::effect::outcome;
use crate::effect::outcome_of;
use crate::effect::outcome_view;
use crate::effect::shown;
use crate::effect::yes;
use crate::effect::Activation;
use crate::effect::Effect;
use crate::effect::EffectOf;
use crate::effect::EffectView;
use crate::effect::Reply;
use crate::effect::ReplyView;
use crate::locations::is_managed;
use crate::locations::managed;
use crate::locations::Platform;
use crate::text::concat;
use crate::window::WEB_PORT;

verus! {

/// The states of the launcher's coming up, over texts `T`.
#[derive(Debug, PartialEq, Eq)]
pub enum SetupOf<T> {
    /// Nothing has happened yet.
    Start,
    /// Does the service start at login?
    Autostart,
    /// The definition is being seen to.
    Definition,
    /// Does the service answer?
    Probing,
    /// The menu is being made.
    Menu,
    /// The tray icon is being made.
    Tray,
    /// The launcher is up, or could not come up.
    Ended(Result<(), T>),
}

/// The states of the launcher's coming up.
pub type Setup = SetupOf<String>;

/// The states of the launcher's coming up as the contracts speak of them.
pub type SetupView = SetupOf<Seq<char>>;

impl SetupOf<String> {
    pub open spec fn view(&self) -> SetupView {
        match *self {
            SetupOf::Start => SetupOf::Start,
            SetupOf::Autostart => SetupOf::Autostart,
            SetupOf::Definition => SetupOf::Definition,
            SetupOf::Probing => SetupOf::Probing,
            SetupOf::Menu => SetupOf::Menu,
            SetupOf::Tray => SetupOf::Tray,
            SetupOf::Ended(r) => SetupOf::Ended(outcome_view(r)),
        }
    }
}

/// The launcher's coming up. What was chosen about login is read, the definition is seen to, and
/// a service that does not answer is started. Then come the menu, the icon, the status line and
/// the window.
pub open spec fn setup_step(platform: Platform, state: SetupView, reply: ReplyView) -> (
    SetupView,
    Seq<EffectView>,
) {
    match state {
        SetupOf::Start => if !managed(platform) {
            (
                SetupOf::Probing,
                seq![
                    EffectOf::Log("=== dsh-launcher 启动 ==="@),
                    EffectOf::ProbePort(WEB_PORT),
                ],
            )
        } else if platform == Platform::MacOs {
            (
                SetupOf::Autostart,
                seq![
                    EffectOf::Log("=== dsh-launcher 启动 ==="@),
                    EffectOf::SetActivation(Activation::Accessory),
                    EffectOf::ReadAutostart,
                ],
            )
        } else {
            (
                SetupOf::Autostart,
                seq![EffectOf::Log("=== dsh-launcher 启动 ==="@), EffectOf::ReadAutostart],
            )
        },
        SetupOf::Autostart => (
            SetupOf::Definition,
            seq![EffectOf::StoreAutostart(yes(reply)), EffectOf::EnsureDefinition],
        ),
        SetupOf::Definition => (
            SetupOf::Probing,
            (match outcome(reply) {
                Ok(_) => seq![],
                Err(e) => seq![
                    EffectOf::Warn("dsh-launcher: "@ + e),
                    EffectOf::Log("setup: 服务定义失败 "@ + e),
                ],
            }) + seq![EffectOf::ProbePort(WEB_PORT)],
        ),
        SetupOf::Probing => if yes(reply) {
            (
                SetupOf::Menu,
                seq![
                    EffectOf::Log("setup: dsh 已在运行，跳过自动拉起"@),
                    EffectOf::BuildMenu,
                ],
            )
        } else if managed(platform) {
            (
                SetupOf::Menu,
                seq![
                    EffectOf::Log("setup: 3080 不可达，自动拉起 dsh"@),
                    EffectOf::ServiceStart,
                    EffectOf::ShowActionMsg("dsh 未运行，已自动启动"@),
                    EffectOf::BuildMenu,
                ],
            )
        } else {
            (
                SetupOf::Menu,
                seq![
                    EffectOf::Log("setup: 3080 不可达，自动拉起 dsh"@),
                    EffectOf::ShowActionMsg("dsh 未运行，已自动启动"@),
                    EffectOf::BuildMenu,
                ],
            )
        },
        SetupOf::Menu => match outcome(reply) {
            Ok(_) => (
                SetupOf::Tray,
                seq![
                    EffectOf::Log("setup: 菜单构建完成"@),
                    EffectOf::KeepMenu,
                    EffectOf::BuildTray { id: "main"@, tooltip: "DSH启动器"@ },
                ],
            ),
            Err(e) => (SetupOf::Ended(Err(e)), seq![]),
        },
        SetupOf::Tray => match outcome(reply) {
            Ok(_) => (
                SetupOf::Ended(Ok(())),
                seq![
                    EffectOf::Log("setup: 托盘构建完成"@),
                    EffectOf::StartStatusPoller,
                    EffectOf::Log("setup: 状态轮询已启动"@),
                    EffectOf::StartStartupUi,
                    EffectOf::Log("setup: 已安排启动时打开内置窗口"@),
                ],
            ),
            Err(e) => (SetupOf::Ended(Err(e)), seq![]),
        },
        SetupOf::Ended(r) => (SetupOf::Ended(r), seq![]),
    }
}

/// The next step of the launcher's coming up.
pub fn run(platform: Platform, state: Setup, reply: Reply) -> (r: (Setup, Vec<Effect>))
    ensures
        (r.0@, shown(r.1@)) == setup_step(platform, state@, reply@),
{
    let ghost whole = setup_step(platform, state@, reply@);
    let mut effects: Vec<Effect> = Vec::new();
    let next: Setup;
    match state {
        SetupOf::Start => {
            effects.push(log("=== dsh-launcher 启动 ==="));
            if !is_managed(platform) {
                effects.push(EffectOf::ProbePort(WEB_PORT));
                next = SetupOf::Probing;
            } else {
                if platform == Platform::MacOs {
                    effects.push(EffectOf::SetActivation(Activation::Accessory));
                }
                effects.push(EffectOf::ReadAutostart);
                next = SetupOf::Autostart;
            }
        },
        SetupOf::Autostart => {
            effects.push(EffectOf::StoreAutostart(is_yes(&reply)));
            effects.push(EffectOf::EnsureDefinition);
            next = SetupOf::Definition;
        },
        SetupOf::Definition => {
            match outcome_of(reply) {
                Ok(_) => {},
                Err(e) => {
                    effects.push(EffectOf::Warn(concat("dsh-launcher: ", e.as_str())));
                    effects.push(EffectOf::Log(concat("setup: 服务定义失败 ", e.as_str())));
                },
            }
            effects.push(EffectOf::ProbePort(WEB_PORT));
            next = SetupOf::Probing;
        },
        SetupOf::Probing => {
            if is_yes(&reply) {
                effects.push(log("setup: dsh 已在运行，跳过自动拉起"));
            } else {
                effects.push(log("setup: 3080 不可达，自动拉起 dsh"));
                if is_managed(platform) {
                    effects.push(EffectOf::ServiceStart);
                }
                effects.push(EffectOf::ShowActionMsg("dsh 未运行，已自动启动".to_string()));
            }
            effects.push(EffectOf::BuildMenu);
            next = SetupOf::Menu;
        },
        SetupOf::Menu => match outcome_of(reply) {
            Ok(_) => {
                effects.push(log("setup: 菜单构建完成"));
                effects.push(EffectOf::KeepMenu);
                effects.push(
                    EffectOf::BuildTray {
                        id: "main".to_string(),
                        tooltip: "DSH启动器".to_string(),
                    },
                );
                next = SetupOf::Tray;
            },
            Err(e) => {
                next = SetupOf::Ended(Err(e));
            },
        },
        SetupOf::Tray => match outcome_of(reply) {
            Ok(_) => {
                effects.push(log("setup: 托盘构建完成"));
                effects.push(EffectOf::StartStatusPoller);
                effects.push(log("setup: 状态轮询已启动"));
                effects.push(EffectOf::StartStartupUi);
                effects.push(log("setup: 已安排启动时打开内置窗口"));
                next = SetupOf::Ended(Ok(()));
            },
            Err(e) => {
                next = SetupOf::Ended(Err(e));
            },
        },
        SetupOf::Ended(r) => {
            next = SetupOf::Ended(r);
        },
    }
    assert(shown(effects@) =~= whole.1);
    (next, effects)
}

} // verus!

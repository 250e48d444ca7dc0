//! What the menu, the status line, the window and the launcher's coming up do, step by step.

use vstd::prelude::*;

use crate::desktop_laws::entry_id;
use crate::effect::Activation;
use crate::effect::EffectOf;
use crate::effect::EffectView;
use crate::effect::ReplyOf;
use crate::effect::ReplyView;
use crate::effect::Scale;
use crate::launcher::setup_step;
use crate::launcher::SetupOf;
use crate::launcher::SetupView;
use crate::locations::Platform;
use crate::text::ascii_lower;
use crate::tray::menu;
use crate::tray::menu_step;
use crate::tray::status_step;
use crate::tray::ActionMsg;
use crate::tray::Choice;
use crate::tray::MenuEntryOf;
use crate::tray::MenuEntryView;
use crate::tray::Polling;
use crate::window::external;
use crate::window::is_web_address;
use crate::window::load_step;
use crate::window::open_step;
use crate::window::path_opener;
use crate::window::save_step;
use crate::window::startup_step;
use crate::window::url_opener;
use crate::window::window_effects;
use crate::window::LoadingOf;
use crate::window::LoadingView;
use crate::window::Opening;
use crate::window::Saving;
use crate::window::Waiting;
use crate::window::WindowEvent;

verus! {

// ---- the menu ----

/// The text of a menu entry, where it has one.
pub open spec fn entry_text(e: MenuEntryView) -> Option<Seq<char>> {
    match e {
        MenuEntryOf::Item { text, .. } => Some(text),
        MenuEntryOf::Check { text, .. } => Some(text),
        MenuEntryOf::Separator => None,
    }
}

/// The entries of the menu stand in their order, in groups with a line between them, and none of
/// them but the one for login tells more than its name and text.
pub proof fn law_menu_is_in_order(autostart: bool)
    ensures
        menu(autostart).map_values(|e: MenuEntryView| entry_id(e)) == seq![
            Some("status"@),
            Some("open"@),
            None,
            Some("restart"@),
            Some("stop"@),
            Some("start"@),
            None,
            Some("autostart"@),
            Some("log"@),
            None,
            Some("quit"@),
        ],
        menu(autostart).map_values(|e: MenuEntryView| entry_text(e)) == seq![
            Some("dsh: 检测中…"@),
            Some("打开 dsh 界面"@),
            None,
            Some("重启 dsh"@),
            Some("停止 dsh"@),
            Some("启动 dsh"@),
            None,
            Some("开机自启 dsh"@),
            Some("查看日志"@),
            None,
            Some("退出托盘（dsh 继续运行）"@),
        ],
        forall|i: int|
            0 <= i < menu(autostart).len() ==> ((#[trigger] menu(autostart)[i]) is Check <==> i
                == 7),
        menu(autostart)[7] matches MenuEntryOf::Check { checked, .. } && checked == autostart,
{
    assert(menu(autostart).map_values(|e: MenuEntryView| entry_id(e)) =~= seq![
        Some("status"@),
        Some("open"@),
        None,
        Some("restart"@),
        Some("stop"@),
        Some("start"@),
        None,
        Some("autostart"@),
        Some("log"@),
        None,
        Some("quit"@),
    ]);
    assert(menu(autostart).map_values(|e: MenuEntryView| entry_text(e)) =~= seq![
        Some("dsh: 检测中…"@),
        Some("打开 dsh 界面"@),
        None,
        Some("重启 dsh"@),
        Some("停止 dsh"@),
        Some("启动 dsh"@),
        None,
        Some("开机自启 dsh"@),
        Some("查看日志"@),
        None,
        Some("退出托盘（dsh 继续运行）"@),
    ]);
}

/// A menu choice writes nothing but an empty log file, and that only after the answer that there
/// is none; no choice touches a log file that is there. So it is on every platform.
pub proof fn law_menu_writes_only_a_missing_log(
    platform: Platform,
    id: Seq<char>,
    autostart: bool,
    log_file: Seq<u8>,
    state: Choice,
    reply: ReplyView,
    i: int,
)
    requires
        0 <= i < menu_step(platform, id, autostart, log_file, state, reply).1.len(),
        menu_step(platform, id, autostart, log_file, state, reply).1[i] is WriteText,
    ensures
        menu_step(platform, id, autostart, log_file, state, reply).1[i] == (EffectView::WriteText {
            path: log_file,
            text: ""@,
        }),
        reply != ReplyView::Flag(true),
        state == Choice::Log,
        menu_step(platform, "log"@, autostart, log_file, Choice::Start, reply).0 == Choice::Log,
        menu_step(platform, "log"@, autostart, log_file, Choice::Start, reply).1.last()
            == EffectView::Exists(log_file),
{
    reveal_strlit("open");
    reveal_strlit("restart");
    reveal_strlit("stop");
    reveal_strlit("start");
    reveal_strlit("autostart");
    reveal_strlit("log");
    let first = crate::tray::chosen(platform, id, autostart, log_file).1;
    let asked = menu_step(platform, id, autostart, log_file, state, reply).1;
    if state == Choice::Start {
        assert(asked[0] is Log);
        assert(asked[i] == first[i - 1]);
    }
}

/// What is done about the log file goes by the answer alone, on every platform: a file that is
/// there is opened, and a missing one is made and then opened, with the opener of the platform.
pub proof fn law_log_is_opened(
    platform: Platform,
    id: Seq<char>,
    autostart: bool,
    log_file: Seq<u8>,
    there: bool,
)
    ensures
        ({
            let made = seq![EffectView::WriteText { path: log_file, text: ""@ }];
            let opener = match platform {
                Platform::MacOs => seq![
                    EffectView::SpawnOn { program: "open"@, path: log_file },
                ],
                Platform::Linux => seq![
                    EffectView::SpawnOn { program: "xdg-open"@, path: log_file },
                ],
                Platform::Windows => Seq::empty(),
            };
            menu_step(platform, id, autostart, log_file, Choice::Log, ReplyOf::Flag(there)) == (
                Choice::Ended,
                if there {
                    opener
                } else {
                    made + opener
                },
            )
        }),
{
    let opener = path_opener(platform, log_file);
    match platform {
        Platform::MacOs => {
            assert(opener =~= seq![EffectView::SpawnOn { program: "open"@, path: log_file }]);
        },
        Platform::Linux => {
            assert(opener =~= seq![EffectView::SpawnOn { program: "xdg-open"@, path: log_file }]);
        },
        Platform::Windows => {
            assert(opener =~= Seq::empty());
        },
    }
}

/// Every choice is noted in the log by its name before anything else is done.
pub proof fn law_choices_are_noted(
    platform: Platform,
    id: Seq<char>,
    autostart: bool,
    log_file: Seq<u8>,
    reply: ReplyView,
)
    ensures
        menu_step(platform, id, autostart, log_file, Choice::Start, reply).1.len() > 0,
        menu_step(platform, id, autostart, log_file, Choice::Start, reply).1[0] == EffectView::Log(
            "menu: "@ + id,
        ),
{
}

/// A choice about login is noted with the value that is chosen: the other one.
pub proof fn law_login_choice_is_noted(
    platform: Platform,
    autostart: bool,
    log_file: Seq<u8>,
    reply: ReplyView,
)
    ensures
        menu_step(platform, "autostart"@, autostart, log_file, Choice::Start, reply).1[1]
            == EffectView::Log(
            "autostart: 切换为 "@ + if autostart {
                "false"@
            } else {
                "true"@
            },
        ),
{
    reveal_strlit("open");
    reveal_strlit("restart");
    reveal_strlit("stop");
    reveal_strlit("start");
    reveal_strlit("autostart");
}

// ---- the status line ----

/// What shows a text: at the icon and in the first line of the menu, for two seconds.
pub open spec fn shows(text: Seq<char>) -> Seq<EffectView> {
    seq![
        EffectOf::SetTooltip(text),
        EffectOf::SetMenuText { id: "status"@, text },
        EffectOf::Sleep(2000),
    ]
}

/// A message is shown for three seconds in place of the status. Otherwise the port is looked at,
/// and what the look found is noted and shown.
pub proof fn law_status_line(m: ActionMsg, now: u64, reply: ReplyView, up: bool)
    ensures
        now < m.at + 3_000_000_000 ==> status_step(Some(m), now, Polling::Start, reply) == (
            Polling::Start,
            shows(m.text@),
        ),
        now >= m.at + 3_000_000_000 ==> status_step(Some(m), now, Polling::Start, reply) == (
            Polling::Probing,
            seq![EffectView::ProbePort(3080)],
        ),
        status_step(None, now, Polling::Start, reply) == (
            Polling::Probing,
            seq![EffectView::ProbePort(3080)],
        ),
        status_step(Some(m), now, Polling::Probing, ReplyOf::Flag(up)) == status_step(
            None,
            now,
            Polling::Probing,
            ReplyOf::Flag(up),
        ),
        ({
            let text = if up {
                "dsh: 运行中"@
            } else {
                "dsh: 已停止"@
            };
            status_step(None, now, Polling::Probing, ReplyOf::Flag(up)) == (
                Polling::Start,
                seq![EffectView::Log("status: "@ + text)] + shows(text),
            )
        }),
{
}

// ---- addresses ----

/// An address is handed to the opener of the platform, as the last word of its command line.
pub proof fn law_openers(url: Seq<char>)
    ensures
        url_opener(Platform::MacOs, url) == (EffectView::Spawn {
            program: "open"@,
            args: seq![url],
        }),
        url_opener(Platform::Linux, url) == (EffectView::Spawn {
            program: "xdg-open"@,
            args: seq![url],
        }),
        url_opener(Platform::Windows, url) == (EffectView::Spawn {
            program: "cmd"@,
            args: seq!["/c"@, "start"@, ""@, url],
        }),
{
}

/// An address is for a browser where it goes on behind `http://` or `https://`, in letters of
/// either case. Such an address is noted and opened, and nothing is done about any other.
pub proof fn law_web_addresses(platform: Platform, scheme: Seq<char>, rest: Seq<char>)
    ensures
        ascii_lower(scheme) == "http://"@ || ascii_lower(scheme) == "https://"@ ==> external(
            platform,
            scheme + rest,
        ) == seq![
            EffectView::Log("open_external: "@ + (scheme + rest)),
            url_opener(platform, scheme + rest),
        ],
        scheme.len() == 7 && ascii_lower(scheme) != "http://"@ && ascii_lower(scheme) != "https:/"@
            ==> external(platform, scheme + rest).len() == 0,
        scheme.len() < 7 ==> external(platform, scheme).len() == 0,
{
    let url = scheme + rest;
    let low = ascii_lower(url);
    let n = scheme.len() as int;
    reveal_strlit("http://");
    reveal_strlit("https://");
    reveal_strlit("https:/");
    assert(low.take(n) =~= ascii_lower(scheme));
    if ascii_lower(scheme) == "http://"@ {
        assert("http://"@.is_prefix_of(low)) by {
            assert(ascii_lower(scheme).len() == scheme.len());
            assert(low.subrange(0, 7) =~= "http://"@);
        }
        assert(is_web_address(url));
    } else if ascii_lower(scheme) == "https://"@ {
        assert("https://"@.is_prefix_of(low)) by {
            assert(ascii_lower(scheme).len() == scheme.len());
            assert(low.subrange(0, 8) =~= "https://"@);
        }
        assert(is_web_address(url));
    }
    if n == 7 {
        if "http://"@.is_prefix_of(low) {
            assert(ascii_lower(scheme) =~= "http://"@);
        }
        if "https://"@.is_prefix_of(low) {
            assert(ascii_lower(scheme) =~= "https:/"@);
        }
    }
    assert(ascii_lower(scheme).len() == scheme.len());
}

// ---- the window ----

/// A window that is there is shown and given the focus. Where there is none, one is made for the
/// launcher's address; it is then watched, and a second after its making its size is remembered.
pub proof fn law_window_is_shown(platform: Platform, now: u64, later: u64, reply: ReplyView)
    requires
        now + 1_000_000_000 <= u64::MAX,
    ensures
        open_step(platform, now, Opening::Looking, ReplyOf::Flag(true)) == (
            Opening::Ended,
            seq![
                EffectView::ShowWindow,
                EffectView::FocusWindow,
                EffectView::Log("open_builtin: 复用已有窗口"@),
            ],
        ),
        ({
            let (making, e1) = open_step(platform, now, Opening::Looking, ReplyOf::Flag(false));
            let (end, e2) = open_step(platform, later, making, ReplyOf::Done(Ok(())));
            &&& e1 == seq![
                EffectView::CreateWindow {
                    label: "dsh-ui"@,
                    url: "http://127.0.0.1:3080"@,
                    title: "dsh 界面"@,
                },
            ]
            &&& end == Opening::Ended
            &&& e2.skip(1) == seq![
                EffectView::WatchWindow { persist_after: (now + 1_000_000_000) as u64 },
                EffectView::ShowWindow,
                EffectView::FocusWindow,
            ]
        }),
        open_step(platform, now, Opening::Start, reply).1.last() == EffectView::FindWindow(
            "dsh-ui"@,
        ),
        open_step(platform, now, Opening::Start, reply).1.contains(
            EffectView::SetActivation(Activation::Regular),
        ) <==> platform == Platform::MacOs,
{
    let (making, e1) = open_step(platform, now, Opening::Looking, ReplyOf::Flag(false));
    let (end, e2) = open_step(platform, later, making, ReplyOf::Done(Ok(())));
    assert(e2.skip(1) =~= seq![
        EffectView::WatchWindow { persist_after: (now + 1_000_000_000) as u64 },
        EffectView::ShowWindow,
        EffectView::FocusWindow,
    ]);
    let first = open_step(platform, now, Opening::Start, reply).1;
    if platform == Platform::MacOs {
        assert(first[1] == EffectView::SetActivation(Activation::Regular));
    }
}

/// A new size is remembered as the event brought it once the window has settled, with the scale
/// of the window or, where the scale has changed, of the event. Closing leaves, on macOS alone,
/// only the icon in the menu bar. Any other event is of no account.
pub proof fn law_settled_size_is_remembered(
    platform: Platform,
    width: u32,
    height: u32,
    now: u64,
    persist_after: u64,
)
    ensures
        now >= persist_after ==> window_effects(
            platform,
            WindowEvent::Resized { width, height },
            now,
            persist_after,
        ) == seq![EffectView::SaveWindowSize { width, height, scale: Scale::Window }],
        now >= persist_after ==> window_effects(
            platform,
            WindowEvent::ScaleFactorChanged { width, height },
            now,
            persist_after,
        ) == seq![EffectView::SaveWindowSize { width, height, scale: Scale::Event }],
        window_effects(platform, WindowEvent::CloseRequested, now, persist_after).skip(3)
            == if platform == Platform::MacOs {
            seq![EffectView::SetActivation(Activation::Accessory)]
        } else {
            Seq::empty()
        },
        window_effects(platform, WindowEvent::Other, now, persist_after).len() == 0,
{
    let closed = window_effects(platform, WindowEvent::CloseRequested, now, persist_after);
    if platform == Platform::MacOs {
        assert(closed.skip(3) =~= seq![EffectView::SetActivation(Activation::Accessory)]);
    } else {
        assert(closed.skip(3) =~= Seq::empty());
    }
}

/// A valid size is written to its file, with or without a directory to be made first. What has no
/// written form is not written, and every failure is noted with its reason.
pub proof fn law_size_is_written(
    path: Seq<u8>,
    text: Seq<char>,
    e: Seq<char>,
    reply: ReplyView,
    dir: Option<Seq<u8>>,
)
    ensures
        save_step(None, path, true, Ok(text), Saving::Start, reply) == (
            Saving::File,
            seq![EffectView::WriteText { path, text }],
        ),
        save_step(dir, path, true, Err(e), Saving::Directory, reply) == (
            Saving::Ended,
            seq![EffectView::Log("save_window_size: 序列化失败 "@ + e)],
        ),
        save_step(None, path, true, Err(e), Saving::Start, reply) == (
            Saving::Ended,
            seq![EffectView::Log("save_window_size: 序列化失败 "@ + e)],
        ),
        save_step(dir, path, true, Ok(text), Saving::File, ReplyOf::Done(Ok(()))) == (
            Saving::Ended,
            Seq::<EffectView>::empty(),
        ),
        save_step(dir, path, true, Ok(text), Saving::File, ReplyOf::Done(Err(e))) == (
            Saving::Ended,
            seq![EffectView::Log("save_window_size: 写入失败 "@ + e)],
        ),
        load_step(path, LoadingOf::Reading, ReplyOf::Text(Err(e))) == (
            LoadingView::Ended(None),
            Seq::<EffectView>::empty(),
        ),
{
}

/// At startup the port is looked at every 200 milliseconds, for ten seconds at most, and once
/// more at the end. Then the window is opened, and the log tells whether the service answered.
pub proof fn law_startup(start: u64, now: u64, reply: ReplyView, up: bool, e: Seq<char>)
    requires
        start + 10_000_000_000 <= u64::MAX,
    ensures
        ({
            let (s1, e1) = startup_step(start, Waiting::Start, reply);
            let (s2, e2) = startup_step(now, s1, ReplyOf::Flag(up));
            &&& e1 == seq![EffectView::ProbePort(3080)]
            &&& !up && now < start + 10_000_000_000 ==> s2 == s1 && e2 == seq![
                EffectView::Sleep(200),
                EffectView::ProbePort(3080),
            ]
            &&& up || now >= start + 10_000_000_000 ==> s2 == Waiting::Last && e2 == seq![
                EffectView::ProbePort(3080),
            ]
        }),
        startup_step(now, Waiting::Last, ReplyOf::Flag(up)) == (
            Waiting::Opening,
            seq![
                EffectView::Log(
                    if up {
                        "startup_ui: dsh 已就绪，准备打开内置窗口"@
                    } else {
                        "startup_ui: 等待 dsh 超时，仍尝试打开内置窗口"@
                    },
                ),
                EffectView::OpenDshUiOnMainThread,
            ],
        ),
        startup_step(now, Waiting::Opening, ReplyOf::Done(Ok(()))) == (
            Waiting::Ended,
            Seq::<EffectView>::empty(),
        ),
        startup_step(now, Waiting::Opening, ReplyOf::Done(Err(e))) == (
            Waiting::Ended,
            seq![EffectView::Log("startup_ui: 调度内置窗口失败 "@ + e)],
        ),
{
}

// ---- the launcher's coming up ----

/// The steps of the launcher's coming up, each with its answer.
pub open spec fn coming_up(
    platform: Platform,
    state: SetupView,
    answers: Seq<ReplyView>,
) -> (SetupView, Seq<EffectView>)
    decreases answers.len(),
{
    if answers.len() == 0 {
        (state, Seq::empty())
    } else {
        let (before, done) = coming_up(platform, state, answers.drop_last());
        let (next, asked) = setup_step(platform, before, answers.last());
        (next, done + asked)
    }
}

/// Where the platform can run the service, the launcher first asks whether it starts at login,
/// remembers the answer as it was given, and sees to the definition, whatever comes of that.
pub proof fn law_setup_remembers_login(
    platform: Platform,
    first: ReplyView,
    login: bool,
    e: Seq<char>,
)
    requires
        platform != Platform::Windows,
    ensures
        setup_step(platform, SetupOf::Start, first).0 == SetupView::Autostart,
        setup_step(platform, SetupOf::Start, first).1.last() == EffectView::ReadAutostart,
        setup_step(platform, SetupOf::Start, first).1.contains(
            EffectView::SetActivation(Activation::Accessory),
        ) <==> platform == Platform::MacOs,
        setup_step(platform, SetupOf::Autostart, ReplyOf::Flag(login)) == (
            SetupView::Definition,
            seq![EffectView::StoreAutostart(login), EffectView::EnsureDefinition],
        ),
        setup_step(platform, SetupOf::Definition, ReplyOf::Done(Ok(()))) == (
            SetupView::Probing,
            seq![EffectView::ProbePort(3080)],
        ),
        setup_step(platform, SetupOf::Definition, ReplyOf::Done(Err(e))) == (
            SetupView::Probing,
            seq![
                EffectView::Warn("dsh-launcher: "@ + e),
                EffectView::Log("setup: 服务定义失败 "@ + e),
                EffectView::ProbePort(3080),
            ],
        ),
{
    let asked = setup_step(platform, SetupOf::Start, first).1;
    if platform == Platform::MacOs {
        assert(asked[1] == EffectView::SetActivation(Activation::Accessory));
    }
    assert(setup_step(platform, SetupOf::Definition, ReplyOf::Done(Ok(()))).1 =~= seq![
        EffectView::ProbePort(3080),
    ]);
    assert(setup_step(platform, SetupOf::Definition, ReplyOf::Done(Err(e))).1 =~= seq![
        EffectView::Warn("dsh-launcher: "@ + e),
        EffectView::Log("setup: 服务定义失败 "@ + e),
        EffectView::ProbePort(3080),
    ]);
}

/// A service that answers is left alone. One that does not is started, where the platform can,
/// and the status line says so. Either way the menu is made next, then the icon, then the status
/// line and the window are set going, and a failure of the menu or the icon is handed on.
pub proof fn law_setup_goes_on_to_menu_and_icon(platform: Platform, e: Seq<char>, r: ReplyView)
    ensures
        setup_step(Platform::Windows, SetupOf::Start, r).1.last() == EffectView::ProbePort(3080),
        setup_step(Platform::Windows, SetupOf::Start, r).0 == SetupView::Probing,
        setup_step(platform, SetupOf::Probing, ReplyOf::Flag(true)) == (
            SetupView::Menu,
            seq![
                EffectView::Log("setup: dsh 已在运行，跳过自动拉起"@),
                EffectView::BuildMenu,
            ],
        ),
        setup_step(platform, SetupOf::Probing, ReplyOf::Flag(false)).0 == SetupView::Menu,
        setup_step(platform, SetupOf::Probing, ReplyOf::Flag(false)).1 == seq![
            EffectView::Log("setup: 3080 不可达，自动拉起 dsh"@),
        ] + (if platform == Platform::Windows {
            Seq::<EffectView>::empty()
        } else {
            seq![EffectView::ServiceStart]
        }) + seq![
            EffectView::ShowActionMsg("dsh 未运行，已自动启动"@),
            EffectView::BuildMenu,
        ],
        coming_up(
            platform,
            SetupOf::Menu,
            seq![ReplyOf::Done(Ok(())), ReplyOf::Done(Ok(()))],
        ) == (
            SetupView::Ended(Ok(())),
            seq![
                EffectView::Log("setup: 菜单构建完成"@),
                EffectView::KeepMenu,
                EffectView::BuildTray { id: "main"@, tooltip: "DSH启动器"@ },
                EffectView::Log("setup: 托盘构建完成"@),
                EffectView::StartStatusPoller,
                EffectView::Log("setup: 状态轮询已启动"@),
                EffectView::StartStartupUi,
                EffectView::Log("setup: 已安排启动时打开内置窗口"@),
            ],
        ),
        setup_step(platform, SetupOf::Menu, ReplyOf::Done(Err(e))) == (
            SetupView::Ended(Err(e)),
            Seq::<EffectView>::empty(),
        ),
        setup_step(platform, SetupOf::Tray, ReplyOf::Done(Err(e))) == (
            SetupView::Ended(Err(e)),
            Seq::<EffectView>::empty(),
        ),
{
    reveal_with_fuel(coming_up, 3);
    let ok: ReplyView = ReplyOf::Done(Ok(()));
    assert(seq![ok, ok].drop_last() =~= seq![ok]);
    assert(seq![ok].drop_last() =~= Seq::empty());
    let asked = coming_up(platform, SetupOf::Menu, seq![ok, ok]).1;
    assert(asked =~= seq![
        EffectView::Log("setup: 菜单构建完成"@),
        EffectView::KeepMenu,
        EffectView::BuildTray { id: "main"@, tooltip: "DSH启动器"@ },
        EffectView::Log("setup: 托盘构建完成"@),
        EffectView::StartStatusPoller,
        EffectView::Log("setup: 状态轮询已启动"@),
        EffectView::StartStartupUi,
        EffectView::Log("setup: 已安排启动时打开内置窗口"@),
    ]);
    let silent = setup_step(platform, SetupOf::Probing, ReplyOf::Flag(false)).1;
    assert(silent =~= seq![EffectView::Log("setup: 3080 不可达，自动拉起 dsh"@)] + (if platform
        == Platform::Windows {
        Seq::<EffectView>::empty()
    } else {
        seq![EffectView::ServiceStart]
    }) + seq![
        EffectView::ShowActionMsg("dsh 未运行，已自动启动"@),
        EffectView::BuildMenu,
    ]);
}

} // verus!

use dsh_launcher::effect::Activation;
use dsh_launcher::effect::Effect;
use dsh_launcher::effect::Reply;
use dsh_launcher::effect::Scale;
use dsh_launcher::launcher::run;
use dsh_launcher::launcher::Setup;
use dsh_launcher::locations::Platform;
use dsh_launcher::tray::build_menu;
use dsh_launcher::tray::handle_menu;
use dsh_launcher::tray::probe_status;
use dsh_launcher::tray::set_menu_text;
use dsh_launcher::tray::show_action_msg;
use dsh_launcher::tray::status_poller;
use dsh_launcher::tray::ActionMsg;
use dsh_launcher::tray::Choice;
use dsh_launcher::tray::DshStatus;
use dsh_launcher::tray::MenuEntry;
use dsh_launcher::tray::MenuItemKind;
use dsh_launcher::tray::Polling;
use dsh_launcher::window::load_window_size;
use dsh_launcher::window::on_new_window;
use dsh_launcher::window::on_window_event;
use dsh_launcher::window::open_builtin;
use dsh_launcher::window::open_dsh_ui;
use dsh_launcher::window::open_external;
use dsh_launcher::window::open_path;
use dsh_launcher::window::open_url;
use dsh_launcher::window::save_window_size;
use dsh_launcher::window::startup_ui;
use dsh_launcher::window::Loading;
use dsh_launcher::window::Opening;
use dsh_launcher::window::Saving;
use dsh_launcher::window::Waiting;
use dsh_launcher::window::WindowEvent;

const SECOND: u64 = 1_000_000_000;

fn s(t: &str) -> String {
    t.to_string()
}

fn b(t: &str) -> Vec<u8> {
    t.as_bytes().to_vec()
}

fn log(t: &str) -> Effect {
    Effect::Log(s(t))
}

fn done() -> Reply {
    Reply::Done(Ok(()))
}

fn failed(e: &str) -> Reply {
    Reply::Done(Err(s(e)))
}

fn spawn(program: &str, args: &[&str]) -> Effect {
    Effect::Spawn { program: s(program), args: args.iter().map(|a| a.to_string()).collect() }
}

#[test]
fn addresses_open_in_the_browser_of_the_platform() {
    assert_eq!(open_url(Platform::MacOs, "http://x"), spawn("open", &["http://x"]));
    assert_eq!(open_url(Platform::Linux, "http://x"), spawn("xdg-open", &["http://x"]));
    assert_eq!(
        open_url(Platform::Windows, "http://x"),
        spawn("cmd", &["/c", "start", "", "http://x"])
    );
}

#[test]
fn files_open_as_the_platform_likes() {
    let p = b("/l");
    assert_eq!(
        open_path(Platform::MacOs, &p),
        vec![Effect::SpawnOn { program: s("open"), path: b("/l") }]
    );
    assert_eq!(
        open_path(Platform::Linux, &p),
        vec![Effect::SpawnOn { program: s("xdg-open"), path: b("/l") }]
    );
    assert_eq!(open_path(Platform::Windows, &p), vec![]);
}

#[test]
fn only_web_addresses_leave_the_window() {
    let url = "HTTPS://Example.org/A";
    assert_eq!(
        open_external(Platform::Linux, url),
        vec![log("open_external: HTTPS://Example.org/A"), spawn("xdg-open", &[url])]
    );
    assert_eq!(open_external(Platform::MacOs, "http://x").len(), 2);
    for other in ["about:blank", "data:text/html,x", "javascript:1", "http:/x", " http://x", ""] {
        assert_eq!(open_external(Platform::Linux, other), vec![]);
    }
}

#[test]
fn an_open_window_is_used_again() {
    let (state, effects) = open_dsh_ui(Platform::MacOs, 0, Opening::Start, Reply::Nothing);
    assert_eq!(
        effects,
        vec![
            log("open_dsh_ui: 使用内置浏览器"),
            Effect::SetActivation(Activation::Regular),
            Effect::FindWindow(s("dsh-ui")),
        ]
    );
    assert_eq!(
        open_dsh_ui(Platform::MacOs, 0, state, Reply::Flag(true)),
        (
            Opening::Ended,
            vec![Effect::ShowWindow, Effect::FocusWindow, log("open_builtin: 复用已有窗口")]
        )
    );
}

#[test]
fn a_window_is_made_where_there_is_none() {
    let (state, effects) = open_builtin(Platform::Linux, 5, Opening::Start, Reply::Nothing);
    assert_eq!(
        effects,
        vec![log("open_dsh_ui: 使用内置浏览器"), Effect::FindWindow(s("dsh-ui"))]
    );
    let (state, effects) = open_builtin(Platform::Linux, 5, state, Reply::Flag(false));
    assert_eq!(state, Opening::Making { persist_after: SECOND + 5 });
    assert_eq!(
        effects,
        vec![Effect::CreateWindow {
            label: s("dsh-ui"),
            url: s("http://127.0.0.1:3080"),
            title: s("dsh 界面"),
        }]
    );
    assert_eq!(
        open_builtin(Platform::Linux, 9, state, done()),
        (
            Opening::Ended,
            vec![
                log("open_builtin: 内置窗口已创建"),
                Effect::WatchWindow { persist_after: SECOND + 5 },
                Effect::ShowWindow,
                Effect::FocusWindow,
            ]
        )
    );
    assert_eq!(
        open_builtin(Platform::Linux, 9, state, failed("x")),
        (
            Opening::Ended,
            vec![
                log("open_builtin: 创建窗口失败 x"),
                spawn("xdg-open", &["http://127.0.0.1:3080"]),
            ]
        )
    );
}

#[test]
fn sizes_are_remembered_once_the_window_has_settled() {
    let p = Platform::Linux;
    let resized = WindowEvent::Resized { width: 800, height: 600 };
    let scaled = WindowEvent::ScaleFactorChanged { width: 1600, height: 1200 };
    assert_eq!(on_window_event(p, resized, 9, 10), vec![]);
    assert_eq!(on_window_event(p, scaled, 9, 10), vec![]);
    assert_eq!(
        on_window_event(p, resized, 10, 10),
        vec![Effect::SaveWindowSize { width: 800, height: 600, scale: Scale::Window }]
    );
    assert_eq!(
        on_window_event(p, scaled, 10, 10),
        vec![Effect::SaveWindowSize { width: 1600, height: 1200, scale: Scale::Event }]
    );
    assert_eq!(on_window_event(p, WindowEvent::Other, 10, 10), vec![]);
}

#[test]
fn closing_hides_the_window() {
    let hide = || vec![Effect::SaveCurrentWindowSize, Effect::PreventClose, Effect::HideWindow];
    assert_eq!(on_window_event(Platform::Linux, WindowEvent::CloseRequested, 0, 10), hide());
    let mut on_macos = hide();
    on_macos.push(Effect::SetActivation(Activation::Accessory));
    assert_eq!(on_window_event(Platform::MacOs, WindowEvent::CloseRequested, 0, 10), on_macos);
}

#[test]
fn remembering_a_size() {
    let path = b("/c/dsh-launcher/window-size.json");
    let parent = b("/c/dsh-launcher");
    let dir = Some(&parent);
    let raw = || Ok(s("{}"));
    let (state, effects) = save_window_size(dir, &path, true, raw(), Saving::Start, Reply::Nothing);
    assert_eq!(effects, vec![Effect::CreateDirs(b("/c/dsh-launcher"))]);
    for reply in [done(), failed("no dir")] {
        let (state, effects) = save_window_size(dir, &path, true, raw(), state, reply);
        assert_eq!(state, Saving::File);
        assert_eq!(effects, vec![Effect::WriteText { path: path.clone(), text: s("{}") }]);
    }
    assert_eq!(
        save_window_size(dir, &path, true, raw(), Saving::File, done()),
        (Saving::Ended, vec![])
    );
    assert_eq!(
        save_window_size(dir, &path, true, raw(), Saving::File, failed("full")),
        (Saving::Ended, vec![log("save_window_size: 写入失败 full")])
    );
    assert_eq!(
        save_window_size(dir, &path, true, Err(s("odd")), Saving::Directory, done()),
        (Saving::Ended, vec![log("save_window_size: 序列化失败 odd")])
    );
    assert_eq!(
        save_window_size(dir, &path, false, raw(), Saving::Start, Reply::Nothing),
        (Saving::Ended, vec![])
    );
    assert_eq!(
        save_window_size(None, &b("/"), true, raw(), Saving::Start, Reply::Nothing),
        (Saving::File, vec![Effect::WriteText { path: b("/"), text: s("{}") }])
    );
}

#[test]
fn a_remembered_size_is_looked_up() {
    let path = b("/c/window-size.json");
    let (state, effects) = load_window_size(&path, Loading::Start, Reply::Nothing);
    assert_eq!(effects, vec![Effect::ReadText(path.clone())]);
    assert_eq!(
        load_window_size(&path, state, Reply::Text(Ok(s("{}")))),
        (Loading::Ended(Some(s("{}"))), vec![])
    );
    assert_eq!(
        load_window_size(&path, Loading::Reading, Reply::Text(Err(s("gone")))),
        (Loading::Ended(None), vec![])
    );
}

#[test]
fn a_new_window_is_never_allowed() {
    assert_eq!(on_new_window(Platform::Linux, "about:blank"), (false, vec![]));
    assert_eq!(
        on_new_window(Platform::MacOs, "https://x"),
        (false, vec![log("open_external: https://x"), spawn("open", &["https://x"])])
    );
}

#[test]
fn the_window_waits_for_the_service_at_startup() {
    let (state, effects) = startup_ui(7, Waiting::Start, Reply::Nothing);
    assert_eq!(state, Waiting::Polling { deadline: 10 * SECOND + 7 });
    assert_eq!(effects, vec![Effect::ProbePort(3080)]);
    let (state, effects) = startup_ui(8, state, Reply::Flag(false));
    assert_eq!(state, Waiting::Polling { deadline: 10 * SECOND + 7 });
    assert_eq!(effects, vec![Effect::Sleep(200), Effect::ProbePort(3080)]);
    let (state, effects) = startup_ui(9, state, Reply::Flag(true));
    assert_eq!(state, Waiting::Last);
    assert_eq!(effects, vec![Effect::ProbePort(3080)]);
    let (state, effects) = startup_ui(9, state, Reply::Flag(true));
    assert_eq!(
        effects,
        vec![
            log("startup_ui: dsh 已就绪，准备打开内置窗口"),
            Effect::OpenDshUiOnMainThread,
        ]
    );
    assert_eq!(startup_ui(9, state, done()), (Waiting::Ended, vec![]));
    assert_eq!(
        startup_ui(9, state, failed("x")),
        (Waiting::Ended, vec![log("startup_ui: 调度内置窗口失败 x")])
    );
}

#[test]
fn the_window_opens_without_the_service_after_ten_seconds() {
    let waiting = Waiting::Polling { deadline: 10 * SECOND };
    let (state, _) = startup_ui(10 * SECOND - 1, waiting, Reply::Flag(false));
    assert_eq!(state, waiting);
    let (state, effects) = startup_ui(10 * SECOND, waiting, Reply::Flag(false));
    assert_eq!(state, Waiting::Last);
    assert_eq!(effects, vec![Effect::ProbePort(3080)]);
    let (_, effects) = startup_ui(10 * SECOND, state, Reply::Flag(false));
    assert_eq!(
        effects,
        vec![
            log("startup_ui: 等待 dsh 超时，仍尝试打开内置窗口"),
            Effect::OpenDshUiOnMainThread,
        ]
    );
}

fn item(id: &str, text: &str) -> MenuEntry {
    MenuEntry::Item { id: s(id), text: s(text), enabled: true }
}

#[test]
fn the_whole_menu() {
    for autostart in [false, true] {
        assert_eq!(
            build_menu(autostart),
            vec![
                item("status", "dsh: 检测中…"),
                item("open", "打开 dsh 界面"),
                MenuEntry::Separator,
                item("restart", "重启 dsh"),
                item("stop", "停止 dsh"),
                item("start", "启动 dsh"),
                MenuEntry::Separator,
                MenuEntry::Check {
                    id: s("autostart"),
                    text: s("开机自启 dsh"),
                    enabled: true,
                    checked: autostart,
                },
                item("log", "查看日志"),
                MenuEntry::Separator,
                item("quit", "退出托盘（dsh 继续运行）"),
            ]
        );
    }
}

#[test]
fn which_entries_take_a_text() {
    assert!(set_menu_text(Some(MenuItemKind::MenuItem)));
    assert!(set_menu_text(Some(MenuItemKind::Check)));
    assert!(set_menu_text(Some(MenuItemKind::Submenu)));
    assert!(!set_menu_text(Some(MenuItemKind::Predefined)));
    assert!(!set_menu_text(Some(MenuItemKind::Icon)));
    assert!(!set_menu_text(None));
}

fn pick(platform: Platform, id: &str, autostart: bool) -> (Choice, Vec<Effect>) {
    let (state, mut effects) =
        handle_menu(platform, id, autostart, &b("/l/x.log"), Choice::Start, Reply::Nothing);
    assert_eq!(effects.remove(0), log(&format!("menu: {}", id)));
    (state, effects)
}

#[test]
fn what_the_menu_does() {
    for p in [Platform::MacOs, Platform::Linux] {
        assert_eq!(pick(p, "open", false), (Choice::Ended, vec![Effect::OpenDshUi]));
        assert_eq!(pick(p, "restart", false), (Choice::Ended, vec![Effect::ServiceRestart]));
        assert_eq!(pick(p, "stop", false), (Choice::Ended, vec![Effect::ServiceStop]));
        assert_eq!(pick(p, "start", false), (Choice::Ended, vec![Effect::ServiceStart]));
        assert_eq!(pick(p, "quit", false), (Choice::Ended, vec![Effect::Exit(0)]));
        assert_eq!(pick(p, "status", false), (Choice::Ended, vec![]));
        assert_eq!(pick(p, "reload", false), (Choice::Ended, vec![]));
    }
}

#[test]
fn the_login_entry_toggles() {
    assert_eq!(
        pick(Platform::MacOs, "autostart", false),
        (Choice::Ended, vec![log("autostart: 切换为 true"), Effect::SetAutostart(true)])
    );
    assert_eq!(
        pick(Platform::Linux, "autostart", true),
        (Choice::Ended, vec![log("autostart: 切换为 false"), Effect::SetAutostart(false)])
    );
}

#[test]
fn windows_can_only_show() {
    let p = Platform::Windows;
    assert_eq!(pick(p, "open", false), (Choice::Ended, vec![Effect::OpenDshUi]));
    for id in ["restart", "stop", "start"] {
        assert_eq!(pick(p, id, false), (Choice::Ended, vec![]));
    }
    assert_eq!(
        pick(p, "autostart", false),
        (Choice::Ended, vec![log("autostart: 切换为 true")])
    );
}

#[test]
fn the_log_entry_makes_a_missing_log() {
    let file = b("/l/x.log");
    let (state, effects) = pick(Platform::Linux, "log", false);
    assert_eq!(state, Choice::Log);
    assert_eq!(effects, vec![Effect::Exists(file.clone())]);
    let opener = || Effect::SpawnOn { program: s("xdg-open"), path: b("/l/x.log") };
    assert_eq!(
        handle_menu(Platform::Linux, "log", false, &file, state, Reply::Flag(true)),
        (Choice::Ended, vec![opener()])
    );
    assert_eq!(
        handle_menu(Platform::Linux, "log", false, &file, state, Reply::Flag(false)),
        (
            Choice::Ended,
            vec![Effect::WriteText { path: b("/l/x.log"), text: s("") }, opener()]
        )
    );
}

fn shows(text: &str) -> Vec<Effect> {
    vec![
        Effect::SetTooltip(s(text)),
        Effect::SetMenuText { id: s("status"), text: s(text) },
        Effect::Sleep(2000),
    ]
}

#[test]
fn a_message_shows_for_three_seconds() {
    let mut slot: Option<ActionMsg> = None;
    show_action_msg(&mut slot, s("first"), SECOND);
    show_action_msg(&mut slot, s("dsh 未运行，已自动启动"), 2 * SECOND);
    assert_eq!(slot, Some(ActionMsg { text: s("dsh 未运行，已自动启动"), at: 2 * SECOND }));
    assert_eq!(
        status_poller(&slot, 5 * SECOND - 1, Polling::Start, Reply::Nothing),
        (Polling::Start, shows("dsh 未运行，已自动启动"))
    );
    assert_eq!(
        status_poller(&slot, 5 * SECOND, Polling::Start, Reply::Nothing),
        (Polling::Probing, vec![Effect::ProbePort(3080)])
    );
}

#[test]
fn the_status_line_tells_whether_the_service_answers() {
    assert_eq!(probe_status(true), DshStatus::Running);
    assert_eq!(probe_status(false), DshStatus::Stopped);
    assert_eq!(
        status_poller(&None, 0, Polling::Start, Reply::Nothing),
        (Polling::Probing, vec![Effect::ProbePort(3080)])
    );
    let mut running = vec![log("status: dsh: 运行中")];
    running.append(&mut shows("dsh: 运行中"));
    assert_eq!(
        status_poller(&None, 0, Polling::Probing, Reply::Flag(true)),
        (Polling::Start, running)
    );
    let mut stopped = vec![log("status: dsh: 已停止")];
    stopped.append(&mut shows("dsh: 已停止"));
    assert_eq!(
        status_poller(&None, 0, Polling::Probing, Reply::Flag(false)),
        (Polling::Start, stopped)
    );
}

#[test]
fn coming_up_beside_a_running_service() {
    let p = Platform::MacOs;
    let (state, effects) = run(p, Setup::Start, Reply::Nothing);
    assert_eq!(
        effects,
        vec![
            log("=== dsh-launcher 启动 ==="),
            Effect::SetActivation(Activation::Accessory),
            Effect::ReadAutostart,
        ]
    );
    let (state, effects) = run(p, state, Reply::Flag(true));
    assert_eq!(effects, vec![Effect::StoreAutostart(true), Effect::EnsureDefinition]);
    let (state, effects) = run(p, state, done());
    assert_eq!(effects, vec![Effect::ProbePort(3080)]);
    let (state, effects) = run(p, state, Reply::Flag(true));
    assert_eq!(
        effects,
        vec![log("setup: dsh 已在运行，跳过自动拉起"), Effect::BuildMenu]
    );
    let (state, effects) = run(p, state, done());
    assert_eq!(
        effects,
        vec![
            log("setup: 菜单构建完成"),
            Effect::KeepMenu,
            Effect::BuildTray { id: s("main"), tooltip: s("DSH启动器") },
        ]
    );
    let (state, effects) = run(p, state, done());
    assert_eq!(state, Setup::Ended(Ok(())));
    assert_eq!(
        effects,
        vec![
            log("setup: 托盘构建完成"),
            Effect::StartStatusPoller,
            log("setup: 状态轮询已启动"),
            Effect::StartStartupUi,
            log("setup: 已安排启动时打开内置窗口"),
        ]
    );
}

#[test]
fn coming_up_starts_a_silent_service() {
    let note = "dsh 未运行，已自动启动";
    assert_eq!(
        run(Platform::Linux, Setup::Probing, Reply::Flag(false)),
        (
            Setup::Menu,
            vec![
                log("setup: 3080 不可达，自动拉起 dsh"),
                Effect::ServiceStart,
                Effect::ShowActionMsg(s(note)),
                Effect::BuildMenu,
            ]
        )
    );
    assert_eq!(
        run(Platform::Windows, Setup::Probing, Reply::Flag(false)),
        (
            Setup::Menu,
            vec![
                log("setup: 3080 不可达，自动拉起 dsh"),
                Effect::ShowActionMsg(s(note)),
                Effect::BuildMenu,
            ]
        )
    );
}

#[test]
fn coming_up_on_other_platforms() {
    assert_eq!(
        run(Platform::Linux, Setup::Start, Reply::Nothing),
        (
            Setup::Autostart,
            vec![log("=== dsh-launcher 启动 ==="), Effect::ReadAutostart]
        )
    );
    assert_eq!(
        run(Platform::Windows, Setup::Start, Reply::Nothing),
        (
            Setup::Probing,
            vec![log("=== dsh-launcher 启动 ==="), Effect::ProbePort(3080)]
        )
    );
}

#[test]
fn trouble_while_coming_up() {
    let p = Platform::Linux;
    assert_eq!(
        run(p, Setup::Definition, failed("x")),
        (
            Setup::Probing,
            vec![
                Effect::Warn(s("dsh-launcher: x")),
                log("setup: 服务定义失败 x"),
                Effect::ProbePort(3080),
            ]
        )
    );
    assert_eq!(run(p, Setup::Menu, failed("m")), (Setup::Ended(Err(s("m"))), vec![]));
    assert_eq!(run(p, Setup::Tray, failed("t")), (Setup::Ended(Err(s("t"))), vec![]));
}

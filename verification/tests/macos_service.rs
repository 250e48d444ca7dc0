use dsh_launcher::definition::Render;
use dsh_launcher::effect::Effect;
use dsh_launcher::effect::Output;
use dsh_launcher::effect::Phase;
use dsh_launcher::effect::Query;
use dsh_launcher::effect::Reply;
use dsh_launcher::locations::Surroundings;
use dsh_launcher::macos_service::ensure_definition;
use dsh_launcher::macos_service::gui_target;
use dsh_launcher::macos_service::plist_path;
use dsh_launcher::macos_service::plist_xml;
use dsh_launcher::macos_service::read_autostart;
use dsh_launcher::macos_service::service_is_running;
use dsh_launcher::macos_service::service_restart;
use dsh_launcher::macos_service::service_start;
use dsh_launcher::macos_service::service_stop;
use dsh_launcher::macos_service::service_target;
use dsh_launcher::macos_service::set_autostart;
use dsh_launcher::macos_service::tells_running;
use dsh_launcher::macos_service::write_plist;
use dsh_launcher::macos_service::write_plist_keepalive_off;
use dsh_launcher::macos_service::Ensure;
use dsh_launcher::macos_service::MacService;
use dsh_launcher::macos_service::Rewrite;
use dsh_launcher::macos_service::Write;
use dsh_launcher::plist::plist_text;
use dsh_launcher::plist::read_keepalive;
use dsh_launcher::plist::read_run_at_load;

const PLIST: &str = "/Users/u/Library/LaunchAgents/com.dsh-launcher.web.plist";

fn s(t: &str) -> String {
    t.to_string()
}

fn b(t: &str) -> Vec<u8> {
    t.as_bytes().to_vec()
}

fn mac(autostart: bool) -> MacService {
    MacService {
        env: Surroundings {
            home: Some(b("/Users/u")),
            xdg_config_home: None,
            xdg_state_home: None,
        },
        uid: s("501"),
        autostart,
    }
}

fn launchctl(words: &[&str]) -> Effect {
    Effect::Launchctl(words.iter().map(|w| w.to_string()).collect())
}

fn bootout() -> Effect {
    launchctl(&["bootout", "gui/501", PLIST])
}

fn bootstrap() -> Effect {
    launchctl(&["bootstrap", "gui/501", PLIST])
}

fn kickstart() -> Effect {
    launchctl(&["kickstart", "gui/501/com.dsh-launcher.web"])
}

fn log(t: &str) -> Effect {
    Effect::Log(s(t))
}

fn done() -> Reply {
    Reply::Done(Ok(()))
}

fn failed(e: &str) -> Reply {
    Reply::Done(Err(s(e)))
}

fn command(success: bool, stdout: &[u8]) -> Reply {
    Reply::Command(Some(Output {
        success,
        code: Some(0),
        stdout: stdout.to_vec(),
        stderr: vec![],
    }))
}

fn definition(run_at_load: bool, keep_alive: bool) -> String {
    plist_text(
        &vec![s("/n/node"), s("/n/dsh")],
        &vec![(s("PATH"), s("/a")), (s("TERM"), s("dumb"))],
        run_at_load,
        keep_alive,
        "/l",
    )
}

#[test]
fn names() {
    assert_eq!(plist_path(&mac(false).env), b(PLIST));
    assert_eq!(gui_target("501"), "gui/501");
    assert_eq!(service_target("501"), "gui/501/com.dsh-launcher.web");
}

#[test]
fn launchd_is_asked_whether_the_service_runs() {
    let m = mac(false);
    let (state, effects) = service_is_running(&m, Query::Start, Reply::Nothing);
    assert_eq!(state, Query::Waiting);
    assert_eq!(effects, vec![launchctl(&["print", "gui/501/com.dsh-launcher.web"])]);
    let (state, effects) = service_is_running(&m, state, command(true, b"\tstate = running\n"));
    assert_eq!(state, Query::Ended(true));
    assert_eq!(effects, vec![log("service_is_running: true")]);
    let (state, effects) =
        service_is_running(&m, Query::Waiting, command(false, b"state = running"));
    assert_eq!(state, Query::Ended(false));
    assert_eq!(effects, vec![log("service_is_running: false")]);
    let (state, _) = service_is_running(&m, Query::Waiting, command(true, b"state = waiting"));
    assert_eq!(state, Query::Ended(false));
    let (state, effects) = service_is_running(&m, Query::Waiting, Reply::Command(None));
    assert_eq!(state, Query::Ended(false));
    assert!(effects.is_empty());
    assert!(tells_running(true, "x state = running y"));
    assert!(!tells_running(true, "state=running"));
    let mut odd = vec![0xff];
    odd.extend_from_slice(b"state = running");
    let (state, _) = service_is_running(&m, Query::Waiting, command(true, &odd));
    assert_eq!(state, Query::Ended(true));
}

#[test]
fn the_login_switch_is_read_from_the_definition() {
    let m = mac(false);
    let (state, effects) = read_autostart(&m, Query::Start, Reply::Nothing);
    assert_eq!(effects, vec![Effect::ReadText(b(PLIST))]);
    let (state, _) = read_autostart(&m, state, Reply::Text(Ok(definition(true, false))));
    assert_eq!(state, Query::Ended(true));
    let (state, _) = read_autostart(&m, Query::Waiting, Reply::Text(Ok(definition(false, true))));
    assert_eq!(state, Query::Ended(false));
    let (state, effects) = read_autostart(&m, Query::Waiting, Reply::Text(Err(s("gone"))));
    assert_eq!(state, Query::Ended(false));
    assert!(effects.is_empty());
}

#[test]
fn a_definition_is_made_of_program_and_environment() {
    let m = mac(false);
    let (state, effects) = plist_xml(&m, true, false, Render::Start, Reply::Nothing);
    assert_eq!(effects, vec![Effect::DshProgram]);
    let (state, effects) =
        plist_xml(&m, true, false, state, Reply::Program(Ok(vec![s("/n/node"), s("/n/dsh")])));
    assert_eq!(effects, vec![Effect::ServiceEnv]);
    let env = vec![(s("PATH"), s("/a")), (s("TERM"), s("dumb"))];
    let (state, effects) = plist_xml(&m, true, false, state, Reply::Env(env));
    assert!(effects.is_empty());
    let expected = plist_text(
        &vec![s("/n/node"), s("/n/dsh")],
        &vec![(s("PATH"), s("/a")), (s("TERM"), s("dumb"))],
        true,
        false,
        "/Users/u/Library/Logs/dsh-web.log",
    );
    assert!(read_run_at_load(Some(&expected)));
    assert!(!read_keepalive(Some(&expected)));
    assert_eq!(state, Render::Ended(Ok(expected)));
    let (state, effects) =
        plist_xml(&m, true, true, Render::Program, Reply::Program(Err(s("no dsh"))));
    assert_eq!(state, Render::Ended(Err(s("no dsh"))));
    assert!(effects.is_empty());
}

#[test]
fn writing_a_definition() {
    let m = mac(true);
    let (state, effects) = write_plist(&m, false, Write::Start, Reply::Nothing);
    assert_eq!(effects, vec![Effect::CreateDirs(b("/Users/u/Library/LaunchAgents"))]);
    let (state, effects) = write_plist(&m, false, state, done());
    assert_eq!(effects, vec![Effect::PlistXml { run_at_load: false, keep_alive: true }]);
    let (state, effects) = write_plist(&m, false, state, Reply::Text(Ok(s("<界>"))));
    assert_eq!(effects, vec![Effect::WriteText { path: b(PLIST), text: s("<界>") }]);
    assert_eq!(state, Write::File(5));
    let (state, effects) = write_plist(&m, false, state, done());
    assert_eq!(state, Write::Ended(Ok(())));
    assert_eq!(effects, vec![log("write_plist: 已写入 plist run_at_load=false (5)")]);
}

#[test]
fn a_definition_that_cannot_be_written() {
    let m = mac(true);
    let (state, effects) = write_plist(&m, true, Write::Directory, failed("no dir"));
    assert_eq!(state, Write::Ended(Err(s("no dir"))));
    assert!(effects.is_empty());
    let (state, effects) = write_plist(&m, true, Write::Text, Reply::Text(Err(s("no dsh"))));
    assert_eq!(state, Write::Ended(Err(s("no dsh"))));
    assert!(effects.is_empty());
    let (state, effects) = write_plist(&m, true, Write::File(1), failed("full"));
    assert_eq!(state, Write::Ended(Err(s("full"))));
    assert_eq!(effects, vec![log("write_plist: 写入失败 full")]);
}

#[test]
fn turning_the_restart_off() {
    let m = mac(true);
    let (state, effects) = write_plist_keepalive_off(&m, Rewrite::Start, Reply::Nothing);
    assert_eq!(effects, vec![Effect::ReadText(b(PLIST))]);
    let (state, mut effects) =
        write_plist_keepalive_off(&m, state, Reply::Text(Ok(definition(true, true))));
    match effects.pop() {
        Some(Effect::WriteText { path, text }) => {
            assert_eq!(path, b(PLIST));
            assert!(!read_keepalive(Some(&text)));
            assert!(read_run_at_load(Some(&text)));
        }
        other => panic!("{:?}", other),
    }
    let (state, effects) = write_plist_keepalive_off(&m, state, done());
    assert_eq!(state, Rewrite::Ended(Ok(())));
    assert_eq!(
        effects,
        vec![log("write_plist_keepalive_off: 已把 KeepAlive 改为 false（文本替换）")]
    );
}

#[test]
fn turning_the_restart_off_can_fail() {
    let m = mac(true);
    let end = |state, reply| write_plist_keepalive_off(&m, state, reply).0;
    assert_eq!(
        end(Rewrite::Reading, Reply::Text(Err(s("gone")))),
        Rewrite::Ended(Err(s("读取 plist 失败: gone")))
    );
    assert_eq!(
        end(Rewrite::Reading, Reply::Text(Ok(s("<dict/>")))),
        Rewrite::Ended(Err(s("plist 缺少 KeepAlive 字段")))
    );
    assert_eq!(
        end(Rewrite::Writing, failed("full")),
        Rewrite::Ended(Err(s("写入 plist 失败: full")))
    );
}

#[test]
fn a_missing_definition_is_written() {
    let m = mac(true);
    let (state, effects) = ensure_definition(&m, Ensure::Start, Reply::Nothing);
    assert_eq!(effects, vec![Effect::Exists(b(PLIST))]);
    let (state, effects) = ensure_definition(&m, state, Reply::Flag(false));
    assert_eq!(
        effects,
        vec![
            log(&format!("ensure_definition: path={} exists=false", PLIST)),
            Effect::CreateDirs(b("/Users/u/Library/LaunchAgents")),
        ]
    );
    let (state, effects) = ensure_definition(&m, state, done());
    assert_eq!(effects, vec![Effect::PlistXml { run_at_load: true, keep_alive: true }]);
    let (state, effects) = ensure_definition(&m, state, Reply::Text(Ok(s("xml"))));
    assert_eq!(effects, vec![Effect::WriteText { path: b(PLIST), text: s("xml") }]);
    let (state, effects) = ensure_definition(&m, state, done());
    assert_eq!(state, Ensure::Ended(Ok(())));
    assert_eq!(effects, vec![log("ensure_definition: 已写入 plist (3)")]);
}

#[test]
fn a_definition_of_the_launcher_is_left_alone() {
    let m = mac(true);
    let (state, effects) = ensure_definition(&m, Ensure::Looking, Reply::Flag(true));
    assert_eq!(
        effects,
        vec![
            log(&format!("ensure_definition: path={} exists=true", PLIST)),
            Effect::ReadText(b(PLIST)),
        ]
    );
    let (state, effects) =
        ensure_definition(&m, state, Reply::Text(Ok(definition(false, false))));
    assert_eq!(state, Ensure::Ended(Ok(())));
    assert!(effects.is_empty());
}

#[test]
fn an_old_definition_is_upgraded_with_its_switches() {
    let m = mac(false);
    let old = "<key>KeepAlive</key><false/><key>RunAtLoad</key><true/>";
    let read = || Reply::Text(Ok(s(old)));
    let (state, effects) = ensure_definition(&m, Ensure::Inspecting, read());
    assert_eq!(
        effects,
        vec![
            log("ensure_definition: 检测到旧版 plist（缺 EnvironmentVariables），升级"),
            Effect::ReadText(b(PLIST)),
        ]
    );
    let (state, effects) = ensure_definition(&m, state, read());
    assert_eq!(state, Ensure::OldAlive(true));
    assert_eq!(effects, vec![Effect::ReadText(b(PLIST))]);
    let (state, effects) = ensure_definition(&m, state, read());
    assert_eq!(effects, vec![Effect::PlistXml { run_at_load: true, keep_alive: false }]);
    let (state, effects) = ensure_definition(&m, state, Reply::Text(Ok(s("new"))));
    assert_eq!(effects, vec![Effect::WriteText { path: b(PLIST), text: s("new") }]);
    let (state, effects) = ensure_definition(&m, state, done());
    assert_eq!(
        effects,
        vec![
            log("ensure_definition: 旧版 plist 已升级，重新装载"),
            bootout(),
            bootstrap(),
            Effect::ServiceIsRunning,
        ]
    );
    let (end, effects) = ensure_definition(&m, state, Reply::Flag(false));
    assert_eq!(end, Ensure::Ended(Ok(())));
    assert!(effects.is_empty());
    let (end, effects) = ensure_definition(&m, Ensure::Reloaded, Reply::Flag(true));
    assert_eq!(end, Ensure::Ended(Ok(())));
    assert_eq!(effects, vec![kickstart()]);
}

#[test]
fn an_unreadable_definition_is_upgraded_with_the_defaults() {
    let m = mac(true);
    let gone = || Reply::Text(Err(s("gone")));
    let (state, _) = ensure_definition(&m, Ensure::Inspecting, gone());
    assert_eq!(state, Ensure::OldLogin);
    let (state, _) = ensure_definition(&m, state, gone());
    let (_, effects) = ensure_definition(&m, state, gone());
    assert_eq!(effects, vec![Effect::PlistXml { run_at_load: false, keep_alive: true }]);
}

#[test]
fn seeing_to_the_definition_can_fail() {
    let m = mac(true);
    let step = |state, reply| ensure_definition(&m, state, reply);
    assert_eq!(step(Ensure::NewDirectory, failed("a")), (Ensure::Ended(Err(s("a"))), vec![]));
    assert_eq!(
        step(Ensure::NewText, Reply::Text(Err(s("b")))),
        (Ensure::Ended(Err(s("b"))), vec![])
    );
    assert_eq!(
        step(Ensure::NewFile(1), failed("c")),
        (Ensure::Ended(Err(s("c"))), vec![log("ensure_definition: 写入失败 c")])
    );
    assert_eq!(
        step(Ensure::OldText, Reply::Text(Err(s("d")))),
        (Ensure::Ended(Err(s("d"))), vec![])
    );
    assert_eq!(
        step(Ensure::OldFile, failed("e")),
        (Ensure::Ended(Err(s("e"))), vec![log("ensure_definition: 升级写入失败 e")])
    );
}

#[test]
fn starting() {
    let m = mac(true);
    let (state, effects) = service_start(&m, Phase::Start, Reply::Nothing);
    assert_eq!(
        effects,
        vec![log("service_start: begin"), Effect::WritePlist { run_at_load: true }]
    );
    let (end, effects) = service_start(&m, state, done());
    assert_eq!(end, Phase::Ended);
    assert_eq!(effects, vec![bootout(), bootstrap(), kickstart(), log("service_start: end")]);
    let (_, effects) = service_start(&m, state, failed("x"));
    assert_eq!(
        effects,
        vec![
            log("service_start: 写 KeepAlive=true plist 失败 x"),
            bootout(),
            bootstrap(),
            kickstart(),
            log("service_start: end"),
        ]
    );
}

#[test]
fn stopping() {
    let m = mac(true);
    let (state, effects) = service_stop(&m, Phase::Start, Reply::Nothing);
    assert_eq!(
        effects,
        vec![log("service_stop: begin"), bootout(), Effect::WritePlistKeepaliveOff]
    );
    let (checking, effects) = service_stop(&m, state, done());
    assert_eq!(effects, vec![bootstrap(), Effect::ServiceIsRunning]);
    let (_, effects) = service_stop(&m, state, failed("x"));
    assert_eq!(
        effects,
        vec![
            log("service_stop: 写 KeepAlive=false plist 失败 x"),
            bootstrap(),
            Effect::ServiceIsRunning,
        ]
    );
    let (end, effects) = service_stop(&m, checking, Reply::Flag(false));
    assert_eq!(end, Phase::Ended);
    assert_eq!(effects, vec![log("service_stop: end")]);
    let (_, effects) = service_stop(&m, checking, Reply::Flag(true));
    assert_eq!(
        effects,
        vec![
            launchctl(&["kill", "SIGTERM", "gui/501/com.dsh-launcher.web"]),
            log("service_stop: end"),
        ]
    );
}

#[test]
fn restarting() {
    let m = mac(false);
    let (state, effects) = service_restart(&m, Phase::Start, Reply::Nothing);
    assert_eq!(
        effects,
        vec![log("service_restart: begin"), Effect::WritePlist { run_at_load: false }]
    );
    let anew = || launchctl(&["kickstart", "-k", "gui/501/com.dsh-launcher.web"]);
    let (end, effects) = service_restart(&m, state, done());
    assert_eq!(end, Phase::Ended);
    assert_eq!(effects, vec![anew(), log("service_restart: end")]);
    let (_, effects) = service_restart(&m, state, failed("x"));
    assert_eq!(
        effects,
        vec![
            log("service_restart: 写 KeepAlive=true plist 失败 x"),
            anew(),
            log("service_restart: end"),
        ]
    );
}

#[test]
fn choosing_about_login() {
    let m = mac(false);
    let (state, effects) = set_autostart(&m, true, Phase::Start, Reply::Nothing);
    assert_eq!(
        effects,
        vec![Effect::StoreAutostart(true), Effect::WritePlist { run_at_load: true }]
    );
    let (checking, effects) = set_autostart(&m, true, state, done());
    assert_eq!(effects, vec![bootout(), bootstrap(), Effect::ServiceIsRunning]);
    let (_, effects) = set_autostart(&m, true, state, failed("x"));
    assert_eq!(
        effects,
        vec![
            Effect::Warn(s("dsh-launcher: 写入 LaunchAgent 失败: x")),
            log("set_autostart: 写入失败 x"),
            bootout(),
            bootstrap(),
            Effect::ServiceIsRunning,
        ]
    );
    assert_eq!(
        set_autostart(&m, true, checking, Reply::Flag(true)),
        (Phase::Ended, vec![kickstart()])
    );
    assert_eq!(set_autostart(&m, true, checking, Reply::Flag(false)), (Phase::Ended, vec![]));
}

#[test]
fn nothing_happens_after_the_end() {
    let m = mac(false);
    assert_eq!(service_start(&m, Phase::Ended, done()), (Phase::Ended, vec![]));
    assert_eq!(service_stop(&m, Phase::Ended, done()), (Phase::Ended, vec![]));
    assert_eq!(service_restart(&m, Phase::Ended, done()), (Phase::Ended, vec![]));
    assert_eq!(
        read_autostart(&m, Query::Ended(true), Reply::Nothing),
        (Query::Ended(true), vec![])
    );
}

use dsh_launcher::definition::Render;
use dsh_launcher::effect::Effect;
use dsh_launcher::effect::Output;
use dsh_launcher::effect::Phase;
use dsh_launcher::effect::Query;
use dsh_launcher::effect::Reply;
use dsh_launcher::linux_service::ensure_definition;
use dsh_launcher::linux_service::read_autostart;
use dsh_launcher::linux_service::service_is_running;
use dsh_launcher::linux_service::service_restart;
use dsh_launcher::linux_service::service_start;
use dsh_launcher::linux_service::service_stop;
use dsh_launcher::linux_service::set_autostart;
use dsh_launcher::linux_service::unit_content;
use dsh_launcher::linux_service::unit_path;
use dsh_launcher::linux_service::unit_text;
use dsh_launcher::linux_service::write_unit;
use dsh_launcher::linux_service::Ensure;
use dsh_launcher::linux_service::LinuxService;
use dsh_launcher::linux_service::Write;
use dsh_launcher::locations::Surroundings;

const UNIT: &str = "/home/u/.config/systemd/user/dsh-launcher-web.service";

fn s(t: &str) -> String {
    t.to_string()
}

fn b(t: &str) -> Vec<u8> {
    t.as_bytes().to_vec()
}

fn linux(autostart: bool) -> LinuxService {
    LinuxService {
        env: Surroundings {
            home: Some(b("/home/u")),
            xdg_config_home: None,
            xdg_state_home: None,
        },
        autostart,
    }
}

fn systemctl(words: &[&str]) -> Effect {
    Effect::Systemctl(words.iter().map(|w| w.to_string()).collect())
}

fn unit_command(verb: &str) -> Effect {
    systemctl(&[verb, "dsh-launcher-web.service"])
}

fn log(t: &str) -> Effect {
    Effect::Log(s(t))
}

fn done() -> Reply {
    Reply::Done(Ok(()))
}

fn failed(e: &str) -> Reply {
    Reply::Done(Err(s(e)))
}

fn command(success: bool) -> Reply {
    Reply::Command(Some(Output { success, code: Some(0), stdout: vec![], stderr: vec![] }))
}

#[test]
fn the_unit_file() {
    assert_eq!(unit_path(&linux(false).env), b(UNIT));
    let env = Surroundings {
        home: Some(b("/home/u")),
        xdg_config_home: Some(b("/cfg")),
        xdg_state_home: None,
    };
    assert_eq!(unit_path(&env), b("/cfg/systemd/user/dsh-launcher-web.service"));
}

#[test]
fn the_whole_unit() {
    let l = linux(false);
    let (state, effects) = unit_content(&l, Render::Start, Reply::Nothing);
    assert_eq!(effects, vec![Effect::DshProgram]);
    let program = vec![s("/n/node"), s("/n/d \"sh\"")];
    let (state, effects) = unit_content(&l, state, Reply::Program(Ok(program)));
    assert_eq!(effects, vec![Effect::ServiceEnv]);
    let env = vec![(s("PATH"), s("/a:/b")), (s("TERM"), s("dumb"))];
    let (state, effects) = unit_content(&l, state, Reply::Env(env));
    assert!(effects.is_empty());
    let expected = "# 由 dsh-launcher 自动生成，请勿手改。
[Unit]
Description=DSH web service (dsh --profile web)
After=network-online.target
Wants=network-online.target

[Service]
Type=simple
ExecStart=\"/n/node\" \"/n/d \\\"sh\\\"\"
Environment=PATH=/a:/b
Environment=TERM=dumb
Restart=always
RestartSec=2
StandardOutput=append:/home/u/.local/state/dsh-launcher/dsh-web.log
StandardError=append:/home/u/.local/state/dsh-launcher/dsh-web.log

[Install]
WantedBy=default.target
";
    assert_eq!(state, Render::Ended(Ok(s(expected))));
}

#[test]
fn a_unit_of_quoted_words() {
    let text = unit_text(&vec![s("W1"), s("W2")], &vec![(s("K"), s("V"))], "/l");
    assert!(text.contains("ExecStart=W1 W2\nEnvironment=K=V\nRestart=always\n"));
    assert!(text.contains("StandardOutput=append:/l\nStandardError=append:/l\n"));
}

#[test]
fn a_unit_sets_two_variables() {
    let text = unit_text(
        &vec![s("\"Environment=X=1\""), s("\"b\"")],
        &vec![(s("PATH"), s("/a:Environment=/b")), (s("TERM"), s("dumb"))],
        "/Environment=/l",
    );
    let set: Vec<&str> = text.lines().filter(|l| l.starts_with("Environment=")).collect();
    assert_eq!(set, vec!["Environment=PATH=/a:Environment=/b", "Environment=TERM=dumb"]);
}

#[test]
fn a_unit_of_words_with_line_breaks_sets_two_variables() {
    let l = linux(false);
    let program = vec![s("/n/a\nEnvironment=X=1"), s("b\r\nRestart=no"), s("--profile"), s("web")];
    let (state, _) = unit_content(&l, Render::Program, Reply::Program(Ok(program)));
    let env = vec![(s("PATH"), s("/a:/b")), (s("TERM"), s("dumb"))];
    let (state, _) = unit_content(&l, state, Reply::Env(env));
    let text = match state {
        Render::Ended(Ok(text)) => text,
        other => panic!("{:?}", other),
    };
    let lines: Vec<&str> = text.lines().collect();
    assert_eq!(lines.len(), 18);
    assert_eq!(
        lines[8],
        "ExecStart=\"/n/a\\nEnvironment=X=1\" \"b\\r\\nRestart=no\" \"--profile\" \"web\""
    );
    let set: Vec<&str> = text.lines().filter(|l| l.starts_with("Environment=")).collect();
    assert_eq!(set, vec!["Environment=PATH=/a:/b", "Environment=TERM=dumb"]);
}

#[test]
fn a_unit_needs_a_program() {
    let (state, effects) =
        unit_content(&linux(false), Render::Program, Reply::Program(Err(s("no dsh"))));
    assert_eq!(state, Render::Ended(Err(s("no dsh"))));
    assert!(effects.is_empty());
}

#[test]
fn writing_the_unit() {
    let l = linux(false);
    let (state, effects) = write_unit(&l, true, Write::Start, Reply::Nothing);
    assert_eq!(effects, vec![Effect::CreateDirs(b("/home/u/.config/systemd/user"))]);
    let (state, effects) = write_unit(&l, true, state, done());
    assert_eq!(effects, vec![Effect::UnitContent { enabled: true }]);
    let (state, effects) = write_unit(&l, true, state, Reply::Text(Ok(s("unit"))));
    assert_eq!(effects, vec![Effect::WriteText { path: b(UNIT), text: s("unit") }]);
    let (state, effects) = write_unit(&l, true, state, done());
    assert_eq!(state, Write::Ended(Ok(())));
    assert_eq!(effects, vec![log(&format!("write_unit: 已写入 {} enabled=true", UNIT))]);
}

#[test]
fn writing_the_unit_can_fail() {
    let l = linux(false);
    let step = |state, reply| write_unit(&l, true, state, reply);
    assert_eq!(step(Write::Directory, failed("a")), (Write::Ended(Err(s("a"))), vec![]));
    assert_eq!(
        step(Write::Text, Reply::Text(Err(s("b")))),
        (Write::Ended(Err(s("b"))), vec![])
    );
    assert_eq!(
        step(Write::File, failed("c")),
        (Write::Ended(Err(s("写入 systemd unit 失败: c"))), vec![])
    );
}

#[test]
fn a_missing_unit_is_written() {
    let l = linux(true);
    let (state, effects) = ensure_definition(&l, Ensure::Start, Reply::Nothing);
    assert_eq!(effects, vec![Effect::Exists(b(UNIT))]);
    let (state, effects) = ensure_definition(&l, state, Reply::Flag(false));
    assert_eq!(
        effects,
        vec![
            log(&format!("ensure_definition: path={} exists=false", UNIT)),
            Effect::WriteUnit { enabled: true },
        ]
    );
    let (end, effects) = ensure_definition(&l, state, done());
    assert_eq!(end, Ensure::Ended(Ok(())));
    assert!(effects.is_empty());
    assert_eq!(
        ensure_definition(&l, Ensure::New, failed("x")),
        (Ensure::Ended(Err(s("x"))), vec![])
    );
}

#[test]
fn a_unit_of_the_launcher_is_left_alone() {
    let l = linux(true);
    let unit = unit_text(
        &vec![s("\"/n/node\"")],
        &vec![(s("PATH"), s("/a")), (s("TERM"), s("dumb"))],
        "/l",
    );
    let (state, effects) = ensure_definition(&l, Ensure::Looking, Reply::Flag(true));
    assert_eq!(
        effects,
        vec![
            log(&format!("ensure_definition: path={} exists=true", UNIT)),
            Effect::ReadText(b(UNIT)),
        ]
    );
    assert_eq!(
        ensure_definition(&l, state, Reply::Text(Ok(unit))),
        (Ensure::Ended(Ok(())), vec![])
    );
}

#[test]
fn an_old_or_unreadable_unit_is_upgraded() {
    let l = linux(false);
    for reply in [Reply::Text(Ok(s("[Service]\n"))), Reply::Text(Err(s("gone")))] {
        let (state, effects) = ensure_definition(&l, Ensure::Inspecting, reply);
        assert_eq!(state, Ensure::Old);
        assert_eq!(
            effects,
            vec![
                log("ensure_definition: 检测到旧版 unit（缺 Environment=PATH=），升级"),
                Effect::WriteUnit { enabled: false },
            ]
        );
    }
    let (state, effects) = ensure_definition(&l, Ensure::Old, done());
    assert_eq!(effects, vec![systemctl(&["daemon-reload"]), Effect::ServiceIsRunning]);
    assert_eq!(
        ensure_definition(&l, state, Reply::Flag(true)),
        (Ensure::Ended(Ok(())), vec![unit_command("restart")])
    );
    assert_eq!(
        ensure_definition(&l, Ensure::Reloaded, Reply::Flag(false)),
        (Ensure::Ended(Ok(())), vec![])
    );
    assert_eq!(
        ensure_definition(&l, Ensure::Old, failed("x")),
        (Ensure::Ended(Err(s("x"))), vec![])
    );
}

#[test]
fn systemd_is_asked_whether_the_service_runs() {
    let (state, effects) = service_is_running(Query::Start, Reply::Nothing);
    assert_eq!(
        effects,
        vec![systemctl(&["is-active", "--quiet", "dsh-launcher-web.service"])]
    );
    assert_eq!(service_is_running(state, command(true)), (Query::Ended(true), vec![]));
    assert_eq!(service_is_running(state, command(false)), (Query::Ended(false), vec![]));
    assert_eq!(
        service_is_running(state, Reply::Command(None)),
        (Query::Ended(false), vec![])
    );
}

#[test]
fn systemd_is_asked_about_login_where_there_is_a_unit() {
    let l = linux(false);
    let (state, effects) = read_autostart(&l, Query::Start, Reply::Nothing);
    assert_eq!(effects, vec![Effect::Exists(b(UNIT))]);
    assert_eq!(
        read_autostart(&l, state, Reply::Flag(false)),
        (Query::Ended(false), vec![])
    );
    let (state, effects) = read_autostart(&l, state, Reply::Flag(true));
    assert_eq!(effects, vec![unit_command("is-enabled")]);
    assert_eq!(read_autostart(&l, state, command(true)), (Query::Ended(true), vec![]));
    assert_eq!(read_autostart(&l, state, command(false)), (Query::Ended(false), vec![]));
    assert_eq!(
        read_autostart(&l, state, Reply::Command(None)),
        (Query::Ended(false), vec![])
    );
}

#[test]
fn starting_under_systemd() {
    let (state, effects) = service_start(Phase::Start, Reply::Nothing);
    assert_eq!(effects, vec![log("service_start: begin"), Effect::EnsureDefinition]);
    let rest = || {
        vec![
            systemctl(&["daemon-reload"]),
            unit_command("enable"),
            unit_command("start"),
            log("service_start: end"),
        ]
    };
    assert_eq!(service_start(state, done()), (Phase::Ended, rest()));
    let mut with_trouble = vec![log("service_start: ensure_definition 失败 x")];
    with_trouble.append(&mut rest());
    assert_eq!(service_start(state, failed("x")), (Phase::Ended, with_trouble));
}

#[test]
fn stopping_under_systemd() {
    assert_eq!(
        service_stop(Phase::Start),
        (
            Phase::Ended,
            vec![log("service_stop: begin"), unit_command("stop"), log("service_stop: end")]
        )
    );
    assert_eq!(service_stop(Phase::Ended), (Phase::Ended, vec![]));
}

#[test]
fn restarting_under_systemd() {
    let (state, effects) = service_restart(Phase::Start, Reply::Nothing);
    assert_eq!(effects, vec![log("service_restart: begin"), Effect::EnsureDefinition]);
    let (end, effects) = service_restart(state, failed("x"));
    assert_eq!(end, Phase::Ended);
    assert_eq!(
        effects,
        vec![
            log("service_restart: ensure_definition 失败 x"),
            systemctl(&["daemon-reload"]),
            unit_command("restart"),
            log("service_restart: end"),
        ]
    );
}

#[test]
fn choosing_about_login_under_systemd() {
    let (state, effects) = set_autostart(false, Phase::Start, Reply::Nothing);
    assert_eq!(
        effects,
        vec![Effect::StoreAutostart(false), Effect::WriteUnit { enabled: false }]
    );
    assert_eq!(
        set_autostart(false, state, done()),
        (Phase::Ended, vec![systemctl(&["daemon-reload"]), unit_command("disable")])
    );
    assert_eq!(
        set_autostart(true, state, failed("x")),
        (
            Phase::Ended,
            vec![
                Effect::Warn(s("dsh-launcher: 写入 systemd unit 失败: x")),
                log("set_autostart: 写入失败 x"),
                systemctl(&["daemon-reload"]),
                unit_command("enable"),
            ]
        )
    );
}

use std::collections::HashMap;

use dsh_launcher::calls::advance;
use dsh_launcher::calls::stack_of;
use dsh_launcher::calls::DesktopTask;
use dsh_launcher::calls::LaunchdTask;
use dsh_launcher::calls::Next;
use dsh_launcher::calls::SearchTask;
use dsh_launcher::calls::SystemdTask;
use dsh_launcher::calls::Task;
use dsh_launcher::calls::World;
use dsh_launcher::effect::Effect;
use dsh_launcher::effect::Output;
use dsh_launcher::effect::Phase;
use dsh_launcher::effect::Query;
use dsh_launcher::effect::Reply;
use dsh_launcher::launcher::Setup;
use dsh_launcher::linux_service::LinuxService;
use dsh_launcher::locations::Platform;
use dsh_launcher::locations::Surroundings;
use dsh_launcher::macos_service::MacService;
use dsh_launcher::plist::plist_has_env;
use dsh_launcher::plist::read_keepalive;
use dsh_launcher::plist::read_run_at_load;
use dsh_launcher::search::ShellSearch;
use dsh_launcher::tray::Choice;

const PLIST: &str = "/h/Library/LaunchAgents/com.dsh-launcher.web.plist";
const UNIT: &str = "/h/.config/systemd/user/dsh-launcher-web.service";

/// A machine with files, a running service or none, and shells that know where dsh is.
struct Machine {
    platform: Platform,
    files: HashMap<Vec<u8>, String>,
    autostart: bool,
    running: bool,
    commands: Vec<String>,
    highest: usize,
}

fn b(t: &str) -> Vec<u8> {
    t.as_bytes().to_vec()
}

fn output(success: bool, stdout: &str) -> Reply {
    Reply::Command(Some(Output {
        success,
        code: Some(if success { 0 } else { 1 }),
        stdout: b(stdout),
        stderr: vec![],
    }))
}

impl Machine {
    fn new(platform: Platform) -> Machine {
        let mut files = HashMap::new();
        files.insert(b("/n/bin/dsh"), String::new());
        files.insert(b("/n/bin/node"), String::new());
        Machine {
            platform,
            files,
            autostart: false,
            running: false,
            commands: vec![],
            highest: 0,
        }
    }

    fn surroundings(&self) -> Surroundings {
        Surroundings { home: Some(b("/h")), xdg_config_home: None, xdg_state_home: None }
    }

    fn world(&self) -> World {
        World {
            platform: self.platform,
            mac: MacService {
                env: self.surroundings(),
                uid: "501".to_string(),
                autostart: self.autostart,
            },
            linux: LinuxService { env: self.surroundings(), autostart: self.autostart },
            own: Some("/usr/bin".to_string()),
            log_file: b("/l/dsh-web.log"),
            now: 0,
        }
    }

    fn perform(&mut self, effect: Effect) -> Reply {
        match effect {
            Effect::Run { program, args } => {
                let line = format!("{} {}", program, args.join(" "));
                self.commands.push(line.clone());
                if line.contains("command -v dsh") {
                    output(true, "/n/bin/dsh\n")
                } else if line.contains("printf") {
                    output(true, "/n/bin:/usr/bin")
                } else if line.starts_with("launchctl print") {
                    output(self.running, if self.running { "state = running" } else { "" })
                } else if line.contains("is-active") || line.contains("is-enabled") {
                    output(self.running, "")
                } else {
                    output(true, "")
                }
            }
            Effect::IsFile(p) => Reply::Flag(self.files.contains_key(&p)),
            Effect::Exists(p) => Reply::Flag(self.files.contains_key(&p)),
            Effect::ReadText(p) => match self.files.get(&p) {
                Some(text) => Reply::Text(Ok(text.clone())),
                None => Reply::Text(Err("gone".to_string())),
            },
            Effect::CreateDirs(_) => Reply::Done(Ok(())),
            Effect::WriteText { path, text } => {
                self.files.insert(path, text);
                Reply::Done(Ok(()))
            }
            Effect::StoreAutostart(on) => {
                self.autostart = on;
                Reply::Nothing
            }
            Effect::ProbePort(_) => Reply::Flag(self.running),
            Effect::BuildMenu | Effect::BuildTray { .. } => Reply::Done(Ok(())),
            _ => Reply::Nothing,
        }
    }

    fn run(&mut self, task: Task) -> Reply {
        let mut stack = stack_of(task);
        let mut reply = Reply::Nothing;
        loop {
            self.highest = self.highest.max(stack.len());
            reply = match advance(&self.world(), &mut stack, reply) {
                Next::Do(effect) => self.perform(effect),
                Next::Go(next) => next,
                Next::Done(end) => return end,
            };
        }
    }

    fn file(&self, path: &str) -> &str {
        &self.files[&b(path)]
    }

    fn managers(&self) -> Vec<&str> {
        self.commands
            .iter()
            .filter(|c| c.starts_with("launchctl") || c.starts_with("systemctl"))
            .map(|c| c.as_str())
            .collect()
    }
}

#[test]
fn a_whole_start_under_launchd() {
    let mut m = Machine::new(Platform::MacOs);
    m.autostart = true;
    assert_eq!(m.run(Task::Launchd(LaunchdTask::Start(Phase::Start))), Reply::Nothing);
    let xml = m.file(PLIST);
    assert!(read_run_at_load(Some(xml)));
    assert!(read_keepalive(Some(xml)));
    assert!(plist_has_env(Some(xml)));
    assert!(xml.contains("    <string>/n/bin/node</string>\n    <string>/n/bin/dsh</string>"));
    assert!(xml.contains("    <string>/n/bin:/usr/bin</string>"));
    assert_eq!(
        m.managers(),
        vec![
            format!("launchctl bootout gui/501 {}", PLIST),
            format!("launchctl bootstrap gui/501 {}", PLIST),
            "launchctl kickstart gui/501/com.dsh-launcher.web".to_string(),
        ]
    );
}

#[test]
fn a_whole_stop_after_a_start() {
    let mut m = Machine::new(Platform::MacOs);
    m.run(Task::Launchd(LaunchdTask::SetAutostart(true, Phase::Start)));
    assert!(m.autostart);
    m.running = true;
    m.commands.clear();
    m.run(Task::Launchd(LaunchdTask::Stop(Phase::Start)));
    assert!(!read_keepalive(Some(m.file(PLIST))));
    assert!(read_run_at_load(Some(m.file(PLIST))));
    assert_eq!(
        m.managers().last(),
        Some(&"launchctl kill SIGTERM gui/501/com.dsh-launcher.web")
    );
    assert_eq!(
        m.run(Task::Launchd(LaunchdTask::Autostart(Query::Start))),
        Reply::Flag(true)
    );
}

#[test]
fn a_whole_start_under_systemd() {
    let mut m = Machine::new(Platform::Linux);
    m.run(Task::Systemd(SystemdTask::Start(Phase::Start)));
    let unit = m.file(UNIT);
    assert!(unit.contains(
        "ExecStart=\"/n/bin/node\" \"/n/bin/dsh\" \"--profile\" \"web\" \"--no-open\"\n"
    ));
    assert!(unit.contains("Environment=PATH=/n/bin:/usr/bin\nEnvironment=TERM=dumb\n"));
    assert_eq!(
        m.managers(),
        vec![
            "systemctl --user daemon-reload",
            "systemctl --user enable dsh-launcher-web.service",
            "systemctl --user start dsh-launcher-web.service",
        ]
    );
}

#[test]
fn coming_up_with_nothing_there() {
    for platform in [Platform::MacOs, Platform::Linux] {
        let mut m = Machine::new(platform);
        let task = Task::Desktop(DesktopTask::Setup(Setup::Start));
        assert_eq!(m.run(task), Reply::Done(Ok(())));
        assert!(m.files.contains_key(&b(if platform == Platform::MacOs { PLIST } else { UNIT })));
        assert!(!m.autostart);
        assert!(m.highest > 4 && m.highest <= 9);
    }
}

#[test]
fn windows_has_nothing_to_call() {
    let mut m = Machine::new(Platform::Windows);
    let task = Task::Desktop(DesktopTask::Setup(Setup::Start));
    assert_eq!(m.run(task), Reply::Done(Ok(())));
    m.run(Task::Desktop(DesktopTask::Menu("start".to_string(), Choice::Start)));
    assert!(m.commands.is_empty());
}

#[test]
fn a_call_is_begun_on_top_and_answers_below() {
    let m = Machine::new(Platform::MacOs);
    let mut stack =
        stack_of(Task::Desktop(DesktopTask::Menu("stop".to_string(), Choice::Start)));
    assert_eq!(advance(&m.world(), &mut stack, Reply::Nothing), Next::Go(Reply::Nothing));
    assert_eq!(
        advance(&m.world(), &mut stack, Reply::Nothing),
        Next::Do(Effect::Log("menu: stop".to_string()))
    );
    assert_eq!(advance(&m.world(), &mut stack, Reply::Nothing), Next::Go(Reply::Nothing));
    assert_eq!(stack.len(), 2);
    assert_eq!(stack[1].task, Task::Launchd(LaunchdTask::Stop(Phase::Start)));
    assert!(stack[0].pending.is_empty());
    let mut ended = stack_of(Task::Search(SearchTask::WhichFromLoginShell(
        "dsh".to_string(),
        ShellSearch::Ended(Some(b("/n/bin/dsh"))),
    )));
    assert_eq!(
        advance(&m.world(), &mut ended, Reply::Nothing),
        Next::Done(Reply::Found(Some(b("/n/bin/dsh"))))
    );
    assert!(ended.is_empty());
    assert_eq!(
        advance(&m.world(), &mut ended, Reply::Flag(true)),
        Next::Done(Reply::Flag(true))
    );
}

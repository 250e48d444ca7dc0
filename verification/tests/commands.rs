use dsh_launcher::commands::chrono_now;
use dsh_launcher::commands::copy_texts;
use dsh_launcher::commands::ending_line;
use dsh_launcher::commands::launchctl_logged;
use dsh_launcher::commands::log_line;
use dsh_launcher::commands::log_trouble;
use dsh_launcher::commands::systemctl_logged;
use dsh_launcher::commands::uid;
use dsh_launcher::commands::written;
use dsh_launcher::commands::Logged;
use dsh_launcher::effect::Effect;
use dsh_launcher::effect::Output;
use dsh_launcher::effect::Reply;

fn s(t: &str) -> String {
    t.to_string()
}

fn list(words: &[&str]) -> Vec<String> {
    words.iter().map(|w| w.to_string()).collect()
}

fn output(success: bool, code: Option<i32>, stdout: &[u8], stderr: &[u8]) -> Output {
    Output { success, code, stdout: stdout.to_vec(), stderr: stderr.to_vec() }
}

#[test]
fn the_time_is_what_date_told() {
    let o = output(true, Some(0), b"2025-03-04 05:06:07\n", b"");
    assert_eq!(chrono_now(Some(&o)), "2025-03-04 05:06:07");
    let failed = output(false, Some(1), b"2025-03-04 05:06:07\n", b"");
    assert_eq!(chrono_now(Some(&failed)), "1970-01-01 00:00:00");
    assert_eq!(chrono_now(None), "1970-01-01 00:00:00");
}

#[test]
fn a_log_line_has_time_name_and_message() {
    assert_eq!(log_line("T", "menu: open"), "T [dsh-launcher] menu: open\n");
    assert_eq!(
        log_trouble(&b"/var/x.log".to_vec(), "denied"),
        "dsh-launcher: 无法写托盘日志 /var/x.log: denied"
    );
}

#[test]
fn invalid_bytes_become_replacement_characters() {
    assert_eq!(written(&vec![0x20, 0x61, 0xff, 0x62, 0x0a]), "a\u{fffd}b");
    assert_eq!(written(&"界\n".as_bytes().to_vec()), "界");
    assert_eq!(
        log_trouble(&vec![0x2f, 0xff], "x"),
        "dsh-launcher: 无法写托盘日志 /\u{fffd}: x"
    );
}

#[test]
fn the_user_is_what_id_told() {
    assert_eq!(uid(Some(&output(true, Some(0), b"501\n", b""))), "501");
    assert_eq!(uid(Some(&output(false, Some(1), b" 7 \n", b""))), "7");
    assert_eq!(uid(Some(&output(true, Some(0), b"", b""))), "");
    assert_eq!(uid(Some(&output(true, Some(0), &[0x35, 0xff], b""))), "0");
    assert_eq!(uid(None), "0");
}

#[test]
fn a_launchctl_command_is_logged_before_and_after() {
    let args = list(&["print", "gui/501/x"]);
    let (state, effects) = launchctl_logged(&args, Logged::Start, Reply::Nothing);
    assert_eq!(state, Logged::Running);
    assert_eq!(
        effects,
        vec![
            Effect::Log(s("launchctl print gui/501/x")),
            Effect::Run { program: s("launchctl"), args: list(&["print", "gui/501/x"]) },
        ]
    );
    let o = output(false, Some(113), b" a \"b\"\n", &[0x09, 0xff]);
    let (state, effects) = launchctl_logged(&args, state, Reply::Command(Some(o)));
    assert_eq!(
        effects,
        vec![Effect::Log(s(
            "launchctl print gui/501/x -> exit 113 stdout=\"a \\\"b\\\"\" stderr=\"\u{fffd}\""
        ))]
    );
    let o = output(false, Some(113), b" a \"b\"\n", &[0x09, 0xff]);
    assert_eq!(state, Logged::Ended(Some(o)));
}

#[test]
fn a_systemctl_command_goes_to_the_user_manager() {
    let args = list(&["daemon-reload"]);
    let (state, effects) = systemctl_logged(&args, Logged::Start, Reply::Nothing);
    assert_eq!(
        effects,
        vec![
            Effect::Log(s("systemctl --user daemon-reload")),
            Effect::Run { program: s("systemctl"), args: list(&["--user", "daemon-reload"]) },
        ]
    );
    let o = output(false, None, b"", b"gone\n");
    let (_, effects) = systemctl_logged(&args, state, Reply::Command(Some(o)));
    assert_eq!(
        effects,
        vec![Effect::Log(s(
            "systemctl --user daemon-reload -> exit -1 stdout=\"\" stderr=\"gone\""
        ))]
    );
}

#[test]
fn a_command_that_cannot_be_run_ends_silently() {
    let args = list(&["x"]);
    let (state, effects) = launchctl_logged(&args, Logged::Running, Reply::Command(None));
    assert_eq!(state, Logged::Ended(None));
    assert!(effects.is_empty());
    let (state, effects) = launchctl_logged(&args, state, Reply::Nothing);
    assert_eq!(state, Logged::Ended(None));
    assert!(effects.is_empty());
}

#[test]
fn the_ending_line() {
    assert_eq!(
        ending_line("c", Some(-9), "\"o\"", "\"e\""),
        "c -> exit -9 stdout=\"o\" stderr=\"e\""
    );
    assert_eq!(ending_line("c", None, "", ""), "c -> exit -1 stdout= stderr=");
}

#[test]
fn copies_a_list() {
    assert_eq!(copy_texts(&list(&["a", "", "b"])), list(&["a", "", "b"]));
}

use dsh_launcher::effect::Effect;
use dsh_launcher::effect::Output;
use dsh_launcher::effect::Reply;
use dsh_launcher::search::login_shell_path;
use dsh_launcher::search::service_env;
use dsh_launcher::search::which_from_login_shell;
use dsh_launcher::search::EnvSearch;
use dsh_launcher::search::PathSearch;
use dsh_launcher::search::ShellSearch;

fn s(t: &str) -> String {
    t.to_string()
}

fn b(t: &str) -> Vec<u8> {
    t.as_bytes().to_vec()
}

fn told(success: bool, stdout: &str) -> Reply {
    Reply::Command(Some(Output {
        success,
        code: Some(if success { 0 } else { 1 }),
        stdout: b(stdout),
        stderr: vec![],
    }))
}

fn asks(shell: &str, script: &str) -> Vec<Effect> {
    vec![Effect::Run { program: s(shell), args: vec![s("-lc"), s(script)] }]
}

#[test]
fn the_first_shell_that_knows_the_program_wins() {
    let (state, effects) = which_from_login_shell("dsh", ShellSearch::Start, Reply::Nothing);
    assert_eq!(effects, asks("zsh", "command -v dsh"));
    let (state, effects) = which_from_login_shell("dsh", state, told(true, "/n/bin/dsh\n"));
    assert_eq!(effects, vec![Effect::IsFile(b("/n/bin/dsh"))]);
    let (state, effects) = which_from_login_shell("dsh", state, Reply::Flag(true));
    assert_eq!(state, ShellSearch::Ended(Some(b("/n/bin/dsh"))));
    assert!(effects.is_empty());
}

#[test]
fn shells_that_fail_or_say_nothing_are_passed_over() {
    let (state, effects) = which_from_login_shell("dsh", ShellSearch::Asked(0), told(false, "/x"));
    assert_eq!(state, ShellSearch::Asked(1));
    assert_eq!(effects, asks("bash", "command -v dsh"));
    let (state, effects) = which_from_login_shell("dsh", state, told(true, " \n"));
    assert_eq!(state, ShellSearch::Asked(2));
    assert_eq!(effects, asks("sh", "command -v dsh"));
    let (state, effects) = which_from_login_shell("dsh", state, told(true, ""));
    assert_eq!(state, ShellSearch::Ended(None));
    assert!(effects.is_empty());
}

#[test]
fn what_is_no_absolute_path_is_passed_over() {
    for answer in ["bin/dsh\n", "./dsh", "dsh", "alias dsh=/x"] {
        let (state, effects) =
            which_from_login_shell("dsh", ShellSearch::Asked(0), told(true, answer));
        assert_eq!(state, ShellSearch::Asked(1));
        assert_eq!(effects, asks("bash", "command -v dsh"));
    }
}

#[test]
fn what_is_no_file_is_passed_over() {
    let (state, _) = which_from_login_shell("dsh", ShellSearch::Asked(0), told(true, "/gone"));
    assert_eq!(state, ShellSearch::Checking(0, b("/gone")));
    let (state, effects) = which_from_login_shell("dsh", state, Reply::Flag(false));
    assert_eq!(state, ShellSearch::Asked(1));
    assert_eq!(effects, asks("bash", "command -v dsh"));
}

#[test]
fn a_shell_that_cannot_be_run_ends_the_search() {
    let (state, effects) =
        which_from_login_shell("dsh", ShellSearch::Asked(0), Reply::Command(None));
    assert_eq!(state, ShellSearch::Ended(None));
    assert!(effects.is_empty());
}

#[test]
fn the_search_path_comes_from_the_first_shell_that_tells_it() {
    let script = "printf '%s' \"$PATH\"";
    let (state, effects) = login_shell_path(None, PathSearch::Start, Reply::Nothing);
    assert_eq!(effects, asks("zsh", script));
    let (state, effects) = login_shell_path(None, state, told(false, "/x"));
    assert_eq!(effects, asks("bash", script));
    let (state, effects) = login_shell_path(None, state, told(true, ""));
    assert_eq!(effects, asks("sh", script));
    let (state, effects) = login_shell_path(None, state, told(true, "/a:/b"));
    assert_eq!(state, PathSearch::Ended(Some(s("/a:/b"))));
    assert!(effects.is_empty());
}

#[test]
fn without_a_shell_the_own_search_path_has_to_do() {
    let own = || Some(s("/usr/bin"));
    let (state, _) = login_shell_path(own(), PathSearch::Asked(2), told(false, ""));
    assert_eq!(state, PathSearch::Ended(Some(s("/usr/bin"))));
    let (state, _) = login_shell_path(own(), PathSearch::Asked(0), Reply::Command(None));
    assert_eq!(state, PathSearch::Ended(Some(s("/usr/bin"))));
    let (state, _) = login_shell_path(Some(s("")), PathSearch::Asked(2), told(true, " "));
    assert_eq!(state, PathSearch::Ended(None));
    let (state, _) = login_shell_path(None, PathSearch::Asked(2), told(true, " "));
    assert_eq!(state, PathSearch::Ended(None));
}

#[test]
fn the_environment_is_path_and_terminal() {
    let (state, effects) = service_env(None, EnvSearch::Start, Reply::Nothing);
    assert_eq!(effects, vec![Effect::LoginShellPath]);
    let (state, effects) = service_env(None, state, Reply::SearchPath(Some(s("/a:/b"))));
    assert_eq!(
        state,
        EnvSearch::Ended(vec![(s("PATH"), s("/a:/b")), (s("TERM"), s("dumb"))])
    );
    assert_eq!(effects, vec![Effect::Log(s("service_env: 登录 shell PATH=/a:/b"))]);
}

#[test]
fn the_environment_falls_back_on_the_own_search_path() {
    let note = vec![Effect::Log(s("service_env: 登录 shell PATH 解析失败，回退当前进程 PATH"))];
    let (state, effects) =
        service_env(Some(s("/own")), EnvSearch::Waiting, Reply::SearchPath(None));
    assert_eq!(
        state,
        EnvSearch::Ended(vec![(s("PATH"), s("/own")), (s("TERM"), s("dumb"))])
    );
    assert_eq!(effects, note);
    let (state, effects) = service_env(None, EnvSearch::Waiting, Reply::SearchPath(None));
    assert_eq!(state, EnvSearch::Ended(vec![(s("PATH"), s("")), (s("TERM"), s("dumb"))]));
    assert_eq!(effects, note);
}

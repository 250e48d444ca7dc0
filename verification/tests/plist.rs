use dsh_launcher::plist::keepalive_off;
use dsh_launcher::plist::plist_has_env;
use dsh_launcher::plist::plist_text;
use dsh_launcher::plist::read_keepalive;
use dsh_launcher::plist::read_run_at_load;
use dsh_launcher::plist::xml_escape;

fn s(t: &str) -> String {
    t.to_string()
}

fn sample(run_at_load: bool, keep_alive: bool) -> String {
    plist_text(
        &vec![s("/n/node"), s("/n/d&h")],
        &vec![(s("PATH"), s("/a:/<b>")), (s("TERM"), s("dumb"))],
        run_at_load,
        keep_alive,
        "/Users/u/Library/Logs/dsh-web.log",
    )
}

#[test]
fn escapes_markup() {
    assert_eq!(xml_escape("a<b>&amp;\"'"), "a&lt;b&gt;&amp;amp;\"'");
    assert_eq!(xml_escape(""), "");
    assert_eq!(xml_escape("界"), "界");
}

#[test]
fn the_whole_property_list() {
    let expected = r#"<?xml version="1.0" encoding="UTF-8"?>
<!DOCTYPE plist PUBLIC "-//Apple//DTD PLIST 1.0//EN" "http://www.apple.com/DTDs/PropertyList-1.0.dtd">
<plist version="1.0">
<dict>
  <key>Label</key>
  <string>com.dsh-launcher.web</string>
  <key>ProgramArguments</key>
  <array>
    <string>/n/node</string>
    <string>/n/d&amp;h</string>
  </array>
  <key>EnvironmentVariables</key>
  <dict>
    <key>PATH</key>
    <string>/a:/&lt;b&gt;</string>
    <key>TERM</key>
    <string>dumb</string>
  </dict>
  <key>KeepAlive</key>
  <true/>
  <key>RunAtLoad</key>
  <false/>
  <key>StandardOutPath</key>
  <string>/Users/u/Library/Logs/dsh-web.log</string>
  <key>StandardErrorPath</key>
  <string>/Users/u/Library/Logs/dsh-web.log</string>
</dict>
</plist>
"#;
    assert_eq!(sample(false, true), expected);
}

#[test]
fn every_key_stands_once() {
    let xml = plist_text(
        &vec![s("<key>Label</key>"), s("<key>ProgramArguments</key>")],
        &vec![(s("PATH"), s("<key>EnvironmentVariables</key>")), (s("TERM"), s("dumb"))],
        true,
        true,
        "<key>StandardOutPath</key>",
    );
    for key in [
        "<key>Label</key>",
        "<key>ProgramArguments</key>",
        "<key>EnvironmentVariables</key>",
        "<key>KeepAlive</key>",
        "<key>RunAtLoad</key>",
        "<key>StandardOutPath</key>",
        "<key>StandardErrorPath</key>",
    ] {
        assert_eq!(xml.matches(key).count(), 1, "{}", key);
    }
}

#[test]
fn switches_read_back() {
    for login in [false, true] {
        for alive in [false, true] {
            let xml = sample(login, alive);
            assert_eq!(read_run_at_load(Some(&xml)), login);
            assert_eq!(read_keepalive(Some(&xml)), alive);
            assert!(plist_has_env(Some(&xml)));
        }
    }
}

#[test]
fn names_of_switches_in_the_values_do_not_deceive() {
    let xml = plist_text(
        &vec![s("<key>KeepAlive</key><true/>"), s("<key>RunAtLoad</key><true/>")],
        &vec![(s("PATH"), s("<key>KeepAlive</key>")), (s("TERM"), s("dumb"))],
        false,
        false,
        "<key>RunAtLoad</key>",
    );
    assert!(!read_run_at_load(Some(&xml)));
    assert!(!read_keepalive(Some(&xml)));
}

#[test]
fn switches_of_other_definitions() {
    assert!(read_keepalive(None));
    assert!(!read_run_at_load(None));
    assert!(!plist_has_env(None));
    assert!(read_keepalive(Some("<dict></dict>")));
    assert!(!read_run_at_load(Some("<dict></dict>")));
    assert!(!plist_has_env(Some("<dict></dict>")));
    assert!(read_run_at_load(Some("<key>RunAtLoad</key> \n\t<true/>")));
    assert!(!read_run_at_load(Some("<key>RunAtLoad</key>x<true/>")));
    assert!(!read_keepalive(Some("<key>KeepAlive</key><true />")));
    assert!(!read_keepalive(Some("<key>KeepAlive</key><false/><key>KeepAlive</key><true/>")));
}

#[test]
fn the_restart_switch_is_turned_off_in_place() {
    assert_eq!(
        keepalive_off("a<key>KeepAlive</key>\n  <true/>\n<b/>"),
        Ok(s("a<key>KeepAlive</key><false/>\n<b/>"))
    );
    assert_eq!(
        keepalive_off("<key>KeepAlive</key><dict><x/></dict>"),
        Ok(s("<key>KeepAlive</key><false/><x/></dict>"))
    );
}

#[test]
fn turning_off_keeps_the_rest() {
    for login in [false, true] {
        for alive in [false, true] {
            let off = keepalive_off(&sample(login, alive)).unwrap();
            assert!(!read_keepalive(Some(&off)));
            assert_eq!(read_run_at_load(Some(&off)), login);
            assert!(plist_has_env(Some(&off)));
            assert_eq!(keepalive_off(&off), Ok(off));
        }
    }
}

#[test]
fn a_definition_without_the_switch_cannot_be_turned_off() {
    assert_eq!(keepalive_off("<dict/>"), Err(s("plist 缺少 KeepAlive 字段")));
    assert_eq!(keepalive_off("<key>KeepAlive</key> true"), Err(s("plist KeepAlive 值缺失")));
    assert_eq!(
        keepalive_off("<key>KeepAlive</key> <true"),
        Err(s("plist KeepAlive 值格式异常"))
    );
}

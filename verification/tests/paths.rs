use std::path::Path;

use dsh_launcher::locations::config_dir;
use dsh_launcher::locations::config_root;
use dsh_launcher::locations::home_dir;
use dsh_launcher::locations::is_managed;
use dsh_launcher::locations::location;
use dsh_launcher::locations::log_path;
use dsh_launcher::locations::state_dir;
use dsh_launcher::locations::state_root;
use dsh_launcher::locations::tray_log_path;
use dsh_launcher::locations::window_size_path;
use dsh_launcher::locations::Base;
use dsh_launcher::locations::LauncherFile;
use dsh_launcher::locations::Platform;
use dsh_launcher::locations::Surroundings;
use dsh_launcher::path::below;
use dsh_launcher::path::is_absolute;
use dsh_launcher::path::join_path;
use dsh_launcher::path::parent;

fn b(s: &str) -> Vec<u8> {
    s.as_bytes().to_vec()
}

fn short_paths(alphabet: &[char], most: usize) -> Vec<String> {
    let mut all = vec![String::new()];
    let mut last = vec![String::new()];
    for _ in 0..most {
        let mut next = vec![];
        for p in &last {
            for c in alphabet {
                next.push(format!("{}{}", p, c));
            }
        }
        all.extend(next.iter().cloned());
        last = next;
    }
    all
}

#[test]
fn parents_are_those_of_the_standard_library() {
    for p in short_paths(&['/', '.', 'a'], 8) {
        let expected = Path::new(&p).parent().map(|q| b(q.to_str().unwrap()));
        assert_eq!(parent(&b(&p)), expected, "{:?}", p);
    }
}

#[test]
fn joins_are_those_of_the_standard_library() {
    let some = short_paths(&['/', '.', 'a'], 4);
    for p in &some {
        assert_eq!(is_absolute(&b(p)), Path::new(p).is_absolute());
        for q in &some {
            let expected = b(Path::new(p).join(q).to_str().unwrap());
            assert_eq!(join_path(&b(p), &b(q)), expected, "{:?} {:?}", p, q);
            assert_eq!(below(&b(p), q), expected);
        }
    }
}

#[test]
fn a_joined_name_can_be_taken_off() {
    assert_eq!(parent(&below(&b("/opt/nvm/bin"), "node")), Some(b("/opt/nvm/bin")));
    assert_eq!(parent(&b("/")), None);
    assert_eq!(parent(&b("")), None);
    assert_eq!(parent(&b("dsh")), Some(b("")));
}

#[test]
fn bytes_that_are_no_text_stay_as_they_are() {
    assert_eq!(below(&vec![0x2f, 0xff], "x"), vec![0x2f, 0xff, 0x2f, 0x78]);
    assert_eq!(parent(&vec![0x2f, 0xff, 0x2f, 0xfe]), Some(vec![0x2f, 0xff]));
}

fn env(home: Option<&str>, config: Option<&str>, state: Option<&str>) -> Surroundings {
    Surroundings {
        home: home.map(b),
        xdg_config_home: config.map(b),
        xdg_state_home: state.map(b),
    }
}

#[test]
fn macos_files() {
    let e = env(Some("/Users/u"), Some("/c"), Some("/s"));
    let m = Platform::MacOs;
    assert_eq!(home_dir(&e), b("/Users/u"));
    assert_eq!(config_root(m, &e), b("/Users/u/Library/Application Support"));
    assert_eq!(config_dir(m, &e), b("/Users/u/Library/Application Support/dsh-launcher"));
    assert_eq!(state_root(m, &e), b("/Users/u/Library/Logs"));
    assert_eq!(state_dir(m, &e), b("/Users/u/Library/Logs"));
    assert_eq!(log_path(m, &e), b("/Users/u/Library/Logs/dsh-web.log"));
    assert_eq!(tray_log_path(m, &e), b("/Users/u/Library/Logs/dsh-launcher.log"));
    assert_eq!(
        window_size_path(m, &e),
        b("/Users/u/Library/Application Support/dsh-launcher/window-size.json")
    );
}

#[test]
fn linux_files() {
    let l = Platform::Linux;
    let plain = env(Some("/home/u"), None, None);
    assert_eq!(config_root(l, &plain), b("/home/u/.config"));
    assert_eq!(state_root(l, &plain), b("/home/u/.local/state"));
    assert_eq!(state_dir(l, &plain), b("/home/u/.local/state/dsh-launcher"));
    assert_eq!(log_path(l, &plain), b("/home/u/.local/state/dsh-launcher/dsh-web.log"));
    let e = env(Some("/home/u"), Some("/c"), Some("/s/"));
    assert_eq!(config_dir(l, &e), b("/c/dsh-launcher"));
    assert_eq!(window_size_path(l, &e), b("/c/dsh-launcher/window-size.json"));
    assert_eq!(state_dir(l, &e), b("/s/dsh-launcher"));
    assert_eq!(tray_log_path(l, &e), b("/s/dsh-launcher/dsh-launcher.log"));
}

#[test]
fn relative_directories_are_ignored() {
    let l = Platform::Linux;
    for odd in ["", "c", "./c", "~/c"] {
        let e = env(Some("/home/u"), Some(odd), Some(odd));
        assert_eq!(config_root(l, &e), b("/home/u/.config"));
        assert_eq!(state_root(l, &e), b("/home/u/.local/state"));
    }
}

#[test]
fn without_a_home_the_root_has_to_do() {
    let e = env(None, None, None);
    assert_eq!(home_dir(&e), b("/"));
    assert_eq!(config_root(Platform::Linux, &e), b("/.config"));
    assert_eq!(state_dir(Platform::MacOs, &e), b("/Library/Logs"));
}

#[test]
fn windows_has_no_service_manager() {
    assert!(is_managed(Platform::MacOs));
    assert!(is_managed(Platform::Linux));
    assert!(!is_managed(Platform::Windows));
}

fn names(list: &[&str]) -> Vec<String> {
    list.iter().map(|n| n.to_string()).collect()
}

#[test]
fn the_ways_to_the_files() {
    let size = LauncherFile::WindowSize;
    let log = LauncherFile::ServiceLog;
    let own = LauncherFile::TrayLog;
    for p in [Platform::Linux, Platform::Windows] {
        assert_eq!(
            location(p, size, false, true),
            (Base::Home, names(&[".config", "dsh-launcher", "window-size.json"]))
        );
        assert_eq!(
            location(p, size, true, false),
            (Base::ConfigHome, names(&["dsh-launcher", "window-size.json"]))
        );
        assert_eq!(
            location(p, log, true, false),
            (Base::Home, names(&[".local/state", "dsh-launcher", "dsh-web.log"]))
        );
        assert_eq!(
            location(p, own, false, true),
            (Base::StateHome, names(&["dsh-launcher", "dsh-launcher.log"]))
        );
    }
    assert_eq!(
        location(Platform::MacOs, size, true, true),
        (
            Base::Home,
            names(&["Library/Application Support", "dsh-launcher", "window-size.json"])
        )
    );
    assert_eq!(
        location(Platform::MacOs, own, true, true),
        (Base::Home, names(&["Library/Logs", "dsh-launcher.log"]))
    );
}

#[test]
fn the_ways_lead_to_the_paths() {
    for p in [Platform::MacOs, Platform::Linux] {
        for state in [None, Some("/s"), Some("s")] {
            let e = env(Some("/home/u"), None, state);
            let usable = state == Some("/s");
            let (base, list) = location(p, LauncherFile::ServiceLog, false, usable);
            let mut path = b(if base == Base::StateHome { "/s" } else { "/home/u" });
            for name in &list {
                path = below(&path, name);
            }
            assert_eq!(path, log_path(p, &e));
        }
    }
}

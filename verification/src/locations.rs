//! Where the launcher keeps its files on each platform.
//!
//! [`location`] says of each file by which variable and through which names it is reached. The
//! functions that give whole paths are for the platforms whose paths are made of slashes. On
//! Windows the names are joined by the rules for drives and backslashes, which the program's own
//! path functions have there.

use vstd::prelude::*;
use vstd::utf8::*;

use crate::native::copy_of;
use crate::path::absolute;
use crate::path::below;
use crate::path::is_absolute;
use crate::path::path_join;
use crate::path::SLASH;
use crate::text::texts;

verus! {

/// The systems that the launcher tells apart.
#[derive(Clone, Copy, Debug, PartialEq, Eq, Structural)]
pub enum Platform {
    MacOs,
    Linux,
    Windows,
}

/// Whether the platform has a way to run the service.
pub open spec fn managed(platform: Platform) -> bool {
    platform != Platform::Windows
}

/// Whether the platform has a way to run the service.
pub fn is_managed(platform: Platform) -> (r: bool)
    ensures
        r == managed(platform),
{
    platform != Platform::Windows
}

/// The environment variables that say where files go, as raw bytes.
#[derive(Debug, PartialEq, Eq)]
pub struct Surroundings {
    pub home: Option<Vec<u8>>,
    pub xdg_config_home: Option<Vec<u8>>,
    pub xdg_state_home: Option<Vec<u8>>,
}

/// The path `rel` below `base`.
pub open spec fn sub_path(base: Seq<u8>, rel: Seq<char>) -> Seq<u8> {
    path_join(base, encode_utf8(rel))
}

/// The directory that `HOME` names, or the root.
pub open spec fn home_path(env: Surroundings) -> Seq<u8> {
    match env.home {
        Some(home) => home@,
        None => seq![SLASH],
    }
}

/// The directory that a variable names, where it names an absolute one, or else `fallback`.
pub open spec fn absolute_or(dir: Option<Vec<u8>>, fallback: Seq<u8>) -> Seq<u8> {
    match dir {
        Some(d) => if absolute(d@) {
            d@
        } else {
            fallback
        },
        None => fallback,
    }
}

/// The directory for configuration, of all applications.
pub open spec fn config_root_path(platform: Platform, env: Surroundings) -> Seq<u8> {
    if platform == Platform::MacOs {
        sub_path(home_path(env), "Library/Application Support"@)
    } else {
        absolute_or(env.xdg_config_home, sub_path(home_path(env), ".config"@))
    }
}

/// The directory for state and logs, of all applications.
pub open spec fn state_root_path(platform: Platform, env: Surroundings) -> Seq<u8> {
    if platform == Platform::MacOs {
        sub_path(home_path(env), "Library/Logs"@)
    } else {
        absolute_or(env.xdg_state_home, sub_path(home_path(env), ".local/state"@))
    }
}

/// The directory for the launcher's own state and logs: `~/Library/Logs` itself on macOS, and
/// `dsh-launcher` below the state root elsewhere.
pub open spec fn state_dir_path(platform: Platform, env: Surroundings) -> Seq<u8> {
    if platform == Platform::MacOs {
        state_root_path(platform, env)
    } else {
        sub_path(state_root_path(platform, env), "dsh-launcher"@)
    }
}

/// The directory for the launcher's own configuration.
pub open spec fn config_dir_path(platform: Platform, env: Surroundings) -> Seq<u8> {
    sub_path(config_root_path(platform, env), "dsh-launcher"@)
}

/// The directory that `HOME` names, or the root.
pub fn home_dir(env: &Surroundings) -> (r: Vec<u8>)
    ensures
        r@ == home_path(*env),
{
    match &env.home {
        Some(home) => copy_of(home),
        None => {
            let root: Vec<u8> = vec![SLASH];
            assert(root@ == seq![SLASH]);
            root
        },
    }
}

fn absolute_dir(dir: &Option<Vec<u8>>, fallback: Vec<u8>) -> (r: Vec<u8>)
    ensures
        r@ == absolute_or(*dir, fallback@),
{
    match dir {
        Some(d) => if is_absolute(d) {
            copy_of(d)
        } else {
            fallback
        },
        None => fallback,
    }
}

/// The directory for configuration, of all applications.
pub fn config_root(platform: Platform, env: &Surroundings) -> (r: Vec<u8>)
    requires
        platform != Platform::Windows,
    ensures
        r@ == config_root_path(platform, *env),
{
    if platform == Platform::MacOs {
        below(&home_dir(env), "Library/Application Support")
    } else {
        absolute_dir(&env.xdg_config_home, below(&home_dir(env), ".config"))
    }
}

/// The directory for state and logs, of all applications.
pub fn state_root(platform: Platform, env: &Surroundings) -> (r: Vec<u8>)
    requires
        platform != Platform::Windows,
    ensures
        r@ == state_root_path(platform, *env),
{
    if platform == Platform::MacOs {
        below(&home_dir(env), "Library/Logs")
    } else {
        absolute_dir(&env.xdg_state_home, below(&home_dir(env), ".local/state"))
    }
}

/// The directory for the launcher's own state and logs.
pub fn state_dir(platform: Platform, env: &Surroundings) -> (r: Vec<u8>)
    requires
        platform != Platform::Windows,
    ensures
        r@ == state_dir_path(platform, *env),
{
    let root = state_root(platform, env);
    if platform == Platform::MacOs {
        root
    } else {
        below(&root, "dsh-launcher")
    }
}

/// The directory for the launcher's own configuration.
pub fn config_dir(platform: Platform, env: &Surroundings) -> (r: Vec<u8>)
    requires
        platform != Platform::Windows,
    ensures
        r@ == config_dir_path(platform, *env),
{
    below(&config_root(platform, env), "dsh-launcher")
}

/// The file that remembers the size of the window.
pub fn window_size_path(platform: Platform, env: &Surroundings) -> (r: Vec<u8>)
    requires
        platform != Platform::Windows,
    ensures
        r@ == sub_path(config_dir_path(platform, *env), "window-size.json"@),
{
    below(&config_dir(platform, env), "window-size.json")
}

/// The file to which the service writes its output.
pub open spec fn service_log_path(platform: Platform, env: Surroundings) -> Seq<u8> {
    sub_path(state_dir_path(platform, env), "dsh-web.log"@)
}

/// The file to which the service writes its output.
pub fn log_path(platform: Platform, env: &Surroundings) -> (r: Vec<u8>)
    requires
        platform != Platform::Windows,
    ensures
        r@ == service_log_path(platform, *env),
{
    below(&state_dir(platform, env), "dsh-web.log")
}

/// The launcher's own log.
pub fn tray_log_path(platform: Platform, env: &Surroundings) -> (r: Vec<u8>)
    requires
        platform != Platform::Windows,
    ensures
        r@ == sub_path(state_dir_path(platform, *env), "dsh-launcher.log"@),
{
    below(&state_dir(platform, env), "dsh-launcher.log")
}

// ---- files by their names ----

/// The variables that the way to a file begins with.
#[derive(Clone, Copy, Debug, PartialEq, Eq, Structural)]
pub enum Base {
    /// `HOME`, or the root where it is not set.
    Home,
    /// `XDG_CONFIG_HOME`.
    ConfigHome,
    /// `XDG_STATE_HOME`.
    StateHome,
}

/// The files that the launcher keeps on every platform.
#[derive(Clone, Copy, Debug, PartialEq, Eq, Structural)]
pub enum LauncherFile {
    /// The size of the window.
    WindowSize,
    /// The output of the service.
    ServiceLog,
    /// The launcher's own log.
    TrayLog,
}

/// The way to the directory for configuration. `usable` says whether `XDG_CONFIG_HOME` names an
/// absolute directory.
pub open spec fn config_way(platform: Platform, usable: bool) -> (Base, Seq<Seq<char>>) {
    if platform == Platform::MacOs {
        (Base::Home, seq!["Library/Application Support"@])
    } else if usable {
        (Base::ConfigHome, seq![])
    } else {
        (Base::Home, seq![".config"@])
    }
}

/// The way to the directory for the launcher's state and logs. `usable` says whether
/// `XDG_STATE_HOME` names an absolute directory.
pub open spec fn state_way(platform: Platform, usable: bool) -> (Base, Seq<Seq<char>>) {
    if platform == Platform::MacOs {
        (Base::Home, seq!["Library/Logs"@])
    } else if usable {
        (Base::StateHome, seq!["dsh-launcher"@])
    } else {
        (Base::Home, seq![".local/state"@, "dsh-launcher"@])
    }
}

/// The way to a file: where it begins, and the names below that.
pub open spec fn way(
    platform: Platform,
    file: LauncherFile,
    config_usable: bool,
    state_usable: bool,
) -> (Base, Seq<Seq<char>>) {
    let config = config_way(platform, config_usable);
    let state = state_way(platform, state_usable);
    match file {
        LauncherFile::WindowSize => (
            config.0,
            config.1 + seq!["dsh-launcher"@, "window-size.json"@],
        ),
        LauncherFile::ServiceLog => (state.0, state.1 + seq!["dsh-web.log"@]),
        LauncherFile::TrayLog => (state.0, state.1 + seq!["dsh-launcher.log"@]),
    }
}

/// The way to a file: where it begins, and the names below that. The last two arguments say
/// whether `XDG_CONFIG_HOME` and `XDG_STATE_HOME` name absolute directories, by the rules of the
/// platform.
pub fn location(
    platform: Platform,
    file: LauncherFile,
    config_usable: bool,
    state_usable: bool,
) -> (r: (Base, Vec<String>))
    ensures
        (r.0, texts(r.1@)) == way(platform, file, config_usable, state_usable),
{
    let mac = platform == Platform::MacOs;
    let mut names: Vec<String> = Vec::new();
    let mut base = Base::Home;
    match file {
        LauncherFile::WindowSize => {
            if mac {
                names.push("Library/Application Support".to_string());
            } else if config_usable {
                base = Base::ConfigHome;
            } else {
                names.push(".config".to_string());
            }
            names.push("dsh-launcher".to_string());
            names.push("window-size.json".to_string());
        },
        _ => {
            if mac {
                names.push("Library/Logs".to_string());
            } else {
                if state_usable {
                    base = Base::StateHome;
                } else {
                    names.push(".local/state".to_string());
                }
                names.push("dsh-launcher".to_string());
            }
            if file == LauncherFile::ServiceLog {
                names.push("dsh-web.log".to_string());
            } else {
                names.push("dsh-launcher.log".to_string());
            }
        },
    }
    assert(texts(names@) =~= way(platform, file, config_usable, state_usable).1);
    (base, names)
}

} // verus!

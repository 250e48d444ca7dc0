//! What holds of the places of files.

use vstd::prelude::*;
use vstd::utf8::*;

use crate::locations::config_dir_path;
use crate::locations::config_root_path;
use crate::locations::home_path;
use crate::locations::service_log_path;
use crate::locations::state_dir_path;
use crate::locations::state_root_path;
use crate::locations::sub_path;
use crate::locations::way;
use crate::locations::Base;
use crate::locations::LauncherFile;
use crate::locations::Platform;
use crate::locations::Surroundings;
use crate::path::absolute;
use crate::path::path_join;
use crate::path::SLASH;

verus! {

/// On Linux, a variable that names an absolute directory is followed, and one that does not is
/// as good as unset.
pub proof fn law_relative_directories_are_ignored(
    env: Surroundings,
    unset: Surroundings,
)
    requires
        unset.home == env.home,
        unset.xdg_config_home is None,
        unset.xdg_state_home is None,
    ensures
        env.xdg_config_home matches Some(d) ==> config_root_path(Platform::Linux, env) == if absolute(d@) {
            d@
        } else {
            config_root_path(Platform::Linux, unset)
        },
        env.xdg_state_home matches Some(d) ==> state_root_path(Platform::Linux, env) == if absolute(d@) {
            d@
        } else {
            state_root_path(Platform::Linux, unset)
        },
{
}

/// On macOS the two variables are of no account.
pub proof fn law_macos_goes_by_home(env: Surroundings, other: Surroundings)
    requires
        env.home == other.home,
    ensures
        config_root_path(Platform::MacOs, env) == config_root_path(Platform::MacOs, other),
        state_dir_path(Platform::MacOs, env) == state_dir_path(Platform::MacOs, other),
        state_dir_path(Platform::MacOs, env) == sub_path(home_path(env), "Library/Logs"@),
{
}

proof fn lemma_join_absolute(base: Seq<u8>, rel: Seq<u8>)
    requires
        absolute(base),
    ensures
        absolute(path_join(base, rel)),
{
}

/// With an absolute home directory, or none at all, every root is absolute.
pub proof fn law_roots_are_absolute(platform: Platform, env: Surroundings)
    requires
        platform != Platform::Windows,
        env.home is Some ==> absolute(env.home->0@),
    ensures
        absolute(config_root_path(platform, env)),
        absolute(state_root_path(platform, env)),
        absolute(state_dir_path(platform, env)),
{
    let home = home_path(env);
    assert(seq![SLASH][0] == SLASH);
    lemma_join_absolute(home, vstd::utf8::encode_utf8("Library/Application Support"@));
    lemma_join_absolute(home, vstd::utf8::encode_utf8("Library/Logs"@));
    lemma_join_absolute(home, vstd::utf8::encode_utf8(".config"@));
    lemma_join_absolute(home, vstd::utf8::encode_utf8(".local/state"@));
    lemma_join_absolute(
        state_root_path(platform, env),
        vstd::utf8::encode_utf8("dsh-launcher"@),
    );
}

// ---- files by their names ----

/// The directory in which the way to a file begins.
pub open spec fn base_path(env: Surroundings, base: Base) -> Seq<u8> {
    match base {
        Base::Home => home_path(env),
        Base::ConfigHome => env.xdg_config_home->0@,
        Base::StateHome => env.xdg_state_home->0@,
    }
}

/// Names one below the other.
pub open spec fn descend(base: Seq<u8>, names: Seq<Seq<char>>) -> Seq<u8>
    decreases names.len(),
{
    if names.len() == 0 {
        base
    } else {
        sub_path(descend(base, names.drop_last()), names.last())
    }
}

/// Whether a variable names an absolute directory.
pub open spec fn usable(dir: Option<Vec<u8>>) -> bool {
    dir is Some && absolute(dir->0@)
}

/// Where paths are made of slashes, the way to each file leads to its path.
pub proof fn law_ways_lead_to_paths(platform: Platform, env: Surroundings)
    requires
        platform != Platform::Windows,
    ensures
        ({
            let c = usable(env.xdg_config_home);
            let s = usable(env.xdg_state_home);
            let size = way(platform, LauncherFile::WindowSize, c, s);
            let log = way(platform, LauncherFile::ServiceLog, c, s);
            let own = way(platform, LauncherFile::TrayLog, c, s);
            &&& descend(base_path(env, size.0), size.1) == sub_path(
                config_dir_path(platform, env),
                "window-size.json"@,
            )
            &&& descend(base_path(env, log.0), log.1) == service_log_path(platform, env)
            &&& descend(base_path(env, own.0), own.1) == sub_path(
                state_dir_path(platform, env),
                "dsh-launcher.log"@,
            )
        }),
{
    reveal_with_fuel(descend, 4);
    let c = usable(env.xdg_config_home);
    let s = usable(env.xdg_state_home);
    lemma_last_names(way(platform, LauncherFile::WindowSize, c, s).1);
    lemma_last_names(way(platform, LauncherFile::ServiceLog, c, s).1);
    lemma_last_names(way(platform, LauncherFile::TrayLog, c, s).1);
}

proof fn lemma_last_names(names: Seq<Seq<char>>)
    ensures
        names.len() == 2 ==> names.drop_last() == seq![names[0]],
        names.len() == 3 ==> names.drop_last() == seq![names[0], names[1]]
            && names.drop_last().drop_last() == seq![names[0]],
{
}

// ---- files by their whole paths ----

/// A path below another goes on behind one slash, whether or not the other path ends in one; an
/// absolute path stands for itself, below any other.
pub proof fn law_below_means_behind_a_slash(base: Seq<u8>, rel: Seq<u8>)
    ensures
        !absolute(rel) && base.len() > 0 && base.last() != 0x2f ==> path_join(base, rel) == base
            + seq![0x2fu8] + rel && path_join(base.push(0x2f), rel) == path_join(base, rel),
        rel.len() > 0 && rel[0] == 0x2f ==> path_join(base, rel) == rel,
        path_join(Seq::empty(), rel) == rel,
        absolute(rel) <==> rel.len() > 0 && rel[0] == 0x2f,
{
    assert(base.push(SLASH) =~= base + seq![SLASH]);
    assert(Seq::<u8>::empty() + rel =~= rel);
}

/// The names of some texts behind a path, each behind a slash.
pub open spec fn behind(base: Seq<u8>, names: Seq<Seq<char>>) -> Seq<u8>
    decreases names.len(),
{
    if names.len() == 0 {
        base
    } else {
        behind(base, names.drop_last()) + seq![0x2fu8] + encode_utf8(names.last())
    }
}

/// Whether a path can be followed by a slash and more: it is not empty and does not end in one.
pub open spec fn open_ended(base: Seq<u8>) -> bool {
    base.len() > 0 && base.last() != 0x2f
}

proof fn lemma_name(base: Seq<u8>, name: Seq<char>)
    requires
        open_ended(base),
        is_ascii_chars(name),
        name.len() > 0,
        name[0] != '/',
        name.last() != '/',
    ensures
        sub_path(base, name) == base + seq![0x2fu8] + encode_utf8(name),
        open_ended(sub_path(base, name)),
{
    is_ascii_chars_encode_utf8(name);
    is_ascii_chars_nat_bound(name);
    let e = encode_utf8(name);
    assert(e[0] == name[0] as u8);
    assert(e.last() == name.last() as u8);
    law_below_means_behind_a_slash(base, e);
    assert(sub_path(base, name).last() == e.last());
}

proof fn lemma_known_names()
    ensures
        forall|n: Seq<char>| #[trigger]
            is_known_name(n) ==> is_ascii_chars(n) && n.len() > 0 && n[0] != '/' && n.last() != '/',
{
    reveal_strlit("Library/Application Support");
    reveal_strlit("Library/Logs");
    reveal_strlit(".config");
    reveal_strlit(".local/state");
    reveal_strlit("dsh-launcher");
    reveal_strlit("window-size.json");
    reveal_strlit("dsh-web.log");
    reveal_strlit("dsh-launcher.log");
}

spec fn is_known_name(n: Seq<char>) -> bool {
    ||| n == "Library/Application Support"@
    ||| n == "Library/Logs"@
    ||| n == ".config"@
    ||| n == ".local/state"@
    ||| n == "dsh-launcher"@
    ||| n == "window-size.json"@
    ||| n == "dsh-web.log"@
    ||| n == "dsh-launcher.log"@
}

proof fn lemma_two(base: Seq<u8>, a: Seq<char>, b: Seq<char>)
    requires
        open_ended(base),
        is_known_name(a),
        is_known_name(b),
    ensures
        sub_path(sub_path(base, a), b) == behind(base, seq![a, b]),
        open_ended(sub_path(sub_path(base, a), b)),
{
    lemma_known_names();
    lemma_name(base, a);
    lemma_name(sub_path(base, a), b);
    reveal_with_fuel(behind, 3);
    assert(seq![a, b].drop_last() =~= seq![a]);
    assert(seq![a].drop_last() =~= Seq::empty());
}

proof fn lemma_three(base: Seq<u8>, a: Seq<char>, b: Seq<char>, c: Seq<char>)
    requires
        open_ended(base),
        is_known_name(a),
        is_known_name(b),
        is_known_name(c),
    ensures
        sub_path(sub_path(sub_path(base, a), b), c) == behind(base, seq![a, b, c]),
{
    lemma_known_names();
    lemma_two(base, a, b);
    lemma_name(sub_path(sub_path(base, a), b), c);
    assert(seq![a, b, c].drop_last() =~= seq![a, b]);
}

/// Where the launcher's files lie on macOS, by the user's home directory.
pub proof fn law_macos_files(env: Surroundings, home: Seq<u8>)
    requires
        env.home matches Some(h) && h@ == home,
        open_ended(home),
    ensures
        service_log_path(Platform::MacOs, env) == behind(
            home,
            seq!["Library/Logs"@, "dsh-web.log"@],
        ),
        sub_path(state_dir_path(Platform::MacOs, env), "dsh-launcher.log"@) == behind(
            home,
            seq!["Library/Logs"@, "dsh-launcher.log"@],
        ),
        sub_path(config_dir_path(Platform::MacOs, env), "window-size.json"@) == behind(
            home,
            seq!["Library/Application Support"@, "dsh-launcher"@, "window-size.json"@],
        ),
{
    lemma_two(home, "Library/Logs"@, "dsh-web.log"@);
    lemma_two(home, "Library/Logs"@, "dsh-launcher.log"@);
    lemma_three(
        home,
        "Library/Application Support"@,
        "dsh-launcher"@,
        "window-size.json"@,
    );
}

/// Where the launcher's files lie on Linux: below the directories that the two variables name,
/// each for its own kind of files, or else below the user's home directory.
pub proof fn law_linux_files(env: Surroundings, home: Seq<u8>)
    requires
        env.home matches Some(h) && h@ == home,
        open_ended(home),
        env.xdg_state_home matches Some(d) ==> open_ended(d@),
        env.xdg_config_home matches Some(d) ==> open_ended(d@),
    ensures
        ({
            let log = service_log_path(Platform::Linux, env);
            let own = sub_path(state_dir_path(Platform::Linux, env), "dsh-launcher.log"@);
            match env.xdg_state_home {
                Some(d) if d@[0] == 0x2f => log == behind(
                    d@,
                    seq!["dsh-launcher"@, "dsh-web.log"@],
                ) && own == behind(d@, seq!["dsh-launcher"@, "dsh-launcher.log"@]),
                _ => log == behind(
                    home,
                    seq![".local/state"@, "dsh-launcher"@, "dsh-web.log"@],
                ) && own == behind(
                    home,
                    seq![".local/state"@, "dsh-launcher"@, "dsh-launcher.log"@],
                ),
            }
        }),
        ({
            let size = sub_path(config_dir_path(Platform::Linux, env), "window-size.json"@);
            match env.xdg_config_home {
                Some(d) if d@[0] == 0x2f => size == behind(
                    d@,
                    seq!["dsh-launcher"@, "window-size.json"@],
                ),
                _ => size == behind(
                    home,
                    seq![".config"@, "dsh-launcher"@, "window-size.json"@],
                ),
            }
        }),
{
    lemma_three(home, ".local/state"@, "dsh-launcher"@, "dsh-web.log"@);
    lemma_three(home, ".local/state"@, "dsh-launcher"@, "dsh-launcher.log"@);
    lemma_three(home, ".config"@, "dsh-launcher"@, "window-size.json"@);
    match env.xdg_state_home {
        Some(d) => {
            lemma_two(d@, "dsh-launcher"@, "dsh-web.log"@);
            lemma_two(d@, "dsh-launcher"@, "dsh-launcher.log"@);
        },
        None => {},
    }
    match env.xdg_config_home {
        Some(d) => {
            lemma_two(d@, "dsh-launcher"@, "window-size.json"@);
        },
        None => {},
    }
}

/// Without a home directory the root stands in its place.
pub proof fn law_no_home_means_root(env: Surroundings)
    ensures
        env.home is None ==> home_path(env) == seq![0x2fu8],
        env.home matches Some(h) ==> home_path(env) == h@,
{
}

/// On Windows the files go by the same variables and names as on Linux.
pub proof fn law_windows_goes_like_linux(file: LauncherFile, config: bool, state: bool)
    ensures
        way(Platform::Windows, file, config, state) == way(Platform::Linux, file, config, state),
{
}

} // verus!

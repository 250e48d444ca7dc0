use dsh_launcher::effect::Effect;
use dsh_launcher::effect::Reply;
use dsh_launcher::programs::dsh_program;
use dsh_launcher::programs::node_for_dsh;
use dsh_launcher::programs::service_command;
use dsh_launcher::programs::which;
use dsh_launcher::programs::which_from_common_paths;
use dsh_launcher::programs::NodeSearch;
use dsh_launcher::programs::PlaceSearch;
use dsh_launcher::programs::ProgramSearch;
use dsh_launcher::programs::Which;
use dsh_launcher::version::is_version_before;

fn s(t: &str) -> String {
    t.to_string()
}

fn b(t: &str) -> Vec<u8> {
    t.as_bytes().to_vec()
}

/// Runs a search through the common places: `versions` is the listing, `files` are the regular
/// files. Gives the questions and the result.
fn search(
    name: &str,
    versions: Option<Vec<Vec<u8>>>,
    files: &[&str],
) -> (Vec<Vec<u8>>, Option<Vec<u8>>) {
    let home = b("/h");
    let mut asked = vec![];
    let mut listing = Some(versions);
    let (mut state, mut effects) =
        which_from_common_paths(&home, name, PlaceSearch::Start, Reply::Nothing);
    loop {
        if let PlaceSearch::Ended(found) = state {
            assert!(effects.is_empty());
            return (asked, found);
        }
        assert_eq!(effects.len(), 1);
        let reply = match effects.pop().unwrap() {
            Effect::List(p) => {
                assert_eq!(p, b("/h/.nvm/versions/node"));
                Reply::Names(listing.take().unwrap())
            }
            Effect::IsFile(p) => {
                let is = files.iter().any(|f| b(f) == p);
                asked.push(p);
                Reply::Flag(is)
            }
            other => panic!("{:?}", other),
        };
        let step = which_from_common_paths(&home, name, state, reply);
        state = step.0;
        effects = step.1;
    }
}

#[test]
fn common_places_in_their_order() {
    let (asked, found) = search("dsh", None, &[]);
    assert_eq!(found, None);
    assert_eq!(
        asked,
        vec![
            b("/h/.nvm/versions/node/current/bin/dsh"),
            b("/h/.local/bin/dsh"),
            b("/h/.volta/bin/dsh"),
            b("/opt/homebrew/bin/dsh"),
            b("/usr/local/bin/dsh"),
            b("/usr/bin/dsh"),
        ]
    );
    let (asked, found) = search("dsh", None, &["/usr/bin/dsh", "/h/.volta/bin/dsh"]);
    assert_eq!(found, Some(b("/h/.volta/bin/dsh")));
    assert_eq!(asked.len(), 3);
}

#[test]
fn the_latest_version_that_has_the_program_goes_first() {
    let versions = Some(vec![b("v18.2.0"), b("v20.1.0"), b("v9.9.9"), b("v16.0.0")]);
    let root = "/h/.nvm/versions/node/";
    let held = format!("{}v18.2.0/bin/dsh", root);
    let later = format!("{}v20.1.0/dsh", root);
    let first = format!("{}v16.0.0/bin/dsh", root);
    let (asked, found) = search("dsh", versions, &[&held, &later, &first, "/usr/bin/dsh"]);
    assert_eq!(found, Some(b(&later)));
    assert_eq!(
        asked,
        vec![
            b(&held),
            b(&format!("{}v20.1.0/bin/dsh", root)),
            b(&later),
            b(&format!("{}v9.9.9/bin/dsh", root)),
            b(&format!("{}v9.9.9/dsh", root)),
            b(&first),
            b(&later),
        ]
    );
}

#[test]
fn versions_are_ordered_by_their_numbers() {
    let nine = "/h/.nvm/versions/node/v9.9.9/dsh";
    let twenty = "/h/.nvm/versions/node/v20.1.0/dsh";
    for versions in [vec![b("v9.9.9"), b("v20.1.0")], vec![b("v20.1.0"), b("v9.9.9")]] {
        let (_, found) = search("dsh", Some(versions), &[nine, twenty]);
        assert_eq!(found, Some(b(twenty)));
    }
    let nine = "/h/.nvm/versions/node/v9.11.0/dsh";
    let eighteen = "/h/.nvm/versions/node/v18.2.0/dsh";
    let versions = Some(vec![b("v9.11.0"), b("v18.2.0")]);
    let (_, found) = search("dsh", versions, &[nine, eighteen]);
    assert_eq!(found, Some(b(eighteen)));
}

#[test]
fn the_directory_for_programs_of_a_version_is_looked_at() {
    let path = "/h/.nvm/versions/node/v20.1.0/bin/dsh";
    let (asked, found) = search("dsh", Some(vec![b("v20.1.0")]), &[path]);
    assert_eq!(found, Some(b(path)));
    assert_eq!(asked, vec![b(path), b(path)]);
    let beside = "/h/.nvm/versions/node/v20.1.0/dsh";
    let (_, found) = search("dsh", Some(vec![b("v20.1.0")]), &[beside, path]);
    assert_eq!(found, Some(b(path)));
}

#[test]
fn version_names_in_order() {
    let sorted = [
        "",
        "current",
        "v",
        "v.2.3",
        "vx",
        "v0.0.0",
        "v0.12.18",
        "v1",
        "v1..3",
        "v1.x",
        "v1.2",
        "v1.2.",
        "v1.2.x",
        "1.2.3",
        "v1.2.3",
        "v1.2.3 ",
        "v1.2.3-rc.9",
        "v1.2.3.4",
        "v4.9.1",
        "v9.11.0",
        "v9.11.2",
        "v10.0.0",
        "v018.2.0",
        "v18.2.0",
        "v18.2.0-rc.10",
        "v18.10.0",
        "v20",
        "v20.0",
        "v20.0.0-rc.1",
        "v20.0.1",
        "v99999999999999999999999.0.0",
        "v100000000000000000000000.0.0",
    ];
    for (i, a) in sorted.iter().enumerate() {
        for (j, c) in sorted.iter().enumerate() {
            assert_eq!(is_version_before(a, c), i < j, "{} {}", a, c);
        }
    }
}

#[test]
fn versions_with_fewer_or_further_parts_are_ordered_by_their_numbers() {
    let eighteen = "/h/.nvm/versions/node/v18.2.0/bin/dsh";
    for name in ["v20", "v20.0", "v20.0.0-rc.1", "v20.0.0.1", "v18.2.0-rc.1"] {
        let path = format!("/h/.nvm/versions/node/{}/bin/dsh", name);
        for versions in [vec![b("v18.2.0"), b(name)], vec![b(name), b("v18.2.0")]] {
            let (_, found) = search("dsh", Some(versions), &[eighteen, &path]);
            assert_eq!(found, Some(b(&path)));
        }
    }
}

#[test]
fn a_version_name_that_is_no_text_is_not_found_again() {
    let home = b("/h");
    let state = PlaceSearch::Probing {
        versions: vec![vec![0x76, 0xff]],
        index: 0,
        bin: true,
        best: None,
    };
    let (state, effects) = which_from_common_paths(&home, "dsh", state, Reply::Flag(true));
    let path = b("/h/.nvm/versions/node/v\u{fffd}/bin/dsh");
    assert_eq!(effects, vec![Effect::IsFile(path.clone())]);
    assert_eq!(state, PlaceSearch::Latest(path));
    let (state, _) = which_from_common_paths(&home, "dsh", state, Reply::Flag(false));
    assert_eq!(state, PlaceSearch::Trying(0));
}

#[test]
fn an_empty_listing_leads_to_the_common_places() {
    let (asked, found) = search("node", Some(vec![]), &["/h/.local/bin/node"]);
    assert_eq!(found, Some(b("/h/.local/bin/node")));
    assert_eq!(asked.len(), 2);
}

#[test]
fn shells_go_before_common_places() {
    let (state, effects) = which("node", Which::Start, Reply::Nothing);
    assert_eq!(effects, vec![Effect::WhichFromLoginShell(s("node"))]);
    let (found, effects) = which("node", state, Reply::Found(Some(b("/n"))));
    assert_eq!(found, Which::Ended(Some(b("/n"))));
    assert!(effects.is_empty());
    let (state, effects) = which("node", Which::Shells, Reply::Found(None));
    assert_eq!(effects, vec![Effect::WhichFromCommonPaths(s("node"))]);
    let (found, _) = which("node", state, Reply::Found(Some(b("/c"))));
    assert_eq!(found, Which::Ended(Some(b("/c"))));
    let (found, _) = which("node", Which::Places, Reply::Found(None));
    assert_eq!(found, Which::Ended(None));
}

#[test]
fn node_beside_dsh_goes_first() {
    let dsh = b("/n/bin/dsh");
    let (state, effects) = node_for_dsh(&dsh, NodeSearch::Start, Reply::Nothing);
    assert_eq!(effects, vec![Effect::IsFile(b("/n/bin/node"))]);
    let (found, _) = node_for_dsh(&dsh, state, Reply::Flag(true));
    assert_eq!(found, NodeSearch::Ended(Some(b("/n/bin/node"))));
    let (state, effects) =
        node_for_dsh(&dsh, NodeSearch::Beside(b("/n/bin/node")), Reply::Flag(false));
    assert_eq!(effects, vec![Effect::Which(s("node"))]);
    let (found, _) = node_for_dsh(&dsh, state, Reply::Found(Some(b("/usr/bin/node"))));
    assert_eq!(found, NodeSearch::Ended(Some(b("/usr/bin/node"))));
}

#[test]
fn a_path_without_parent_leads_to_the_search_everywhere() {
    let (state, effects) = node_for_dsh(&b("/"), NodeSearch::Start, Reply::Nothing);
    assert_eq!(state, NodeSearch::Anywhere);
    assert_eq!(effects, vec![Effect::Which(s("node"))]);
    let (state, effects) = node_for_dsh(&b("dsh"), NodeSearch::Start, Reply::Nothing);
    assert_eq!(state, NodeSearch::Beside(b("node")));
    assert_eq!(effects, vec![Effect::IsFile(b("node"))]);
}

#[test]
fn the_command_line_has_five_words() {
    let (state, effects) = dsh_program(ProgramSearch::Start, Reply::Nothing);
    assert_eq!(effects, vec![Effect::Which(s("dsh"))]);
    let (state, effects) = dsh_program(state, Reply::Found(Some(b("/n/dsh"))));
    assert_eq!(effects, vec![Effect::NodeForDsh(b("/n/dsh"))]);
    let (state, effects) = dsh_program(state, Reply::Found(Some(b("/n/node"))));
    assert_eq!(
        state,
        ProgramSearch::Ended(Ok(vec![
            s("/n/node"),
            s("/n/dsh"),
            s("--profile"),
            s("web"),
            s("--no-open"),
        ]))
    );
    assert_eq!(effects, vec![Effect::Log(s("dsh_program: node=/n/node dsh=/n/dsh"))]);
    assert_eq!(
        service_command(s("a"), s("b")),
        vec![s("a"), s("b"), s("--profile"), s("web"), s("--no-open")]
    );
}

#[test]
fn a_missing_program_is_named() {
    let (state, _) = dsh_program(ProgramSearch::Dsh, Reply::Found(None));
    assert_eq!(
        state,
        ProgramSearch::Ended(Err(s(
            "dsh 不在 PATH，无法生成服务定义（已尝试登录 shell 与常见安装路径）"
        )))
    );
    let (state, effects) = dsh_program(ProgramSearch::Node(b("/n/dsh")), Reply::Found(None));
    assert_eq!(
        state,
        ProgramSearch::Ended(Err(s(
            "node 不在 PATH，无法生成服务定义（已尝试登录 shell 与常见安装路径）"
        )))
    );
    assert!(effects.is_empty());
}

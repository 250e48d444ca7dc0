//! The launchd property list that defines the service: writing it, reading its switches back,
//! and turning the restart switch off in place.

use vstd::prelude::*;

use crate::effect::variables;
use crate::text::begins_with;
use crate::text::chars_of;
use crate::text::concat3;
use crate::text::contains;
use crate::text::find;
use crate::text::find_from;
use crate::text::has;
use crate::text::join;
use crate::text::joined;
use crate::text::occurs_at;
use crate::text::position;
use crate::text::skip_white_space;
use crate::text::text_of;
use crate::text::texts;
use crate::text::trim_start;
use crate::text::truth;
use crate::text::truth_of;

verus! {

/// The name under which launchd knows the service.
pub const LAUNCHD_LABEL: &'static str = "com.dsh-launcher.web";

// ---- escaping ----

/// The form of one character inside an XML element.
pub open spec fn entity(c: char) -> Seq<char> {
    if c == '&' {
        "&amp;"@
    } else if c == '<' {
        "&lt;"@
    } else if c == '>' {
        "&gt;"@
    } else {
        seq![c]
    }
}

/// The form of a text inside an XML element.
pub open spec fn escaped(s: Seq<char>) -> Seq<char>
    decreases s.len(),
{
    if s.len() == 0 {
        Seq::empty()
    } else {
        escaped(s.drop_last()) + entity(s.last())
    }
}

/// The form of a text inside an XML element.
pub fn xml_escape(s: &str) -> (r: String)
    ensures
        r@ == escaped(s@),
{
    let c = chars_of(s);
    let mut r = String::new();
    let mut i: usize = 0;
    while i < c.len()
        invariant
            0 <= i <= c@.len(),
            c@ == s@,
            r@ == escaped(s@.take(i as int)),
        decreases c@.len() - i,
    {
        let x: char = c[i];
        assert(s@.take(i + 1).drop_last() == s@.take(i as int));
        assert(s@.take(i + 1).last() == x);
        if x == '&' {
            r.append("&amp;");
        } else if x == '<' {
            r.append("&lt;");
        } else if x == '>' {
            r.append("&gt;");
        } else {
            let ghost before = r@;
            r.push(x);
            assert(r@ == before + seq![x]);
        }
        i = i + 1;
    }
    assert(s@.take(i as int) == s@);
    r
}

// ---- writing ----

/// One element of the argument array.
pub open spec fn argument_line(a: Seq<char>) -> Seq<char> {
    "    <string>"@ + escaped(a) + "</string>"@
}

/// One variable with its value.
pub open spec fn variable_lines(v: (Seq<char>, Seq<char>)) -> Seq<char> {
    "    <key>"@ + escaped(v.0) + "</key>\n    <string>"@ + escaped(v.1) + "</string>"@
}

/// The property list for a command line, its environment, the two switches and the log file.
pub open spec fn plist(
    program: Seq<Seq<char>>,
    env: Seq<(Seq<char>, Seq<char>)>,
    run_at_load: bool,
    keep_alive: bool,
    log: Seq<char>,
) -> Seq<char> {
    "<?xml version=\"1.0\" encoding=\"UTF-8\"?>\n"@
        + "<!DOCTYPE plist PUBLIC \"-//Apple//DTD PLIST 1.0//EN\" \"http://www.apple.com/DTDs/PropertyList-1.0.dtd\">\n"@
        + "<plist version=\"1.0\">\n<dict>\n  <key>Label</key>\n  <string>"@ + LAUNCHD_LABEL@
        + "</string>\n  <key>ProgramArguments</key>\n  <array>\n"@
        + join(program.map_values(|a: Seq<char>| argument_line(a)), "\n"@)
        + "\n  </array>\n  <key>EnvironmentVariables</key>\n  <dict>\n"@
        + join(env.map_values(|v: (Seq<char>, Seq<char>)| variable_lines(v)), "\n"@)
        + "\n  </dict>\n  <key>KeepAlive</key>\n  <"@ + truth(keep_alive)
        + "/>\n  <key>RunAtLoad</key>\n  <"@ + truth(run_at_load)
        + "/>\n  <key>StandardOutPath</key>\n  <string>"@ + escaped(log)
        + "</string>\n  <key>StandardErrorPath</key>\n  <string>"@ + escaped(log)
        + "</string>\n</dict>\n</plist>\n"@
}

fn argument_lines(program: &Vec<String>) -> (r: String)
    ensures
        r@ == join(texts(program@).map_values(|a: Seq<char>| argument_line(a)), "\n"@),
{
    let mut lines: Vec<String> = Vec::new();
    let mut i: usize = 0;
    while i < program.len()
        invariant
            0 <= i <= program@.len(),
            lines@.len() == i,
            forall|k: int| 0 <= k < i ==> lines@[k]@ == argument_line(program@[k]@),
        decreases program@.len() - i,
    {
        lines.push(concat3("    <string>", xml_escape(program[i].as_str()).as_str(), "</string>"));
        i = i + 1;
    }
    assert(texts(lines@) == texts(program@).map_values(|a: Seq<char>| argument_line(a)));
    joined(&lines, "\n")
}

fn environment_lines(env: &Vec<(String, String)>) -> (r: String)
    ensures
        r@ == join(
            variables(env@).map_values(|v: (Seq<char>, Seq<char>)| variable_lines(v)),
            "\n"@,
        ),
{
    let mut lines: Vec<String> = Vec::new();
    let mut i: usize = 0;
    while i < env.len()
        invariant
            0 <= i <= env@.len(),
            lines@.len() == i,
            forall|k: int|
                0 <= k < i ==> lines@[k]@ == variable_lines((env@[k].0@, env@[k].1@)),
        decreases env@.len() - i,
    {
        let mut line = concat3("    <key>", xml_escape(env[i].0.as_str()).as_str(), "</key>\n    <string>");
        line.append(xml_escape(env[i].1.as_str()).as_str());
        line.append("</string>");
        lines.push(line);
        i = i + 1;
    }
    assert(texts(lines@) == variables(env@).map_values(
        |v: (Seq<char>, Seq<char>)| variable_lines(v),
    ));
    joined(&lines, "\n")
}

/// The property list for a command line, its environment, the two switches and the log file.
pub fn plist_text(
    program: &Vec<String>,
    env: &Vec<(String, String)>,
    run_at_load: bool,
    keep_alive: bool,
    log: &str,
) -> (r: String)
    ensures
        r@ == plist(texts(program@), variables(env@), run_at_load, keep_alive, log@),
{
    let log_text = xml_escape(log);
    let mut r = String::new();
    r.append("<?xml version=\"1.0\" encoding=\"UTF-8\"?>\n");
    r.append(
        "<!DOCTYPE plist PUBLIC \"-//Apple//DTD PLIST 1.0//EN\" \"http://www.apple.com/DTDs/PropertyList-1.0.dtd\">\n",
    );
    r.append("<plist version=\"1.0\">\n<dict>\n  <key>Label</key>\n  <string>");
    r.append(LAUNCHD_LABEL);
    r.append("</string>\n  <key>ProgramArguments</key>\n  <array>\n");
    r.append(argument_lines(program).as_str());
    r.append("\n  </array>\n  <key>EnvironmentVariables</key>\n  <dict>\n");
    r.append(environment_lines(env).as_str());
    r.append("\n  </dict>\n  <key>KeepAlive</key>\n  <");
    r.append(truth_of(keep_alive));
    r.append("/>\n  <key>RunAtLoad</key>\n  <");
    r.append(truth_of(run_at_load));
    r.append("/>\n  <key>StandardOutPath</key>\n  <string>");
    r.append(log_text.as_str());
    r.append("</string>\n  <key>StandardErrorPath</key>\n  <string>");
    r.append(log_text.as_str());
    r.append("</string>\n</dict>\n</plist>\n");
    r
}

// ---- reading ----

/// The key of the restart switch.
pub const KEEP_ALIVE: &'static str = "<key>KeepAlive</key>";

/// The key of the start-at-login switch.
pub const RUN_AT_LOAD: &'static str = "<key>RunAtLoad</key>";

/// The key of the environment.
pub const ENVIRONMENT: &'static str = "<key>EnvironmentVariables</key>";

/// Whether the value after the first `key` is true; `missing` where there is no such key.
pub open spec fn switch(xml: Seq<char>, key: Seq<char>, missing: bool) -> bool {
    match find(xml, key) {
        Some(i) => "<true/>"@.is_prefix_of(trim_start(xml.skip(i + key.len()))),
        None => missing,
    }
}

fn read_switch(xml: &str, key: &str, missing: bool) -> (r: bool)
    ensures
        r == switch(xml@, key@, missing),
{
    let c = chars_of(xml);
    let k = chars_of(key);
    let n: usize = c.len();
    match position(&c, &k) {
        Some(i) => {
            let from = skip_white_space(&c, i + k.len());
            let rest = text_of(&c, from, n);
            assert(rest@ == c@.skip(from as int));
            begins_with(rest.as_str(), "<true/>")
        },
        None => missing,
    }
}

/// Whether the service restarts after a crash, by the definition `xml`; so it does where there
/// is no readable definition.
pub open spec fn keeps_alive(xml: Option<Seq<char>>) -> bool {
    match xml {
        Some(x) => switch(x, KEEP_ALIVE@, true),
        None => true,
    }
}

/// Whether the service starts at login, by the definition `xml`; so it does not where there is
/// no readable definition.
pub open spec fn runs_at_load(xml: Option<Seq<char>>) -> bool {
    match xml {
        Some(x) => switch(x, RUN_AT_LOAD@, false),
        None => false,
    }
}

/// Whether the definition `xml` sets an environment.
pub open spec fn sets_environment(xml: Option<Seq<char>>) -> bool {
    match xml {
        Some(x) => contains(x, ENVIRONMENT@),
        None => false,
    }
}

/// The view of a text that may be missing.
pub open spec fn readable(xml: Option<&str>) -> Option<Seq<char>> {
    match xml {
        Some(x) => Some(x@),
        None => None,
    }
}

/// Whether the definition sets an environment; `None` stands for one that cannot be read.
pub fn plist_has_env(xml: Option<&str>) -> (r: bool)
    ensures
        r == sets_environment(readable(xml)),
{
    match xml {
        Some(x) => has(x, ENVIRONMENT),
        None => false,
    }
}

/// Whether the service restarts after a crash; `None` stands for a definition that cannot be
/// read.
pub fn read_keepalive(xml: Option<&str>) -> (r: bool)
    ensures
        r == keeps_alive(readable(xml)),
{
    match xml {
        Some(x) => read_switch(x, KEEP_ALIVE, true),
        None => true,
    }
}

/// Whether the service starts at login; `None` stands for a definition that cannot be read.
pub fn read_run_at_load(xml: Option<&str>) -> (r: bool)
    ensures
        r == runs_at_load(readable(xml)),
{
    match xml {
        Some(x) => read_switch(x, RUN_AT_LOAD, false),
        None => false,
    }
}

// ---- switching off ----

/// The text `xml` with the tag after the restart key replaced by `<false/>`, or why it has no
/// such tag.
pub open spec fn without_keepalive(xml: Seq<char>) -> Result<Seq<char>, Seq<char>> {
    match find(xml, KEEP_ALIVE@) {
        None => Err("plist 缺少 KeepAlive 字段"@),
        Some(pos) => {
            let end = pos + KEEP_ALIVE@.len();
            let rest = xml.skip(end);
            match find(rest, seq!['<']) {
                None => Err("plist KeepAlive 值缺失"@),
                Some(open) => match find(rest.skip(open), seq!['>']) {
                    None => Err("plist KeepAlive 值格式异常"@),
                    Some(close) => Ok(
                        xml.take(end) + "<false/>"@ + rest.skip(open + close + 1),
                    ),
                },
            }
        },
    }
}

fn next_char(s: &Vec<char>, from: usize, c: char) -> (r: Option<usize>)
    requires
        from <= s@.len(),
    ensures
        r is Some <==> find(s@.skip(from as int), seq![c]) is Some,
        r is Some ==> from <= r->0 < s@.len() && r->0 - from == find(
            s@.skip(from as int),
            seq![c],
        )->0,
{
    let ghost t = s@.skip(from as int);
    let n: usize = s.len();
    let mut i: usize = from;
    while i < n
        invariant
            from <= i <= n == s@.len(),
            t == s@.skip(from as int),
            find(t, seq![c]) == find_from(t, seq![c], i - from),
        decreases n - i,
    {
        assert(t.subrange(i - from, i - from + 1) == seq![s@[i as int]]);
        if s[i] == c {
            assert(occurs_at(t, seq![c], i - from));
            return Some(i);
        }
        assert(!occurs_at(t, seq![c], i - from)) by {
            assert(seq![s@[i as int]][0] != seq![c][0]);
        }
        i = i + 1;
    }
    None
}

/// The definition with the restart switch turned off: the tag after the restart key replaced
/// by `<false/>`, everything else as it was.
pub fn keepalive_off(xml: &str) -> (r: Result<String, String>)
    ensures
        r is Ok <==> without_keepalive(xml@) is Ok,
        r is Ok ==> r->Ok_0@ == without_keepalive(xml@)->Ok_0,
        r is Err ==> r->Err_0@ == without_keepalive(xml@)->Err_0,
{
    let c = chars_of(xml);
    let k = chars_of(KEEP_ALIVE);
    let n: usize = c.len();
    match position(&c, &k) {
        None => Err("plist 缺少 KeepAlive 字段".to_string()),
        Some(pos) => {
            let end: usize = pos + k.len();
            match next_char(&c, end, '<') {
                None => Err("plist KeepAlive 值缺失".to_string()),
                Some(open) => {
                    assert(xml@.skip(end as int).skip(open - end) == xml@.skip(open as int));
                    match next_char(&c, open, '>') {
                        None => Err("plist KeepAlive 值格式异常".to_string()),
                        Some(close) => {
                            let mut r = text_of(&c, 0, end);
                            r.append("<false/>");
                            r.append(text_of(&c, close + 1, n).as_str());
                            assert(c@.subrange(0, end as int) == xml@.take(end as int));
                            assert(c@.subrange(close + 1, c@.len() as int) == xml@.skip(
                                end as int,
                            ).skip(close - end + 1));
                            Ok(r)
                        },
                    }
                },
            }
        },
    }
}

} // verus!

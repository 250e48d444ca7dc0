//! What the property list promises: its switches read back as they were written, and turning
//! the restart switch off leaves the rest alone.

use vstd::prelude::*;

use crate::plist::argument_line;
use crate::plist::entity;
use crate::plist::escaped;
use crate::plist::keeps_alive;
use crate::plist::plist;
use crate::plist::runs_at_load;
use crate::plist::sets_environment;
use crate::plist::switch;
use crate::plist::variable_lines;
use crate::plist::without_keepalive;
use crate::plist::ENVIRONMENT;
use crate::plist::KEEP_ALIVE;
use crate::plist::LAUNCHD_LABEL;
use crate::plist::RUN_AT_LOAD;
use crate::search::service_variables;
use crate::text::contains;
use crate::text::find;
use crate::text::join;
use crate::text::lemma_find_from;
use crate::text::lemma_find_is;
use crate::text::occurs_at;
use crate::text::trim_start;
use crate::text::truth;
use crate::text::white_space;

verus! {

// ---- escaping ----

/// An escaped text holds no angle bracket.
pub proof fn law_escaped_has_no_markup(s: Seq<char>)
    ensures
        forall|i: int|
            0 <= i < escaped(s).len() ==> #[trigger] escaped(s)[i] != '<' && escaped(s)[i] != '>',
    decreases s.len(),
{
    if s.len() > 0 {
        law_escaped_has_no_markup(s.drop_last());
        reveal_strlit("&amp;");
        reveal_strlit("&lt;");
        reveal_strlit("&gt;");
        let a = escaped(s.drop_last());
        let b = entity(s.last());
        assert forall|i: int| 0 <= i < (a + b).len() implies #[trigger] (a + b)[i] != '<' && (a
            + b)[i] != '>' by {
            if i < a.len() {
                assert((a + b)[i] == a[i]);
            } else {
                assert((a + b)[i] == b[i - a.len()]);
            }
        }
    }
}

proof fn lemma_escaped_first(s: Seq<char>)
    requires
        s.len() > 0,
    ensures
        escaped(s) == entity(s[0]) + escaped(s.drop_first()),
    decreases s.len(),
{
    if s.len() == 1 {
        assert(s.drop_last().len() == 0);
        assert(s.drop_first().len() == 0);
        assert(escaped(s.drop_last()) == Seq::<char>::empty());
        assert(escaped(s.drop_first()) == Seq::<char>::empty());
        assert(escaped(s) == entity(s[0]));
    } else {
        lemma_escaped_first(s.drop_last());
        assert(s.drop_last().drop_first() == s.drop_first().drop_last());
        assert(escaped(s) == entity(s[0]) + escaped(s.drop_first()));
    }
}

/// Different texts have different escaped forms.
pub proof fn law_escaped_is_injective(s: Seq<char>, t: Seq<char>)
    requires
        escaped(s) == escaped(t),
    ensures
        s == t,
    decreases s.len(),
{
    reveal_strlit("&amp;");
    reveal_strlit("&lt;");
    reveal_strlit("&gt;");
    if s.len() > 0 {
        lemma_escaped_first(s);
    }
    if t.len() > 0 {
        lemma_escaped_first(t);
    }
    assert(s.len() > 0 ==> escaped(s).len() > 0);
    assert(t.len() > 0 ==> escaped(t).len() > 0);
    if s.len() == 0 || t.len() == 0 {
        assert(s == t);
    } else {
        let x = entity(s[0]);
        let y = entity(t[0]);
        let w = escaped(s);
        assert(w[0] == x[0] && w[0] == y[0]);
        if x.len() > 1 && y.len() > 1 {
            assert(w[1] == x[1] && w[1] == y[1]);
        }
        assert(s[0] == t[0]);
        assert(escaped(s.drop_first()) == w.skip(x.len() as int));
        assert(escaped(t.drop_first()) == w.skip(x.len() as int));
        law_escaped_is_injective(s.drop_first(), t.drop_first());
        assert(s == seq![s[0]] + s.drop_first());
        assert(t == seq![t[0]] + t.drop_first());
    }
}

/// The text that a reader of XML takes the contents of an element for: `&amp;`, `&lt;` and `&gt;`
/// stand for the characters that they name, every other character stands for itself, and no other
/// entity and no tag can occur.
pub open spec fn read_as(s: Seq<char>) -> Option<Seq<char>>
    decreases s.len(),
{
    if s.len() == 0 {
        Some(Seq::empty())
    } else if s[0] == '&' {
        if seq!['&', 'a', 'm', 'p', ';'].is_prefix_of(s) {
            preceded('&', read_as(s.skip(5)))
        } else if seq!['&', 'l', 't', ';'].is_prefix_of(s) {
            preceded('<', read_as(s.skip(4)))
        } else if seq!['&', 'g', 't', ';'].is_prefix_of(s) {
            preceded('>', read_as(s.skip(4)))
        } else {
            None
        }
    } else if s[0] == '<' {
        None
    } else {
        preceded(s[0], read_as(s.skip(1)))
    }
}

/// A character and the text behind it, where there is one.
pub open spec fn preceded(c: char, rest: Option<Seq<char>>) -> Option<Seq<char>> {
    match rest {
        Some(t) => Some(seq![c] + t),
        None => None,
    }
}

/// An escaped text is read as the text itself.
pub proof fn law_escaped_reads_back(s: Seq<char>)
    ensures
        read_as(escaped(s)) == Some(s),
    decreases s.len(),
{
    if s.len() == 0 {
        assert(s =~= Seq::empty());
    } else {
        reveal_strlit("&amp;");
        reveal_strlit("&lt;");
        reveal_strlit("&gt;");
        lemma_escaped_first(s);
        law_escaped_reads_back(s.drop_first());
        let e = entity(s[0]);
        let t = escaped(s.drop_first());
        let w = escaped(s);
        assert(w == e + t);
        assert(w.skip(e.len() as int) =~= t);
        let amp = seq!['&', 'a', 'm', 'p', ';'];
        let lt = seq!['&', 'l', 't', ';'];
        let gt = seq!['&', 'g', 't', ';'];
        if s[0] == '&' {
            assert(e =~= amp);
            assert(w.take(5) =~= amp);
        } else if s[0] == '<' {
            assert(e =~= lt);
            assert(w.take(4) =~= lt);
            assert(w[1] == 'l');
            assert(!amp.is_prefix_of(w)) by {
                if amp.is_prefix_of(w) {
                    assert(w[1] == amp[1]);
                }
            }
        } else if s[0] == '>' {
            assert(e =~= gt);
            assert(w.take(4) =~= gt);
            assert(w[1] == 'g');
            assert(!amp.is_prefix_of(w)) by {
                if amp.is_prefix_of(w) {
                    assert(w[1] == amp[1]);
                }
            }
            assert(!lt.is_prefix_of(w)) by {
                if lt.is_prefix_of(w) {
                    assert(w[1] == lt[1]);
                }
            }
        } else {
            assert(e =~= seq![s[0]]);
        }
        assert(seq![s[0]] + s.drop_first() =~= s);
    }
}

/// A text without the characters that mean something to XML is its own escaped form.
pub proof fn law_plain_text_is_not_escaped(s: Seq<char>)
    requires
        !s.contains('&'),
        !s.contains('<'),
        !s.contains('>'),
    ensures
        escaped(s) == s,
    decreases s.len(),
{
    if s.len() == 0 {
        assert(s =~= Seq::empty());
    } else {
        let d = s.drop_last();
        assert(forall|i: int| 0 <= i < d.len() ==> #[trigger] d[i] == s[i]);
        assert(s[s.len() - 1] == s.last());
        law_plain_text_is_not_escaped(d);
        assert(d + seq![s.last()] =~= s);
    }
}

// ---- where a key cannot begin ----

spec fn differs_at(s: Seq<char>, key: Seq<char>, p: int) -> bool {
    exists|k: int| 0 <= k < key.len() && p + k < s.len() && #[trigger] s[p + k] != key[k]
}

/// No occurrence of `key` begins inside `s`, whatever follows `s`.
spec fn free_of(s: Seq<char>, key: Seq<char>) -> bool {
    forall|p: int| 0 <= p < s.len() ==> #[trigger] differs_at(s, key, p)
}

/// The keys of the property list.
pub open spec fn is_key(key: Seq<char>) -> bool {
    ||| key == "<key>Label</key>"@
    ||| key == "<key>ProgramArguments</key>"@
    ||| key == ENVIRONMENT@
    ||| key == KEEP_ALIVE@
    ||| key == RUN_AT_LOAD@
    ||| key == "<key>StandardOutPath</key>"@
    ||| key == "<key>StandardErrorPath</key>"@
}

spec fn is_switch(key: Seq<char>) -> bool {
    ||| key == KEEP_ALIVE@
    ||| key == RUN_AT_LOAD@
}

proof fn lemma_key(key: Seq<char>)
    requires
        is_key(key),
    ensures
        key.len() >= 16,
        key[0] == '<',
        key[1] == 'k',
        key == "<key>Label</key>"@ ==> key[5] == 'L',
        key == "<key>ProgramArguments</key>"@ ==> key[5] == 'P' && key[6] == 'r',
        key == ENVIRONMENT@ ==> key[5] == 'E',
        key == KEEP_ALIVE@ ==> key[5] == 'K',
        key == RUN_AT_LOAD@ ==> key[5] == 'R',
        key == "<key>StandardOutPath</key>"@ ==> key[5] == 'S' && key[13] == 'O',
        key == "<key>StandardErrorPath</key>"@ ==> key[5] == 'S' && key[13] == 'E',
{
    reveal_strlit("<key>Label</key>");
    reveal_strlit("<key>ProgramArguments</key>");
    reveal_strlit("<key>EnvironmentVariables</key>");
    reveal_strlit("<key>KeepAlive</key>");
    reveal_strlit("<key>RunAtLoad</key>");
    reveal_strlit("<key>StandardOutPath</key>");
    reveal_strlit("<key>StandardErrorPath</key>");
}

proof fn lemma_differs(s: Seq<char>, key: Seq<char>, p: int, k: int)
    requires
        0 <= p,
        0 <= k < key.len(),
        p + k < s.len(),
        s[p + k] != key[k],
    ensures
        differs_at(s, key, p),
{
}

/// Whether the tag at `p` shows within its first letters that it is not `key`.
spec fn other_tag(s: Seq<char>, key: Seq<char>, p: int) -> bool {
    ||| p + 1 < s.len() && s[p + 1] != 'k'
    ||| p + 5 < s.len() && s[p + 5] != key[5]
    ||| p + 6 < s.len() && s[p + 6] != key[6]
    ||| p + 13 < s.len() && s[p + 13] != key[13]
}

proof fn lemma_other_tag(s: Seq<char>, key: Seq<char>, p: int)
    requires
        is_key(key),
        0 <= p < s.len(),
        s[p] == '<' ==> other_tag(s, key, p),
    ensures
        differs_at(s, key, p),
{
    lemma_key(key);
    if s[p] != '<' {
        lemma_differs(s, key, p, 0);
    } else if p + 1 < s.len() && s[p + 1] != 'k' {
        lemma_differs(s, key, p, 1);
    } else if p + 5 < s.len() && s[p + 5] != key[5] {
        lemma_differs(s, key, p, 5);
    } else if p + 6 < s.len() && s[p + 6] != key[6] {
        lemma_differs(s, key, p, 6);
    } else {
        lemma_differs(s, key, p, 13);
    }
}

/// A text is free of a key where each tag in it shows a difference within its first letters.
proof fn lemma_free(s: Seq<char>, key: Seq<char>)
    requires
        is_key(key),
        forall|p: int| 0 <= p < s.len() && #[trigger] s[p] == '<' ==> other_tag(s, key, p),
    ensures
        free_of(s, key),
{
    assert forall|p: int| 0 <= p < s.len() implies #[trigger] differs_at(s, key, p) by {
        lemma_other_tag(s, key, p);
    }
}

proof fn lemma_free_concat(a: Seq<char>, b: Seq<char>, key: Seq<char>)
    requires
        free_of(a, key),
        free_of(b, key),
    ensures
        free_of(a + b, key),
{
    assert forall|p: int| 0 <= p < (a + b).len() implies #[trigger] differs_at(
        a + b,
        key,
        p,
    ) by {
        if p < a.len() {
            assert(differs_at(a, key, p));
            let k = choose|k: int|
                0 <= k < key.len() && p + k < a.len() && #[trigger] a[p + k] != key[k];
            lemma_differs(a + b, key, p, k);
        } else {
            let q = p - a.len();
            assert(differs_at(b, key, q));
            let k = choose|k: int|
                0 <= k < key.len() && q + k < b.len() && #[trigger] b[q + k] != key[k];
            assert((a + b)[p + k] == b[q + k]);
            lemma_differs(a + b, key, p, k);
        }
    }
}

proof fn lemma_escaped_free(s: Seq<char>, key: Seq<char>)
    requires
        is_key(key),
    ensures
        free_of(escaped(s), key),
{
    law_escaped_has_no_markup(s);
    lemma_free(escaped(s), key);
}

/// Behind a text that is free of it, a key is found where it stands.
proof fn lemma_found_behind(a: Seq<char>, key: Seq<char>, b: Seq<char>)
    requires
        free_of(a, key),
    ensures
        find(a + key + b, key) == Some(a.len() as int),
{
    let s = a + key + b;
    let n = a.len() as int;
    assert(s.subrange(n, n + key.len()) == key);
    assert(occurs_at(s, key, n));
    assert forall|j: int| 0 <= j < n implies !occurs_at(s, key, j) by {
        assert(differs_at(a, key, j));
        let k = choose|k: int|
            0 <= k < key.len() && j + k < a.len() && #[trigger] a[j + k] != key[k];
        if occurs_at(s, key, j) {
            assert(s.subrange(j, j + key.len())[k] == s[j + k]);
            assert(s[j + k] == a[j + k]);
        }
    }
    lemma_find_is(s, key, n);
}

// ---- the parts of the property list ----

proof fn lemma_arguments_free(program: Seq<Seq<char>>, key: Seq<char>)
    requires
        is_key(key),
    ensures
        free_of(join(program.map_values(|a: Seq<char>| argument_line(a)), "\n"@), key),
    decreases program.len(),
{
    let list = program.map_values(|a: Seq<char>| argument_line(a));
    lemma_key(key);
    reveal_strlit("\n");
    reveal_strlit("    <string>");
    reveal_strlit("</string>");
    if program.len() > 0 {
        let a = program.last();
        lemma_free("    <string>"@, key);
        lemma_escaped_free(a, key);
        lemma_free("</string>"@, key);
        lemma_free_concat("    <string>"@, escaped(a), key);
        lemma_free_concat("    <string>"@ + escaped(a), "</string>"@, key);
        assert(list.last() == argument_line(a));
        if program.len() > 1 {
            lemma_arguments_free(program.drop_last(), key);
            assert(program.drop_last().map_values(|a: Seq<char>| argument_line(a))
                == list.drop_last());
            lemma_free("\n"@, key);
            lemma_free_concat(join(list.drop_last(), "\n"@), "\n"@, key);
            lemma_free_concat(join(list.drop_last(), "\n"@) + "\n"@, list.last(), key);
        }
    }
}

proof fn lemma_variable_free(name: Seq<char>, value: Seq<char>, key: Seq<char>)
    requires
        is_key(key),
        name == "PATH"@ || name == "TERM"@,
    ensures
        free_of(variable_lines((name, value)), key),
{
    lemma_key(key);
    reveal_strlit("PATH");
    reveal_strlit("TERM");
    reveal_strlit("    <key>");
    reveal_strlit("</key>\n    <string>");
    reveal_strlit("</string>");
    lemma_escaped_first(name);
    assert(escaped(name)[0] == name[0]);
    law_escaped_has_no_markup(name);
    assert(escaped(name).len() > 0);
    let a = "    <key>"@ + escaped(name);
    reveal_with_fuel(escaped, 5);
    assert(escaped(name) == name) by {
        assert(name.drop_last().drop_last().drop_last().drop_last().len() == 0);
        assert(escaped(name) =~= name);
    }
    assert forall|p: int| 0 <= p < a.len() && #[trigger] a[p] == '<' implies other_tag(
        a,
        key,
        p,
    ) by {
        if p >= 9 {
            assert(a[p] == escaped(name)[p - 9]);
        }
        assert(p == 4);
        assert(a[9] == name[0]);
        assert(a[10] == name[1]);
    }
    lemma_free(a, key);
    lemma_free("</key>\n    <string>"@, key);
    lemma_free_concat(a, "</key>\n    <string>"@, key);
    lemma_escaped_free(value, key);
    lemma_free_concat(a + "</key>\n    <string>"@, escaped(value), key);
    lemma_free("</string>"@, key);
    lemma_free_concat(a + "</key>\n    <string>"@ + escaped(value), "</string>"@, key);
}

proof fn lemma_environment_free(path: Seq<char>, key: Seq<char>)
    requires
        is_key(key),
    ensures
        free_of(
            join(
                service_variables(path).map_values(
                    |v: (Seq<char>, Seq<char>)| variable_lines(v),
                ),
                "\n"@,
            ),
            key,
        ),
{
    let list = service_variables(path).map_values(|v: (Seq<char>, Seq<char>)| variable_lines(v));
    let a = variable_lines(("PATH"@, path));
    let b = variable_lines(("TERM"@, "dumb"@));
    assert(list == seq![a, b]);
    assert(list.drop_last() == seq![a]);
    assert(join(seq![a], "\n"@) == a);
    assert(join(list, "\n"@) == a + "\n"@ + b);
    lemma_variable_free("PATH"@, path, key);
    lemma_variable_free("TERM"@, "dumb"@, key);
    lemma_key(key);
    reveal_strlit("\n");
    lemma_free("\n"@, key);
    lemma_free_concat(a, "\n"@, key);
    lemma_free_concat(a + "\n"@, b, key);
}

/// What stands in front of the environment.
spec fn front(program: Seq<Seq<char>>) -> Seq<char> {
    "<?xml version=\"1.0\" encoding=\"UTF-8\"?>\n"@
        + "<!DOCTYPE plist PUBLIC \"-//Apple//DTD PLIST 1.0//EN\" \"http://www.apple.com/DTDs/PropertyList-1.0.dtd\">\n"@
        + "<plist version=\"1.0\">\n<dict>\n  <key>Label</key>\n  <string>"@ + LAUNCHD_LABEL@
        + "</string>\n  <key>ProgramArguments</key>\n  <array>\n"@ + join(
        program.map_values(|a: Seq<char>| argument_line(a)),
        "\n"@,
    )
}

proof fn lemma_front_free(program: Seq<Seq<char>>, key: Seq<char>)
    requires
        is_switch(key),
    ensures
        free_of(front(program), key),
{
    lemma_key(key);
    let a = "<?xml version=\"1.0\" encoding=\"UTF-8\"?>\n"@;
    let b = "<!DOCTYPE plist PUBLIC \"-//Apple//DTD PLIST 1.0//EN\" \"http://www.apple.com/DTDs/PropertyList-1.0.dtd\">\n"@;
    let c = "<plist version=\"1.0\">\n<dict>\n  <key>Label</key>\n  <string>"@;
    let d = LAUNCHD_LABEL@;
    let e = "</string>\n  <key>ProgramArguments</key>\n  <array>\n"@;
    let f = join(program.map_values(|a: Seq<char>| argument_line(a)), "\n"@);
    assert(free_of(a, key)) by {
        reveal_strlit("<?xml version=\"1.0\" encoding=\"UTF-8\"?>\n");
        lemma_free(a, key);
    }
    assert(free_of(b, key)) by {
        reveal_strlit(
            "<!DOCTYPE plist PUBLIC \"-//Apple//DTD PLIST 1.0//EN\" \"http://www.apple.com/DTDs/PropertyList-1.0.dtd\">\n",
        );
        lemma_free(b, key);
    }
    assert(free_of(c, key)) by {
        reveal_strlit("<plist version=\"1.0\">\n<dict>\n  <key>Label</key>\n  <string>");
        lemma_free(c, key);
    }
    assert(free_of(d, key)) by {
        reveal_strlit("com.dsh-launcher.web");
        lemma_free(d, key);
    }
    assert(free_of(e, key)) by {
        reveal_strlit("</string>\n  <key>ProgramArguments</key>\n  <array>\n");
        lemma_free(e, key);
    }
    lemma_arguments_free(program, key);
    lemma_free_concat(a, b, key);
    lemma_free_concat(a + b, c, key);
    lemma_free_concat(a + b + c, d, key);
    lemma_free_concat(a + b + c + d, e, key);
    lemma_free_concat(a + b + c + d + e, f, key);
}

/// What stands in front of the restart key.
spec fn upper(program: Seq<Seq<char>>, path: Seq<char>) -> Seq<char> {
    front(program) + "\n  </array>\n  <key>EnvironmentVariables</key>\n  <dict>\n"@ + join(
        service_variables(path).map_values(|v: (Seq<char>, Seq<char>)| variable_lines(v)),
        "\n"@,
    ) + "\n  </dict>\n  "@
}

proof fn lemma_upper_free(program: Seq<Seq<char>>, path: Seq<char>, key: Seq<char>)
    requires
        is_switch(key),
    ensures
        free_of(upper(program, path), key),
{
    lemma_key(key);
    let a = front(program);
    let b = "\n  </array>\n  <key>EnvironmentVariables</key>\n  <dict>\n"@;
    let c = join(
        service_variables(path).map_values(|v: (Seq<char>, Seq<char>)| variable_lines(v)),
        "\n"@,
    );
    let d = "\n  </dict>\n  "@;
    lemma_front_free(program, key);
    assert(free_of(b, key)) by {
        reveal_strlit("\n  </array>\n  <key>EnvironmentVariables</key>\n  <dict>\n");
        lemma_free(b, key);
    }
    lemma_environment_free(path, key);
    assert(free_of(d, key)) by {
        reveal_strlit("\n  </dict>\n  ");
        lemma_free(d, key);
    }
    lemma_free_concat(a, b, key);
    lemma_free_concat(a + b, c, key);
    lemma_free_concat(a + b + c, d, key);
}

/// What stands behind the start-at-login key.
spec fn lower(run_at_load: bool, log: Seq<char>) -> Seq<char> {
    "\n  <"@ + truth(run_at_load) + "/>\n  <key>StandardOutPath</key>\n  <string>"@ + escaped(log)
        + "</string>\n  <key>StandardErrorPath</key>\n  <string>"@ + escaped(log)
        + "</string>\n</dict>\n</plist>\n"@
}

/// The property list, cut at its two switches.
proof fn lemma_plist_parts(
    program: Seq<Seq<char>>,
    path: Seq<char>,
    run_at_load: bool,
    keep_alive: bool,
    log: Seq<char>,
)
    ensures
        plist(program, service_variables(path), run_at_load, keep_alive, log) == upper(
            program,
            path,
        ) + KEEP_ALIVE@ + ("\n  <"@ + truth(keep_alive) + "/>\n  "@) + RUN_AT_LOAD@ + lower(
            run_at_load,
            log,
        ),
{
    let a = front(program) + "\n  </array>\n  <key>EnvironmentVariables</key>\n  <dict>\n"@ + join(
        service_variables(path).map_values(|v: (Seq<char>, Seq<char>)| variable_lines(v)),
        "\n"@,
    );
    let k = truth(keep_alive);
    let r = truth(run_at_load);
    let z = "/>\n  <key>StandardOutPath</key>\n  <string>"@;
    let y = "</string>\n  <key>StandardErrorPath</key>\n  <string>"@;
    let x = "</string>\n</dict>\n</plist>\n"@;
    let e = escaped(log);
    assert("\n  </dict>\n  <key>KeepAlive</key>\n  <"@ == "\n  </dict>\n  "@ + KEEP_ALIVE@
        + "\n  <"@) by {
        reveal_strlit("\n  </dict>\n  <key>KeepAlive</key>\n  <");
        reveal_strlit("\n  </dict>\n  ");
        reveal_strlit("<key>KeepAlive</key>");
        reveal_strlit("\n  <");
    }
    assert("/>\n  <key>RunAtLoad</key>\n  <"@ == "/>\n  "@ + RUN_AT_LOAD@ + "\n  <"@) by {
        reveal_strlit("/>\n  <key>RunAtLoad</key>\n  <");
        reveal_strlit("/>\n  ");
        reveal_strlit("<key>RunAtLoad</key>");
        reveal_strlit("\n  <");
    }
    lemma_regroup(
        a,
        "\n  </dict>\n  "@,
        KEEP_ALIVE@,
        "\n  <"@,
        k,
        "/>\n  "@,
        RUN_AT_LOAD@,
        r,
        z,
        e,
        y,
        x,
    );
}

proof fn lemma_open3(a: Seq<char>, x: Seq<char>, y: Seq<char>, z: Seq<char>)
    ensures
        a + (x + y + z) == a + x + y + z,
{
    assert(a + (x + y + z) == a + x + y + z);
}

proof fn lemma_regroup(
    a: Seq<char>,
    p: Seq<char>,
    key: Seq<char>,
    q: Seq<char>,
    k: Seq<char>,
    o: Seq<char>,
    login: Seq<char>,
    r: Seq<char>,
    z: Seq<char>,
    e: Seq<char>,
    y: Seq<char>,
    x: Seq<char>,
)
    ensures
        a + (p + key + q) + k + (o + login + q) + r + z + e + y + e + x == (a + p) + key + (q + k
            + o) + login + (q + r + z + e + y + e + x),
{
    let b = a + p + key;
    lemma_open3(a, p, key, q);
    lemma_open3(b + q + k, o, login, q);
    lemma_open3(b, q, k, o);
    let w = b + (q + k + o) + login;
    lemma_open3(w, q, r, z);
    let v = q + r + z;
    lemma_open3(w, v, e, y);
    lemma_open3(w, v + e + y, e, x);
}

// ---- every key stands once ----

/// Whether `key` begins at exactly one place of `s`, whatever follows `s`, and stands there.
spec fn once(s: Seq<char>, key: Seq<char>) -> bool {
    exists|k: int| #[trigger]
        occurs_at(s, key, k) && forall|p: int|
            0 <= p < s.len() && p != k ==> #[trigger] differs_at(s, key, p)
}

/// Whether `key` begins in `s` once, where `is` says so, or not at all.
spec fn amount(s: Seq<char>, key: Seq<char>, is: bool) -> bool {
    if is {
        once(s, key)
    } else {
        free_of(s, key)
    }
}

proof fn lemma_differs_in_concat(a: Seq<char>, b: Seq<char>, key: Seq<char>)
    ensures
        forall|p: int|
            0 <= p < a.len() && #[trigger] differs_at(a, key, p) ==> differs_at(a + b, key, p),
        forall|q: int|
            0 <= q < b.len() && #[trigger] differs_at(b, key, q) ==> differs_at(
                a + b,
                key,
                a.len() + q,
            ),
{
    assert forall|p: int| 0 <= p < a.len() && #[trigger] differs_at(a, key, p) implies differs_at(
        a + b,
        key,
        p,
    ) by {
        let k = choose|k: int|
            0 <= k < key.len() && p + k < a.len() && #[trigger] a[p + k] != key[k];
        lemma_differs(a + b, key, p, k);
    }
    assert forall|q: int| 0 <= q < b.len() && #[trigger] differs_at(b, key, q) implies differs_at(
        a + b,
        key,
        a.len() + q,
    ) by {
        let k = choose|k: int|
            0 <= k < key.len() && q + k < b.len() && #[trigger] b[q + k] != key[k];
        assert((a + b)[a.len() + q + k] == b[q + k]);
        lemma_differs(a + b, key, a.len() + q, k);
    }
}

proof fn lemma_amount_concat(a: Seq<char>, x: bool, b: Seq<char>, y: bool, key: Seq<char>)
    requires
        amount(a, key, x),
        amount(b, key, y),
        !(x && y),
        key.len() > 0,
    ensures
        amount(a + b, key, x || y),
{
    let s = a + b;
    let n = a.len() as int;
    lemma_differs_in_concat(a, b, key);
    if x {
        let k = choose|k: int| #[trigger]
            occurs_at(a, key, k) && forall|p: int|
                0 <= p < a.len() && p != k ==> #[trigger] differs_at(a, key, p);
        assert(s.subrange(k, k + key.len()) == a.subrange(k, k + key.len()));
        assert(occurs_at(s, key, k));
        assert forall|p: int| 0 <= p < s.len() && p != k implies #[trigger] differs_at(
            s,
            key,
            p,
        ) by {
            if p < n {
                assert(differs_at(a, key, p));
            } else {
                assert(differs_at(b, key, p - n));
            }
        }
    } else if y {
        let k = choose|k: int| #[trigger]
            occurs_at(b, key, k) && forall|p: int|
                0 <= p < b.len() && p != k ==> #[trigger] differs_at(b, key, p);
        assert(s.subrange(n + k, n + k + key.len()) == b.subrange(k, k + key.len()));
        assert(occurs_at(s, key, n + k));
        assert forall|p: int| 0 <= p < s.len() && p != n + k implies #[trigger] differs_at(
            s,
            key,
            p,
        ) by {
            if p < n {
                assert(differs_at(a, key, p));
            } else {
                assert(differs_at(b, key, p - n));
            }
        }
    } else {
        lemma_free_concat(a, b, key);
    }
}

/// A text that holds the key `own` at `at` and other tags besides.
proof fn lemma_key_piece(s: Seq<char>, key: Seq<char>, own: Seq<char>, at: int)
    requires
        is_key(key),
        is_key(own),
        occurs_at(s, own, at),
        forall|p: int|
            0 <= p < s.len() && p != at && #[trigger] s[p] == '<' ==> other_tag(s, key, p),
    ensures
        amount(s, key, key == own),
{
    lemma_key(key);
    lemma_key(own);
    assert forall|i: int| 0 <= i < own.len() implies s[at + i] == #[trigger] own[i] by {
        assert(s.subrange(at, at + own.len())[i] == s[at + i]);
    }
    assert(s[at + 5] == own[5] && s[at + 6] == own[6] && s[at + 13] == own[13]);
    assert forall|p: int| 0 <= p < s.len() && (key != own || p != at) implies #[trigger] differs_at(
        s,
        key,
        p,
    ) by {
        lemma_other_tag(s, key, p);
    }
}

/// A piece of the property list that ends in front of a switch's value, with that value.
proof fn lemma_switch_piece(head: Seq<char>, value: bool, key: Seq<char>, own: Seq<char>, at: int)
    requires
        is_key(key),
        is_key(own),
        head.len() > 0,
        head.last() == '<',
        at + own.len() < head.len(),
        occurs_at(head, own, at),
        forall|p: int|
            0 <= p < head.len() - 1 && p != at && #[trigger] head[p] == '<' ==> p + 1 < head.len()
                && head[p + 1] != 'k',
    ensures
        amount(head + truth(value), key, key == own),
{
    reveal_strlit("true");
    reveal_strlit("false");
    let s = head + truth(value);
    assert(s.subrange(at, at + own.len()) == head.subrange(at, at + own.len()));
    assert forall|p: int| 0 <= p < s.len() && p != at && #[trigger] s[p] == '<' implies other_tag(
        s,
        key,
        p,
    ) by {
        if p < head.len() - 1 {
            assert(s[p] == head[p]);
            assert(s[p + 1] == head[p + 1]);
        } else if p == head.len() - 1 {
            assert(s[p + 1] == truth(value)[0]);
        } else {
            assert(s[p] == truth(value)[p - head.len()]);
        }
    }
    lemma_key_piece(s, key, own, at);
}

/// What stands in front of the restart switch holds each of the first three keys once.
proof fn lemma_first_keys(program: Seq<Seq<char>>, path: Seq<char>, key: Seq<char>)
    requires
        is_key(key),
    ensures
        amount(
            front(program) + "\n  </array>\n  <key>EnvironmentVariables</key>\n  <dict>\n"@ + join(
                service_variables(path).map_values(
                    |v: (Seq<char>, Seq<char>)| variable_lines(v),
                ),
                "\n"@,
            ),
            key,
            key == "<key>Label</key>"@ || key == "<key>ProgramArguments</key>"@ || key
                == ENVIRONMENT@,
        ),
{
    lemma_key(key);
    let a = "<?xml version=\"1.0\" encoding=\"UTF-8\"?>\n"@;
    let b = "<!DOCTYPE plist PUBLIC \"-//Apple//DTD PLIST 1.0//EN\" \"http://www.apple.com/DTDs/PropertyList-1.0.dtd\">\n"@;
    let c = "<plist version=\"1.0\">\n<dict>\n  <key>Label</key>\n  <string>"@;
    let d = LAUNCHD_LABEL@;
    let e = "</string>\n  <key>ProgramArguments</key>\n  <array>\n"@;
    let f = join(program.map_values(|a: Seq<char>| argument_line(a)), "\n"@);
    let g = "\n  </array>\n  <key>EnvironmentVariables</key>\n  <dict>\n"@;
    let h = join(
        service_variables(path).map_values(|v: (Seq<char>, Seq<char>)| variable_lines(v)),
        "\n"@,
    );
    let label = "<key>Label</key>"@;
    let arguments = "<key>ProgramArguments</key>"@;
    assert(free_of(a, key)) by {
        reveal_strlit("<?xml version=\"1.0\" encoding=\"UTF-8\"?>\n");
        lemma_free(a, key);
    }
    assert(free_of(b, key)) by {
        reveal_strlit(
            "<!DOCTYPE plist PUBLIC \"-//Apple//DTD PLIST 1.0//EN\" \"http://www.apple.com/DTDs/PropertyList-1.0.dtd\">\n",
        );
        lemma_free(b, key);
    }
    assert(amount(c, key, key == label)) by {
        reveal_strlit("<plist version=\"1.0\">\n<dict>\n  <key>Label</key>\n  <string>");
        reveal_strlit("<key>Label</key>");
        assert(c.subrange(31, 47) == label);
        lemma_key_piece(c, key, label, 31);
    }
    assert(free_of(d, key)) by {
        reveal_strlit("com.dsh-launcher.web");
        lemma_free(d, key);
    }
    assert(amount(e, key, key == arguments)) by {
        reveal_strlit("</string>\n  <key>ProgramArguments</key>\n  <array>\n");
        reveal_strlit("<key>ProgramArguments</key>");
        assert(e.subrange(12, 39) == arguments);
        lemma_key_piece(e, key, arguments, 12);
    }
    lemma_arguments_free(program, key);
    assert(amount(g, key, key == ENVIRONMENT@)) by {
        reveal_strlit("\n  </array>\n  <key>EnvironmentVariables</key>\n  <dict>\n");
        reveal_strlit("<key>EnvironmentVariables</key>");
        assert(g.subrange(14, 45) == ENVIRONMENT@);
        lemma_key_piece(g, key, ENVIRONMENT@, 14);
    }
    lemma_environment_free(path, key);
    let x = key == label;
    let y = x || key == arguments;
    lemma_keys_differ();
    lemma_amount_concat(a, false, b, false, key);
    lemma_amount_concat(a + b, false, c, x, key);
    lemma_amount_concat(a + b + c, x, d, false, key);
    lemma_amount_concat(a + b + c + d, x, e, key == arguments, key);
    lemma_amount_concat(a + b + c + d + e, y, f, false, key);
    lemma_amount_concat(a + b + c + d + e + f, y, g, key == ENVIRONMENT@, key);
    lemma_amount_concat(a + b + c + d + e + f + g, y || key == ENVIRONMENT@, h, false, key);
}

proof fn lemma_keys_differ()
    ensures
        "<key>Label</key>"@ != "<key>ProgramArguments</key>"@,
        "<key>Label</key>"@ != ENVIRONMENT@,
        "<key>ProgramArguments</key>"@ != ENVIRONMENT@,
        forall|k: Seq<char>|
            #![trigger is_switch(k)]
            is_switch(k) ==> k != "<key>Label</key>"@ && k != "<key>ProgramArguments</key>"@ && k
                != ENVIRONMENT@ && k != "<key>StandardOutPath</key>"@ && k
                != "<key>StandardErrorPath</key>"@,
        KEEP_ALIVE@ != RUN_AT_LOAD@,
        "<key>StandardOutPath</key>"@ != "<key>StandardErrorPath</key>"@,
        forall|k: Seq<char>|
            #![trigger is_key(k)]
            (k == "<key>StandardOutPath</key>"@ || k == "<key>StandardErrorPath</key>"@) ==> k
                != "<key>Label</key>"@ && k != "<key>ProgramArguments</key>"@ && k != ENVIRONMENT@,
{
    lemma_key("<key>Label</key>"@);
    lemma_key("<key>ProgramArguments</key>"@);
    lemma_key(ENVIRONMENT@);
    lemma_key(KEEP_ALIVE@);
    lemma_key(RUN_AT_LOAD@);
    lemma_key("<key>StandardOutPath</key>"@);
    lemma_key("<key>StandardErrorPath</key>"@);
}

/// Every key of the property list stands in it exactly once, whatever the command line, the
/// search path and the log file are.
pub proof fn law_every_key_stands_once(
    program: Seq<Seq<char>>,
    path: Seq<char>,
    run_at_load: bool,
    keep_alive: bool,
    log: Seq<char>,
    key: Seq<char>,
)
    requires
        is_key(key),
    ensures
        ({
            let s = plist(program, service_variables(path), run_at_load, keep_alive, log);
            exists|i: int| #[trigger]
                occurs_at(s, key, i) && forall|j: int| #[trigger] occurs_at(s, key, j) ==> j == i
        }),
{
    let s = plist(program, service_variables(path), run_at_load, keep_alive, log);
    let a = front(program) + "\n  </array>\n  <key>EnvironmentVariables</key>\n  <dict>\n"@ + join(
        service_variables(path).map_values(|v: (Seq<char>, Seq<char>)| variable_lines(v)),
        "\n"@,
    );
    let b = "\n  </dict>\n  <key>KeepAlive</key>\n  <"@;
    let k = truth(keep_alive);
    let c = "/>\n  <key>RunAtLoad</key>\n  <"@;
    let r = truth(run_at_load);
    let d = "/>\n  <key>StandardOutPath</key>\n  <string>"@;
    let e = escaped(log);
    let f = "</string>\n  <key>StandardErrorPath</key>\n  <string>"@;
    let g = "</string>\n</dict>\n</plist>\n"@;
    let out = "<key>StandardOutPath</key>"@;
    let err = "<key>StandardErrorPath</key>"@;
    lemma_key(key);
    lemma_keys_differ();
    lemma_first_keys(program, path, key);
    assert(amount(b + k, key, key == KEEP_ALIVE@)) by {
        reveal_strlit("\n  </dict>\n  <key>KeepAlive</key>\n  <");
        reveal_strlit("<key>KeepAlive</key>");
        assert(b.subrange(13, 33) == KEEP_ALIVE@);
        lemma_switch_piece(b, keep_alive, key, KEEP_ALIVE@, 13);
    }
    assert(amount(c + r, key, key == RUN_AT_LOAD@)) by {
        reveal_strlit("/>\n  <key>RunAtLoad</key>\n  <");
        reveal_strlit("<key>RunAtLoad</key>");
        assert(c.subrange(5, 25) == RUN_AT_LOAD@);
        lemma_switch_piece(c, run_at_load, key, RUN_AT_LOAD@, 5);
    }
    assert(amount(d, key, key == out)) by {
        reveal_strlit("/>\n  <key>StandardOutPath</key>\n  <string>");
        reveal_strlit("<key>StandardOutPath</key>");
        assert(d.subrange(5, 31) == out);
        lemma_key_piece(d, key, out, 5);
    }
    lemma_escaped_free(log, key);
    assert(amount(f, key, key == err)) by {
        reveal_strlit("</string>\n  <key>StandardErrorPath</key>\n  <string>");
        reveal_strlit("<key>StandardErrorPath</key>");
        assert(f.subrange(12, 40) == err);
        lemma_key_piece(f, key, err, 12);
    }
    assert(free_of(g, key)) by {
        reveal_strlit("</string>\n</dict>\n</plist>\n");
        lemma_free(g, key);
    }
    let x0 = key == "<key>Label</key>"@ || key == "<key>ProgramArguments</key>"@ || key
        == ENVIRONMENT@;
    assert(is_switch(KEEP_ALIVE@) && is_switch(RUN_AT_LOAD@));
    let x1 = x0 || key == KEEP_ALIVE@;
    let x2 = x1 || key == RUN_AT_LOAD@;
    let x3 = x2 || key == out;
    let x4 = x3 || key == err;
    lemma_amount_concat(a, x0, b + k, key == KEEP_ALIVE@, key);
    lemma_assoc(a, b, k);
    let t1 = a + b + k;
    lemma_amount_concat(t1, x1, c + r, key == RUN_AT_LOAD@, key);
    lemma_assoc(t1, c, r);
    let t2 = t1 + c + r;
    lemma_amount_concat(t2, x2, d, key == out, key);
    lemma_amount_concat(t2 + d, x3, e, false, key);
    lemma_amount_concat(t2 + d + e, x3, f, key == err, key);
    lemma_amount_concat(t2 + d + e + f, x4, e, false, key);
    lemma_amount_concat(t2 + d + e + f + e, x4, g, false, key);
    assert(s == t2 + d + e + f + e + g);
    assert(once(s, key));
    let i = choose|i: int| #[trigger]
        occurs_at(s, key, i) && forall|p: int|
            0 <= p < s.len() && p != i ==> #[trigger] differs_at(s, key, p);
    assert forall|j: int| #[trigger] occurs_at(s, key, j) implies j == i by {
        if j != i {
            assert(differs_at(s, key, j));
            let n = choose|n: int|
                0 <= n < key.len() && j + n < s.len() && #[trigger] s[j + n] != key[n];
            assert(s.subrange(j, j + key.len())[n] == s[j + n]);
        }
    }
}

/// A switch is read from what follows its key.
proof fn lemma_value(value: bool, tail: Seq<char>)
    ensures
        "<true/>"@.is_prefix_of(trim_start("\n  <"@ + truth(value) + "/>"@ + tail)) == value,
{
    reveal_strlit("\n  <");
    reveal_strlit("true");
    reveal_strlit("false");
    reveal_strlit("/>");
    reveal_strlit("<true/>");
    let s = "\n  <"@ + truth(value) + "/>"@ + tail;
    let t = "<true/>"@;
    assert(white_space(s[0]) && white_space(s[1]) && white_space(s[2]) && !white_space(s[3]));
    reveal_with_fuel(trim_start, 4);
    assert(s.drop_first().drop_first().drop_first() == s.skip(3));
    assert(trim_start(s) == s.skip(3));
    let u = s.skip(3);
    if value {
        assert(u.take(7) == t);
    } else {
        assert(u[1] == 'f');
        assert(t[1] == 't');
    }
}

/// The switches of a property list read back as they were written, and it is recognised as one
/// that sets an environment.
pub proof fn law_plist_reads_back(
    program: Seq<Seq<char>>,
    path: Seq<char>,
    run_at_load: bool,
    keep_alive: bool,
    log: Seq<char>,
)
    ensures
        keeps_alive(
            Some(plist(program, service_variables(path), run_at_load, keep_alive, log)),
        ) == keep_alive,
        runs_at_load(
            Some(plist(program, service_variables(path), run_at_load, keep_alive, log)),
        ) == run_at_load,
        sets_environment(
            Some(plist(program, service_variables(path), run_at_load, keep_alive, log)),
        ),
{
    let s = plist(program, service_variables(path), run_at_load, keep_alive, log);
    let u = upper(program, path);
    let q = "\n  <"@ + truth(keep_alive) + "/>\n  "@;
    let l = lower(run_at_load, log);
    lemma_plist_parts(program, path, run_at_load, keep_alive, log);
    lemma_upper_free(program, path, KEEP_ALIVE@);
    lemma_upper_free(program, path, RUN_AT_LOAD@);
    assert(s == u + KEEP_ALIVE@ + (q + RUN_AT_LOAD@ + l));
    lemma_found_behind(u, KEEP_ALIVE@, q + RUN_AT_LOAD@ + l);
    assert(s.skip((u.len() + KEEP_ALIVE@.len()) as int) == q + RUN_AT_LOAD@ + l);
    reveal_strlit("/>\n  ");
    reveal_strlit("/>");
    reveal_strlit("\n  ");
    assert("/>\n  "@ == "/>"@ + "\n  "@);
    assert(q + RUN_AT_LOAD@ + l == "\n  <"@ + truth(keep_alive) + "/>"@ + ("\n  "@ + RUN_AT_LOAD@
        + l));
    lemma_value(keep_alive, "\n  "@ + RUN_AT_LOAD@ + l);
    lemma_middle_free(keep_alive);
    lemma_free_concat(u, KEEP_ALIVE@ + q, RUN_AT_LOAD@);
    assert(s == (u + (KEEP_ALIVE@ + q)) + RUN_AT_LOAD@ + l);
    lemma_found_behind(u + (KEEP_ALIVE@ + q), RUN_AT_LOAD@, l);
    lemma_login_value(u + (KEEP_ALIVE@ + q), run_at_load, log);
    assert(s == u + (KEEP_ALIVE@ + (q + RUN_AT_LOAD@ + l)));
    lemma_environment_stands(program, path, KEEP_ALIVE@ + (q + RUN_AT_LOAD@ + l));
}

/// The start-at-login switch behind any text is read as it was written.
proof fn lemma_login_value(a: Seq<char>, run_at_load: bool, log: Seq<char>)
    requires
        find(a + RUN_AT_LOAD@ + lower(run_at_load, log), RUN_AT_LOAD@) == Some(a.len() as int),
    ensures
        switch(a + RUN_AT_LOAD@ + lower(run_at_load, log), RUN_AT_LOAD@, false) == run_at_load,
{
    let s = a + RUN_AT_LOAD@ + lower(run_at_load, log);
    let l = lower(run_at_load, log);
    assert(s.skip((a.len() + RUN_AT_LOAD@.len()) as int) == l);
    let z = "\n  <key>StandardOutPath</key>\n  <string>"@;
    assert("/>\n  <key>StandardOutPath</key>\n  <string>"@ == "/>"@ + z) by {
        reveal_strlit("/>\n  <key>StandardOutPath</key>\n  <string>");
        reveal_strlit("\n  <key>StandardOutPath</key>\n  <string>");
        reveal_strlit("/>");
    }
    let y = "</string>\n  <key>StandardErrorPath</key>\n  <string>"@;
    let x = "</string>\n</dict>\n</plist>\n"@;
    let e = escaped(log);
    assert(l == "\n  <"@ + truth(run_at_load) + "/>"@ + (z + e + y + e + x));
    lemma_value(run_at_load, z + e + y + e + x);
}

proof fn lemma_middle_free(keep_alive: bool)
    ensures
        free_of(
            KEEP_ALIVE@ + ("\n  <"@ + truth(keep_alive) + "/>\n  "@),
            RUN_AT_LOAD@,
        ),
{
    lemma_key(RUN_AT_LOAD@);
    reveal_strlit("<key>KeepAlive</key>");
    reveal_strlit("\n  <");
    reveal_strlit("true");
    reveal_strlit("false");
    reveal_strlit("/>\n  ");
    lemma_free(KEEP_ALIVE@ + ("\n  <"@ + truth(keep_alive) + "/>\n  "@), RUN_AT_LOAD@);
}

proof fn lemma_environment_stands(program: Seq<Seq<char>>, path: Seq<char>, tail: Seq<char>)
    ensures
        contains(upper(program, path) + tail, ENVIRONMENT@),
{
    let f = front(program);
    let a = "\n  </array>\n  "@;
    let b = "\n  <dict>\n"@;
    assert("\n  </array>\n  <key>EnvironmentVariables</key>\n  <dict>\n"@ == a + ENVIRONMENT@ + b)
        by {
        reveal_strlit("\n  </array>\n  <key>EnvironmentVariables</key>\n  <dict>\n");
        reveal_strlit("\n  </array>\n  ");
        reveal_strlit("<key>EnvironmentVariables</key>");
        reveal_strlit("\n  <dict>\n");
    }
    let s = upper(program, path) + tail;
    let i = (f.len() + a.len()) as int;
    assert(s.subrange(i, i + ENVIRONMENT@.len()) == ENVIRONMENT@);
    assert(occurs_at(s, ENVIRONMENT@, i));
}

// ---- turning the restart switch off ----

proof fn lemma_find_char(s: Seq<char>, c: char, n: int)
    requires
        0 <= n < s.len(),
        s[n] == c,
        forall|i: int| 0 <= i < n ==> s[i] != c,
    ensures
        find(s, seq![c]) == Some(n),
{
    assert(s.subrange(n, n + 1) == seq![c]);
    assert forall|j: int| 0 <= j < n implies !occurs_at(s, seq![c], j) by {
        if occurs_at(s, seq![c], j) {
            assert(s.subrange(j, j + 1)[0] == s[j]);
        }
    }
    lemma_find_is(s, seq![c], n);
}

/// The key stays the first one when what follows it changes.
proof fn lemma_key_stays(xml: Seq<char>, end: int, tail: Seq<char>)
    requires
        find(xml, KEEP_ALIVE@) is Some,
        end == find(xml, KEEP_ALIVE@)->0 + KEEP_ALIVE@.len(),
    ensures
        0 <= end <= xml.len(),
        find(xml.take(end) + tail, KEEP_ALIVE@) == find(xml, KEEP_ALIVE@),
{
    let key = KEEP_ALIVE@;
    let pos = find(xml, key)->0;
    let s = xml.take(end) + tail;
    lemma_find_from(xml, key, 0);
    assert(s.subrange(pos, pos + key.len()) == xml.subrange(pos, pos + key.len()));
    assert forall|j: int| 0 <= j < pos implies !occurs_at(s, key, j) by {
        if occurs_at(s, key, j) {
            assert(s.subrange(j, j + key.len()) == xml.subrange(j, j + key.len()));
            assert(occurs_at(xml, key, j));
        }
    }
    lemma_find_is(s, key, pos);
}

/// Once the restart switch was turned off, it reads as off, and turning it off again changes
/// nothing.
pub proof fn law_keepalive_off_stays_off(xml: Seq<char>)
    requires
        without_keepalive(xml) is Ok,
    ensures
        !keeps_alive(Some(without_keepalive(xml)->Ok_0)),
        without_keepalive(without_keepalive(xml)->Ok_0) == without_keepalive(xml),
{
    let new = without_keepalive(xml)->Ok_0;
    let end = find(xml, KEEP_ALIVE@)->0 + KEEP_ALIVE@.len();
    let rest = xml.skip(end);
    let open = find(rest, seq!['<'])->0;
    let close = find(rest.skip(open), seq!['>'])->0;
    let tail = rest.skip(open + close + 1);
    let f = "<false/>"@;
    reveal_strlit("<false/>");
    reveal_strlit("<true/>");
    assert(new == xml.take(end) + (f + tail));
    lemma_key_stays(xml, end, f + tail);
    let r = new.skip(end);
    assert(r == f + tail);
    assert(r[0] == '<');
    assert(trim_start(r) == r);
    assert(r[1] == 'f' && "<true/>"@[1] == 't');
    lemma_find_char(r, '<', 0);
    assert(r.skip(0) == r);
    lemma_find_char(r, '>', 7);
    assert(new.take(end) == xml.take(end));
    assert(r.skip(8) == tail);
}

/// What is left behind the restart key once its value is gone.
proof fn lemma_off_rest(keep_alive: bool, t: Seq<char>)
    ensures
        ({
            let rest = "\n  <"@ + truth(keep_alive) + "/>\n  "@ + t;
            let n = truth(keep_alive).len() as int + 2;
            find(rest, seq!['<']) == Some(3int) && find(rest.skip(3), seq!['>']) == Some(n)
                && rest.skip(3 + n + 1) == "\n  "@ + t
        }),
{
    let k = truth(keep_alive);
    let rest = "\n  <"@ + k + "/>\n  "@ + t;
    let n = k.len() as int + 2;
    reveal_strlit("\n  <");
    reveal_strlit("true");
    reveal_strlit("false");
    reveal_strlit("/>\n  ");
    reveal_strlit("\n  ");
    lemma_find_char(rest, '<', 3);
    let r = rest.skip(3);
    assert(r[0] == '<' && r[n] == '>');
    assert forall|i: int| 0 <= i < n implies r[i] != '>' by {
        assert(r[i] == rest[i + 3]);
    }
    lemma_find_char(r, '>', n);
    assert(rest.skip(3 + n + 1) == "\n  "@ + t);
}

/// Turning the switch off behind a text that is free of its key.
proof fn lemma_off_text(u: Seq<char>, keep_alive: bool, t: Seq<char>)
    requires
        free_of(u, KEEP_ALIVE@),
    ensures
        without_keepalive(
            u + KEEP_ALIVE@ + ("\n  <"@ + truth(keep_alive) + "/>\n  "@ + t),
        ) == Ok::<Seq<char>, Seq<char>>(u + KEEP_ALIVE@ + "<false/>"@ + ("\n  "@ + t)),
{
    let rest = "\n  <"@ + truth(keep_alive) + "/>\n  "@ + t;
    let s = u + KEEP_ALIVE@ + rest;
    lemma_found_behind(u, KEEP_ALIVE@, rest);
    let end = (u.len() + KEEP_ALIVE@.len()) as int;
    assert(s.skip(end) == rest);
    assert(s.take(end) == u + KEEP_ALIVE@);
    lemma_off_rest(keep_alive, t);
}

proof fn lemma_off_middle_free()
    ensures
        free_of(KEEP_ALIVE@ + "<false/>"@ + "\n  "@, RUN_AT_LOAD@),
{
    lemma_key(RUN_AT_LOAD@);
    reveal_strlit("<key>KeepAlive</key>");
    reveal_strlit("<false/>");
    reveal_strlit("\n  ");
    lemma_free(KEEP_ALIVE@ + "<false/>"@ + "\n  "@, RUN_AT_LOAD@);
}

proof fn lemma_assoc(a: Seq<char>, b: Seq<char>, c: Seq<char>)
    ensures
        a + b + c == a + (b + c),
{
    assert(a + b + c == a + (b + c));
}

/// In a property list as the launcher writes it, the restart switch can be turned off, and that
/// leaves the start-at-login switch and the environment as they were.
pub proof fn law_keepalive_off_keeps_the_rest(
    program: Seq<Seq<char>>,
    path: Seq<char>,
    run_at_load: bool,
    keep_alive: bool,
    log: Seq<char>,
)
    ensures
        without_keepalive(
            plist(program, service_variables(path), run_at_load, keep_alive, log),
        ) matches Ok(new) && !keeps_alive(Some(new)) && runs_at_load(Some(new)) == run_at_load
            && sets_environment(Some(new)),
{
    let s = plist(program, service_variables(path), run_at_load, keep_alive, log);
    let u = upper(program, path);
    let q = "\n  <"@ + truth(keep_alive) + "/>\n  "@;
    let l = lower(run_at_load, log);
    let t = RUN_AT_LOAD@ + l;
    let f = "<false/>"@;
    let w = "\n  "@;
    lemma_plist_parts(program, path, run_at_load, keep_alive, log);
    lemma_upper_free(program, path, KEEP_ALIVE@);
    lemma_upper_free(program, path, RUN_AT_LOAD@);
    lemma_assoc(u + KEEP_ALIVE@ + q, RUN_AT_LOAD@, l);
    lemma_assoc(u + KEEP_ALIVE@, q, t);
    lemma_off_text(u, keep_alive, t);
    let new = u + KEEP_ALIVE@ + f + (w + t);
    law_keepalive_off_stays_off(s);
    lemma_off_middle_free();
    let a = u + (KEEP_ALIVE@ + f + w);
    lemma_free_concat(u, KEEP_ALIVE@ + f + w, RUN_AT_LOAD@);
    lemma_open3(u, KEEP_ALIVE@, f, w);
    lemma_assoc(u + KEEP_ALIVE@ + f, w, t);
    lemma_assoc(a, RUN_AT_LOAD@, l);
    assert(new == a + RUN_AT_LOAD@ + l);
    lemma_found_behind(a, RUN_AT_LOAD@, l);
    lemma_login_value(a, run_at_load, log);
    lemma_open3(u, KEEP_ALIVE@, f, w + t);
    lemma_environment_stands(program, path, KEEP_ALIVE@ + f + (w + t));
}

/// Rewriting a definition with the switches read from it keeps both switches.
pub proof fn law_rewrite_keeps_switches(
    old: Option<Seq<char>>,
    program: Seq<Seq<char>>,
    path: Seq<char>,
    log: Seq<char>,
)
    ensures
        ({
            let new = plist(
                program,
                service_variables(path),
                runs_at_load(old),
                keeps_alive(old),
                log,
            );
            runs_at_load(Some(new)) == runs_at_load(old) && keeps_alive(Some(new)) == keeps_alive(
                old,
            ) && sets_environment(Some(new))
        }),
{
    law_plist_reads_back(program, path, runs_at_load(old), keeps_alive(old), log);
}

} // verus!

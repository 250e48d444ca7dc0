//! What a reader of the property list finds in it: the texts of its elements, one after the other.

use vstd::prelude::*;

use crate::command_laws::blank;
use crate::plist::argument_line;
use crate::plist::escaped;
use crate::plist::keeps_alive;
use crate::plist::plist;
use crate::plist::runs_at_load;
use crate::plist::sets_environment;
use crate::plist::switch;
use crate::plist::variable_lines;
use crate::plist::without_keepalive;
use crate::plist_laws::law_escaped_has_no_markup;
use crate::plist_laws::law_escaped_reads_back;
use crate::plist_laws::law_plain_text_is_not_escaped;
use crate::plist_laws::read_as;
use crate::text::find;
use crate::text::join;
use crate::text::lemma_find_from;
use crate::text::lemma_find_is;
use crate::text::occurs_at;
use crate::text::trim_start;
use crate::text::truth;
use crate::text::white_space;
use crate::text_laws::lemma_start_taken;

verus! {

/// The texts of the `string` elements of an XML text, in their order.
pub open spec fn strings(xml: Seq<char>) -> Seq<Option<Seq<char>>>
    decreases xml.len(),
{
    match find(xml, "<string>"@) {
        None => Seq::empty(),
        Some(i) => {
            let rest = xml.skip(i + "<string>"@.len());
            match find(rest, seq!['<']) {
                None => Seq::empty(),
                Some(j) => if 0 <= i && 0 <= j <= rest.len() && rest.len() < xml.len() {
                    seq![read_as(rest.take(j))] + strings(rest.skip(j))
                } else {
                    Seq::empty()
                },
            }
        },
    }
}

/// Whether a text holds whole elements, and the texts of its `string` elements are these.
spec fn holds(a: Seq<char>, out: Seq<Option<Seq<char>>>) -> bool {
    forall|s: Seq<char>| #[trigger] strings(a + s) == out + strings(s)
}

/// Whether no `string` element begins in a text.
spec fn no_string(a: Seq<char>) -> bool {
    forall|p: int|
        0 <= p < a.len() && #[trigger] a[p] == '<' ==> p + 1 < a.len() && a[p + 1] != 's'
}

proof fn lemma_tag()
    ensures
        "<string>"@.len() == 8,
        "<string>"@[0] == '<',
        "<string>"@[1] == 's',
        "</string>"@.len() == 9,
        "</string>"@[0] == '<',
        "</string>"@[1] == '/',
        forall|i: int| 1 < i < 9 ==> "</string>"@[i] != '<',
        no_string("</string>"@),
{
    reveal_strlit("<string>");
    reveal_strlit("</string>");
}

proof fn lemma_no_string(a: Seq<char>)
    requires
        no_string(a),
    ensures
        holds(a, Seq::empty()),
{
    let tag = "<string>"@;
    lemma_tag();
    let n = a.len() as int;
    assert forall|s: Seq<char>| #[trigger] strings(a + s) == Seq::<Option<Seq<char>>>::empty()
        + strings(s) by {
        let all = a + s;
        lemma_find_from(s, tag, 0);
        lemma_find_from(all, tag, 0);
        assert forall|j: int| 0 <= j < n implies !occurs_at(all, tag, j) by {
            if occurs_at(all, tag, j) {
                let sub = all.subrange(j, j + tag.len());
                assert(sub[0] == all[j] && sub[1] == all[j + 1]);
                assert(all[j] == a[j]);
                assert(all[j + 1] == a[j + 1]);
            }
        }
        assert forall|j: int| n <= j implies occurs_at(all, tag, j) == occurs_at(s, tag, j - n) by {
            if j + tag.len() <= all.len() {
                assert(all.subrange(j, j + tag.len()) =~= s.subrange(j - n, j - n + tag.len()));
            }
        }
        match find(s, tag) {
            Some(k) => {
                assert(occurs_at(all, tag, n + k));
                assert forall|j: int| 0 <= j < n + k implies !occurs_at(all, tag, j) by {
                    if j >= n {
                        assert(!occurs_at(s, tag, j - n));
                    }
                }
                lemma_find_is(all, tag, n + k);
                assert(all.skip(n + k + tag.len()) =~= s.skip(k + tag.len()));
            },
            None => {
                match find(all, tag) {
                    Some(k) => {
                        assert(occurs_at(all, tag, k));
                        assert(occurs_at(s, tag, k - n));
                    },
                    None => {},
                }
            },
        }
        assert(strings(all) =~= strings(s));
    }
}

proof fn lemma_holds_add(
    a: Seq<char>,
    x: Seq<Option<Seq<char>>>,
    b: Seq<char>,
    y: Seq<Option<Seq<char>>>,
)
    requires
        holds(a, x),
        holds(b, y),
    ensures
        holds(a + b, x + y),
{
    assert forall|s: Seq<char>| #[trigger] strings((a + b) + s) == (x + y) + strings(s) by {
        assert((a + b) + s =~= a + (b + s));
        assert(strings(a + (b + s)) == x + strings(b + s));
        assert(strings(b + s) == y + strings(s));
        assert(x + (y + strings(s)) =~= (x + y) + strings(s));
    }
}

/// One whole `string` element.
proof fn lemma_element(v: Seq<char>)
    ensures
        holds("<string>"@ + escaped(v) + "</string>"@, seq![Some(v)]),
{
    let tag = "<string>"@;
    let end = "</string>"@;
    let e = escaped(v);
    let a = tag + e + end;
    lemma_tag();
    law_escaped_has_no_markup(v);
    law_escaped_reads_back(v);
    lemma_no_string(end);
    assert forall|s: Seq<char>| #[trigger] strings(a + s) == seq![Some(v)] + strings(s) by {
        let all = a + s;
        assert(all.subrange(0, 8) =~= tag);
        assert(occurs_at(all, tag, 0));
        lemma_find_is(all, tag, 0);
        let rest = all.skip(8);
        assert(rest =~= e + (end + s));
        let j = e.len() as int;
        assert(rest[j] == '<');
        assert(rest.subrange(j, j + 1) =~= seq!['<']);
        assert(occurs_at(rest, seq!['<'], j));
        assert forall|i: int| 0 <= i < j implies !occurs_at(rest, seq!['<'], i) by {
            if occurs_at(rest, seq!['<'], i) {
                assert(rest.subrange(i, i + 1)[0] == rest[i]);
                assert(rest[i] == e[i]);
            }
        }
        lemma_find_is(rest, seq!['<'], j);
        assert(rest.take(j) =~= e);
        assert(rest.skip(j) =~= end + s);
        assert(strings(end + s) == Seq::<Option<Seq<char>>>::empty() + strings(s));
        assert(strings(end + s) =~= strings(s));
    }
}

/// A `string` element behind a text, with other texts before and behind it.
proof fn lemma_value(
    before: Seq<char>,
    x: Seq<Option<Seq<char>>>,
    open: Seq<char>,
    v: Seq<char>,
    close: Seq<char>,
)
    requires
        holds(before, x),
        no_string(open),
        no_string(close),
    ensures
        holds(
            before + (open + "<string>"@) + escaped(v) + ("</string>"@ + close),
            x.push(Some(v)),
        ),
{
    let e = "<string>"@ + escaped(v) + "</string>"@;
    lemma_element(v);
    lemma_no_string(open);
    lemma_no_string(close);
    lemma_holds_add(before, x, open, Seq::empty());
    lemma_holds_add(before + open, x + Seq::empty(), e, seq![Some(v)]);
    lemma_holds_add(
        before + open + e,
        x + Seq::empty() + seq![Some(v)],
        close,
        Seq::empty(),
    );
    assert(before + open + e + close =~= before + (open + "<string>"@) + escaped(v) + ("</string>"@
        + close));
    assert(x + Seq::empty() + seq![Some(v)] + Seq::empty() =~= x.push(Some(v)));
}

/// Some texts as a reader finds them.
pub open spec fn all_read(list: Seq<Seq<char>>) -> Seq<Option<Seq<char>>> {
    list.map_values(|t: Seq<char>| Some(t))
}

proof fn lemma_arguments(program: Seq<Seq<char>>)
    ensures
        holds(
            join(program.map_values(|a: Seq<char>| argument_line(a)), "\n"@),
            all_read(program),
        ),
    decreases program.len(),
{
    let lines = program.map_values(|a: Seq<char>| argument_line(a));
    let n = "\n"@;
    assert(no_string(n)) by {
        reveal_strlit("\n");
    }
    if program.len() == 0 {
        lemma_no_string(Seq::empty());
        assert(join(lines, n) =~= Seq::empty());
        assert(all_read(program) =~= Seq::empty());
    } else {
        let a = program.last();
        let front = program.drop_last();
        assert(lines.drop_last() =~= front.map_values(|a: Seq<char>| argument_line(a)));
        assert(lines.last() == argument_line(a));
        lemma_line(a);
        assert(all_read(program) =~= all_read(front) + seq![Some(a)]);
        if program.len() == 1 {
            assert(all_read(program) =~= seq![Some(a)]);
        } else {
            lemma_arguments(front);
            lemma_no_string(n);
            lemma_holds_add(join(lines.drop_last(), n), all_read(front), n, Seq::empty());
            lemma_holds_add(
                join(lines.drop_last(), n) + n,
                all_read(front) + Seq::empty(),
                argument_line(a),
                seq![Some(a)],
            );
            assert(all_read(front) + Seq::empty() + seq![Some(a)] =~= all_read(program));
        }
    }
}

proof fn lemma_line(a: Seq<char>)
    ensures
        holds(argument_line(a), seq![Some(a)]),
{
    let none: Seq<char> = Seq::empty();
    lemma_no_string(none);
    let open = "    "@;
    assert(no_string(open)) by {
        reveal_strlit("    ");
    }
    assert("    <string>"@ =~= open + "<string>"@) by {
        reveal_strlit("    <string>");
        reveal_strlit("    ");
        reveal_strlit("<string>");
    }
    lemma_value(none, Seq::empty(), open, a, none);
    assert(none + (open + "<string>"@) + escaped(a) + ("</string>"@ + none) =~= argument_line(a));
    assert(Seq::<Option<Seq<char>>>::empty().push(Some(a)) =~= seq![Some(a)]);
}

proof fn lemma_variable(name: Seq<char>, value: Seq<char>)
    ensures
        holds(variable_lines((name, value)), seq![Some(value)]),
{
    let head = "    <key>"@ + escaped(name);
    law_escaped_has_no_markup(name);
    assert(no_string(head)) by {
        reveal_strlit("    <key>");
        let k = "    <key>"@;
        assert forall|p: int| 0 <= p < head.len() && #[trigger] head[p] == '<' implies p + 1
            < head.len() && head[p + 1] != 's' by {
            if p >= k.len() {
                assert(head[p] == escaped(name)[p - k.len()]);
            } else {
                assert(head[p] == k[p]);
                assert(p == 4);
                assert(head[5] == k[5]);
            }
        }
    }
    lemma_no_string(head);
    let open = "</key>\n    "@;
    assert("</key>\n    <string>"@ =~= open + "<string>"@ && no_string(open)) by {
        reveal_strlit("</key>\n    <string>");
        reveal_strlit("</key>\n    ");
        reveal_strlit("<string>");
    }
    let none: Seq<char> = Seq::empty();
    lemma_value(head, Seq::empty(), open, value, none);
    assert(head + (open + "<string>"@) + escaped(value) + ("</string>"@ + none) =~= variable_lines(
        (name, value),
    ));
    assert(Seq::<Option<Seq<char>>>::empty().push(Some(value)) =~= seq![Some(value)]);
}

/// The values of some variables as a reader finds them.
pub open spec fn values_read(env: Seq<(Seq<char>, Seq<char>)>) -> Seq<Option<Seq<char>>> {
    env.map_values(|v: (Seq<char>, Seq<char>)| Some(v.1))
}

proof fn lemma_environment(env: Seq<(Seq<char>, Seq<char>)>)
    ensures
        holds(
            join(env.map_values(|v: (Seq<char>, Seq<char>)| variable_lines(v)), "\n"@),
            values_read(env),
        ),
    decreases env.len(),
{
    let lines = env.map_values(|v: (Seq<char>, Seq<char>)| variable_lines(v));
    let n = "\n"@;
    assert(no_string(n)) by {
        reveal_strlit("\n");
    }
    if env.len() == 0 {
        lemma_no_string(Seq::empty());
        assert(join(lines, n) =~= Seq::empty());
        assert(values_read(env) =~= Seq::empty());
    } else {
        let v = env.last();
        let front = env.drop_last();
        assert(lines.drop_last() =~= front.map_values(
            |v: (Seq<char>, Seq<char>)| variable_lines(v),
        ));
        assert(lines.last() == variable_lines(v));
        lemma_variable(v.0, v.1);
        assert(variable_lines((v.0, v.1)) == variable_lines(v));
        assert(values_read(env) =~= values_read(front) + seq![Some(v.1)]);
        if env.len() == 1 {
            assert(values_read(env) =~= seq![Some(v.1)]);
        } else {
            lemma_environment(front);
            lemma_no_string(n);
            lemma_holds_add(join(lines.drop_last(), n), values_read(front), n, Seq::empty());
            lemma_holds_add(
                join(lines.drop_last(), n) + n,
                values_read(front) + Seq::empty(),
                variable_lines(v),
                seq![Some(v.1)],
            );
            assert(values_read(front) + Seq::empty() + seq![Some(v.1)] =~= values_read(env));
        }
    }
}

proof fn lemma_switch(head: Seq<char>, value: bool)
    requires
        head.len() > 0,
        head.last() == '<',
        no_string(head.drop_last()),
    ensures
        no_string(head + truth(value)),
{
    reveal_strlit("true");
    reveal_strlit("false");
    let all = head + truth(value);
    let n = head.len() as int;
    assert forall|p: int| 0 <= p < all.len() && #[trigger] all[p] == '<' implies p + 1 < all.len()
        && all[p + 1] != 's' by {
        if p < n - 1 {
            assert(head.drop_last()[p] == '<');
            assert(all[p + 1] == head.drop_last()[p + 1]);
        } else if p == n - 1 {
            assert(all[n] == truth(value)[0]);
        } else {
            assert(all[p] == truth(value)[p - n]);
        }
    }
}

/// What a reader finds in the property list: the label, the words of the command line, the values
/// of the environment in their order, and the log file twice, each as it was given.
pub proof fn law_plist_holds_its_values(
    program: Seq<Seq<char>>,
    env: Seq<(Seq<char>, Seq<char>)>,
    run_at_load: bool,
    keep_alive: bool,
    log: Seq<char>,
)
    ensures
        strings(plist(program, env, run_at_load, keep_alive, log)) == seq![
            Some("com.dsh-launcher.web"@),
        ] + all_read(program) + values_read(env) + seq![Some(log), Some(log)],
{
    let none: Seq<Option<Seq<char>>> = Seq::empty();
    // The label.
    let a = "<?xml version=\"1.0\" encoding=\"UTF-8\"?>\n"@;
    let b = "<!DOCTYPE plist PUBLIC \"-//Apple//DTD PLIST 1.0//EN\" \"http://www.apple.com/DTDs/PropertyList-1.0.dtd\">\n"@;
    let c = "<plist version=\"1.0\">\n<dict>\n  <key>Label</key>\n  <string>"@;
    let c0 = "<plist version=\"1.0\">\n<dict>\n  <key>Label</key>\n  "@;
    let label = "com.dsh-launcher.web"@;
    let d = "</string>\n  <key>ProgramArguments</key>\n  <array>\n"@;
    let d1 = "\n  <key>ProgramArguments</key>\n  <array>\n"@;
    assert(no_string(a)) by {
        reveal_strlit("<?xml version=\"1.0\" encoding=\"UTF-8\"?>\n");
    }
    assert(no_string(b)) by {
        reveal_strlit("<!DOCTYPE plist PUBLIC \"-//Apple//DTD PLIST 1.0//EN\" \"http://www.apple.com/DTDs/PropertyList-1.0.dtd\">\n");
    }
    assert(c =~= c0 + "<string>"@ && no_string(c0)) by {
        reveal_strlit("<plist version=\"1.0\">\n<dict>\n  <key>Label</key>\n  <string>");
        reveal_strlit("<plist version=\"1.0\">\n<dict>\n  <key>Label</key>\n  ");
        reveal_strlit("<string>");
    }
    assert(d =~= "</string>"@ + d1 && no_string(d1)) by {
        reveal_strlit("</string>\n  <key>ProgramArguments</key>\n  <array>\n");
        reveal_strlit("\n  <key>ProgramArguments</key>\n  <array>\n");
        reveal_strlit("</string>");
    }
    assert(escaped(label) == label) by {
        reveal_strlit("com.dsh-launcher.web");
        law_plain_text_is_not_escaped(label);
    }
    lemma_no_string(a);
    lemma_no_string(b);
    lemma_holds_add(a, none, b, none);
    lemma_value(a + b, none + none, c0, label, d1);
    let s1 = a + b + c + label + d;
    let o1 = (none + none).push(Some(label));
    assert(holds(s1, o1));
    // The command line.
    let words = join(program.map_values(|a: Seq<char>| argument_line(a)), "\n"@);
    lemma_arguments(program);
    lemma_holds_add(s1, o1, words, all_read(program));
    // The environment.
    let f = "\n  </array>\n  <key>EnvironmentVariables</key>\n  <dict>\n"@;
    assert(no_string(f)) by {
        reveal_strlit("\n  </array>\n  <key>EnvironmentVariables</key>\n  <dict>\n");
    }
    lemma_no_string(f);
    let o2 = o1 + all_read(program);
    lemma_holds_add(s1 + words, o2, f, none);
    let vars = join(env.map_values(|v: (Seq<char>, Seq<char>)| variable_lines(v)), "\n"@);
    lemma_environment(env);
    let ov = values_read(env);
    lemma_holds_add(s1 + words + f, o2 + none, vars, ov);
    let s2 = s1 + words + f + vars;
    let o3 = o2 + none + ov;
    assert(holds(s2, o3));
    // The switches.
    let g = "\n  </dict>\n  <key>KeepAlive</key>\n  <"@;
    let h = "/>\n  <key>RunAtLoad</key>\n  <"@;
    assert(g.len() > 0 && g.last() == '<' && no_string(g.drop_last())) by {
        reveal_strlit("\n  </dict>\n  <key>KeepAlive</key>\n  <");
    }
    assert(h.len() > 0 && h.last() == '<' && no_string(h.drop_last())) by {
        reveal_strlit("/>\n  <key>RunAtLoad</key>\n  <");
    }
    let tk = truth(keep_alive);
    let tr = truth(run_at_load);
    lemma_switch(g, keep_alive);
    lemma_switch(h, run_at_load);
    lemma_no_string(g + tk);
    lemma_no_string(h + tr);
    lemma_holds_add(s2, o3, g + tk, none);
    lemma_holds_add(s2 + (g + tk), o3 + none, h + tr, none);
    let s3 = s2 + g + tk + h + tr;
    let o4 = o3 + none + none;
    assert(s2 + (g + tk) + (h + tr) =~= s3);
    assert(holds(s3, o4));
    lemma_logs(s3, o4, log);
    let z = "/>\n  <key>StandardOutPath</key>\n  <string>"@;
    let y = "</string>\n  <key>StandardErrorPath</key>\n  <string>"@;
    let x = "</string>\n</dict>\n</plist>\n"@;
    let e = escaped(log);
    let xml = s3 + z + e + y + e + x;
    let out = o4.push(Some(log)).push(Some(log));
    assert(xml == plist(program, env, run_at_load, keep_alive, log));
    lemma_nothing();
    assert(xml + Seq::<char>::empty() =~= xml);
    assert(strings(xml + Seq::<char>::empty()) == out + strings(Seq::empty()));
    assert(out + none =~= seq![Some(label)] + all_read(program) + values_read(env) + seq![
        Some(log),
        Some(log),
    ]);
}

proof fn lemma_nothing()
    ensures
        strings(Seq::empty()) == Seq::<Option<Seq<char>>>::empty(),
{
    lemma_tag();
    lemma_find_from(Seq::empty(), "<string>"@, 0);
}

proof fn lemma_logs(before: Seq<char>, o: Seq<Option<Seq<char>>>, log: Seq<char>)
    requires
        holds(before, o),
    ensures
        holds(
            before + "/>\n  <key>StandardOutPath</key>\n  <string>"@ + escaped(log)
                + "</string>\n  <key>StandardErrorPath</key>\n  <string>"@ + escaped(log)
                + "</string>\n</dict>\n</plist>\n"@,
            o.push(Some(log)).push(Some(log)),
        ),
{
    let z = "/>\n  <key>StandardOutPath</key>\n  <string>"@;
    let z0 = "/>\n  <key>StandardOutPath</key>\n  "@;
    let y = "</string>\n  <key>StandardErrorPath</key>\n  <string>"@;
    let y0 = "\n  <key>StandardErrorPath</key>\n  "@;
    let x = "</string>\n</dict>\n</plist>\n"@;
    let x0 = "\n</dict>\n</plist>\n"@;
    let tag = "<string>"@;
    let end = "</string>"@;
    assert(z =~= z0 + tag && no_string(z0)) by {
        reveal_strlit("/>\n  <key>StandardOutPath</key>\n  <string>");
        reveal_strlit("/>\n  <key>StandardOutPath</key>\n  ");
        reveal_strlit("<string>");
    }
    assert(y =~= end + y0 + tag && no_string(y0)) by {
        reveal_strlit("</string>\n  <key>StandardErrorPath</key>\n  <string>");
        reveal_strlit("\n  <key>StandardErrorPath</key>\n  ");
        reveal_strlit("<string>");
        reveal_strlit("</string>");
    }
    assert(x =~= end + x0 && no_string(x0)) by {
        reveal_strlit("</string>\n</dict>\n</plist>\n");
        reveal_strlit("\n</dict>\n</plist>\n");
        reveal_strlit("</string>");
    }
    let e = escaped(log);
    let none: Seq<char> = Seq::empty();
    lemma_value(before, o, z0, log, y0);
    let s = before + z + e + (end + y0);
    lemma_value(s, o.push(Some(log)), none, log, x0);
    assert(none + tag =~= tag);
    lemma_logs_text(before + z + e, end, y0, tag, e, x);
}

proof fn lemma_logs_text(
    a: Seq<char>,
    end: Seq<char>,
    y0: Seq<char>,
    tag: Seq<char>,
    e: Seq<char>,
    x: Seq<char>,
)
    ensures
        a + (end + y0) + tag + e + x == a + (end + y0 + tag) + e + x,
{
    assert(a + (end + y0) + tag =~= a + (end + y0 + tag));
}

// ---- any property list ----

/// Whether a key that follows a text is the first one of its kind.
pub open spec fn first_of_its_kind(before: Seq<char>, key: Seq<char>) -> bool {
    forall|j: int| 0 <= j < before.len() ==> !occurs_at(before + key, key, j)
}

/// Whether a text holds no such key.
pub open spec fn lacks(xml: Seq<char>, key: Seq<char>) -> bool {
    forall|j: int| !occurs_at(xml, key, j)
}

proof fn lemma_first(before: Seq<char>, key: Seq<char>, rest: Seq<char>)
    requires
        first_of_its_kind(before, key),
    ensures
        find(before + key + rest, key) == Some(before.len() as int),
        (before + key + rest).skip((before.len() + key.len()) as int) == rest,
{
    let xml = before + key + rest;
    let n = before.len() as int;
    let k = key.len() as int;
    assert(xml.subrange(n, n + k) =~= key);
    assert(occurs_at(xml, key, n));
    assert forall|j: int| 0 <= j < n implies !occurs_at(xml, key, j) by {
        assert(xml.subrange(j, j + k) =~= (before + key).subrange(j, j + k));
        assert(!occurs_at(before + key, key, j));
    }
    lemma_find_is(xml, key, n);
    assert(xml.skip(n + k) =~= rest);
}

proof fn lemma_lacking(xml: Seq<char>, key: Seq<char>)
    requires
        lacks(xml, key),
    ensures
        find(xml, key) is None,
{
    lemma_find_from(xml, key, 0);
}

proof fn lemma_read(
    before: Seq<char>,
    key: Seq<char>,
    gap: Seq<char>,
    on: bool,
    rest: Seq<char>,
    missing: bool,
)
    requires
        first_of_its_kind(before, key),
        blank(gap),
    ensures
        switch(before + key + gap + tag(on) + rest, key, missing) == on,
{
    let xml = before + key + gap + tag(on) + rest;
    let value = gap + tag(on) + rest;
    assert(xml =~= before + key + value);
    lemma_first(before, key, value);
    lemma_start_taken(gap, tag(on) + rest);
    assert(value =~= gap + (tag(on) + rest));
    reveal_strlit("<true/>");
    reveal_strlit("<false/>");
    let v = tag(on) + rest;
    assert(v[0] == '<');
    assert(!white_space('<'));
    assert(trim_start(v) == v);
    if on {
        assert(v.take(7) =~= "<true/>"@);
        assert("<true/>"@.is_prefix_of(v));
    } else {
        assert(v[1] == 'f');
        assert("<true/>"@[1] == 't');
        if "<true/>"@.is_prefix_of(v) {
            assert("<true/>"@[1] == v[1]);
        }
    }
}

/// The tag that stands for a truth value.
pub open spec fn tag(on: bool) -> Seq<char> {
    if on {
        "<true/>"@
    } else {
        "<false/>"@
    }
}

/// The two switches of any property list are read from the tag behind the first key of their
/// name, with or without white space between them.
pub proof fn law_switches_are_read(
    before: Seq<char>,
    gap: Seq<char>,
    on: bool,
    rest: Seq<char>,
)
    requires
        blank(gap),
    ensures
        first_of_its_kind(before, "<key>KeepAlive</key>"@) ==> keeps_alive(
            Some(before + "<key>KeepAlive</key>"@ + gap + tag(on) + rest),
        ) == on,
        first_of_its_kind(before, "<key>RunAtLoad</key>"@) ==> runs_at_load(
            Some(before + "<key>RunAtLoad</key>"@ + gap + tag(on) + rest),
        ) == on,
{
    if first_of_its_kind(before, "<key>KeepAlive</key>"@) {
        lemma_read(before, "<key>KeepAlive</key>"@, gap, on, rest, true);
    }
    if first_of_its_kind(before, "<key>RunAtLoad</key>"@) {
        lemma_read(before, "<key>RunAtLoad</key>"@, gap, on, rest, false);
    }
}

/// A property list without a switch, or none at all, restarts the service after a crash and does
/// not start it at login; it sets an environment exactly where it holds the key for it.
pub proof fn law_missing_switches(xml: Seq<char>, before: Seq<char>, rest: Seq<char>)
    ensures
        lacks(xml, "<key>KeepAlive</key>"@) ==> keeps_alive(Some(xml)),
        lacks(xml, "<key>RunAtLoad</key>"@) ==> !runs_at_load(Some(xml)),
        lacks(xml, "<key>EnvironmentVariables</key>"@) ==> !sets_environment(Some(xml)),
        sets_environment(Some(before + "<key>EnvironmentVariables</key>"@ + rest)),
        keeps_alive(None),
        !runs_at_load(None),
        !sets_environment(None),
{
    if lacks(xml, "<key>KeepAlive</key>"@) {
        lemma_lacking(xml, "<key>KeepAlive</key>"@);
    }
    if lacks(xml, "<key>RunAtLoad</key>"@) {
        lemma_lacking(xml, "<key>RunAtLoad</key>"@);
    }
    let key = "<key>EnvironmentVariables</key>"@;
    let n = before.len() as int;
    assert((before + key + rest).subrange(n, n + key.len()) =~= key);
    assert(occurs_at(before + key + rest, key, n));
}

proof fn lemma_first_char(s: Seq<char>, c: char, n: int)
    requires
        0 <= n < s.len(),
        s[n] == c,
        forall|i: int| 0 <= i < n ==> s[i] != c,
    ensures
        find(s, seq![c]) == Some(n),
{
    assert(s.subrange(n, n + 1) =~= seq![c]);
    assert(occurs_at(s, seq![c], n));
    assert forall|j: int| 0 <= j < n implies !occurs_at(s, seq![c], j) by {
        if occurs_at(s, seq![c], j) {
            assert(s.subrange(j, j + 1)[0] == s[j]);
        }
    }
    lemma_find_is(s, seq![c], n);
}

proof fn lemma_no_char(s: Seq<char>, c: char)
    requires
        !s.contains(c),
    ensures
        find(s, seq![c]) is None,
{
    lemma_find_from(s, seq![c], 0);
    match find(s, seq![c]) {
        Some(k) => {
            assert(s.subrange(k, k + 1)[0] == s[k]);
            assert(s.contains(s[k]));
        },
        None => {},
    }
}

/// Turning the restart switch off puts `<false/>` in the place of the tag behind the first key of
/// its name and of what stands between the two, and leaves everything else as it is. Where there
/// is no such key, or no tag behind it, nothing is made.
pub proof fn law_restart_switch_is_replaced(
    before: Seq<char>,
    gap: Seq<char>,
    inside: Seq<char>,
    rest: Seq<char>,
)
    requires
        !gap.contains('<'),
        !inside.contains('>'),
    ensures
        first_of_its_kind(before, "<key>KeepAlive</key>"@) ==> without_keepalive(
            before + "<key>KeepAlive</key>"@ + gap + seq!['<'] + inside + seq!['>'] + rest,
        ) == Ok::<Seq<char>, Seq<char>>(
            before + "<key>KeepAlive</key>"@ + "<false/>"@ + rest,
        ),
        first_of_its_kind(before, "<key>KeepAlive</key>"@) ==> without_keepalive(
            before + "<key>KeepAlive</key>"@ + gap,
        ) is Err,
        first_of_its_kind(before, "<key>KeepAlive</key>"@) ==> without_keepalive(
            before + "<key>KeepAlive</key>"@ + (gap + seq!['<'] + inside),
        ) is Err,
        lacks(rest, "<key>KeepAlive</key>"@) ==> without_keepalive(rest) is Err,
{
    let key = "<key>KeepAlive</key>"@;
    if lacks(rest, key) {
        lemma_lacking(rest, key);
    }
    if first_of_its_kind(before, key) {
        let value = gap + seq!['<'] + inside + seq!['>'] + rest;
        let xml = before + key + gap + seq!['<'] + inside + seq!['>'] + rest;
        assert(xml =~= before + key + value);
        lemma_first(before, key, value);
        let n = gap.len() as int;
        let m = inside.len() as int;
        assert(value[n] == '<');
        assert forall|i: int| 0 <= i < n implies value[i] != '<' by {
            assert(value[i] == gap[i]);
        }
        lemma_first_char(value, '<', n);
        let t = value.skip(n);
        assert(t =~= seq!['<'] + inside + seq!['>'] + rest);
        assert(t[m + 1] == '>');
        assert forall|i: int| 0 <= i < m + 1 implies t[i] != '>' by {
            if i > 0 {
                assert(t[i] == inside[i - 1]);
            }
        }
        lemma_first_char(t, '>', m + 1);
        assert(value.skip(n + (m + 1) + 1) =~= rest);
        assert(xml.take((before.len() + key.len()) as int) =~= before + key);
        lemma_first(before, key, gap);
        lemma_no_char(gap, '<');
        let short = gap + seq!['<'] + inside;
        lemma_first(before, key, short);
        assert forall|i: int| 0 <= i < n implies short[i] != '<' by {
            assert(short[i] == gap[i]);
        }
        assert(short[n] == '<');
        lemma_first_char(short, '<', n);
        let u = short.skip(n);
        assert(u =~= seq!['<'] + inside);
        assert(!u.contains('>')) by {
            if u.contains('>') {
                let i = choose|i: int| 0 <= i < u.len() && u[i] == '>';
                assert(u[i] == inside[i - 1]);
                assert(inside.contains('>'));
            }
        }
        lemma_no_char(u, '>');
    }
}

} // verus!

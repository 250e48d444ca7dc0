//! What the systemd unit promises, line by line.

use vstd::prelude::*;

use crate::definition::RenderOf;
use crate::definition::RenderView;
use crate::effect::ReplyOf;
use crate::effect::ReplyView;
use crate::linux_service::all_quoted;
use crate::linux_service::content_step;
use crate::linux_service::unit;
use crate::linux_service::variable_line;
use crate::linux_service::LinuxService;
use crate::locations::service_log_path;
use crate::locations::Platform;
use crate::native::decoded;
use crate::native::quotation;
use crate::search::service_variables;
use crate::text::join;

verus! {

/// The line of the command.
pub open spec fn exec_line(words: Seq<Seq<char>>) -> Seq<char> {
    "ExecStart="@ + join(words, " "@)
}

/// The lines above the command.
pub open spec fn lines_above() -> Seq<Seq<char>> {
    seq![
        "# 由 dsh-launcher 自动生成，请勿手改。"@,
        "[Unit]"@,
        "Description=DSH web service (dsh --profile web)"@,
        "After=network-online.target"@,
        "Wants=network-online.target"@,
        ""@,
        "[Service]"@,
        "Type=simple"@,
    ]
}

/// The lines below the command.
pub open spec fn lines_below(path: Seq<char>, log: Seq<char>) -> Seq<Seq<char>> {
    seq![
        "Environment=PATH="@ + path,
        "Environment=TERM=dumb"@,
        "Restart=always"@,
        "RestartSec=2"@,
        "StandardOutput=append:"@ + log,
        "StandardError=append:"@ + log,
        ""@,
        "[Install]"@,
        "WantedBy=default.target"@,
    ]
}

/// The lines of the unit for a command of quoted words, a search path and the log file.
pub open spec fn unit_lines(words: Seq<Seq<char>>, path: Seq<char>, log: Seq<char>) -> Seq<
    Seq<char>,
> {
    lines_above() + seq![exec_line(words)] + lines_below(path, log)
}

/// Whether a text holds no line break.
pub open spec fn unbroken(s: Seq<char>) -> bool {
    !s.contains('\n')
}

/// Whether `text` is the lines of the unit with a line break behind each, none of which holds a
/// line break itself, and exactly two of which set a variable: the search path and the terminal.
pub open spec fn two_variables(
    text: Seq<char>,
    words: Seq<Seq<char>>,
    path: Seq<char>,
    log: Seq<char>,
) -> bool {
    let lines = unit_lines(words, path, log);
    &&& text == join(lines, "\n"@) + "\n"@
    &&& forall|k: int| 0 <= k < lines.len() ==> unbroken(#[trigger] lines[k])
    &&& forall|k: int|
        0 <= k < lines.len() ==> ("Environment="@.is_prefix_of(#[trigger] lines[k]) <==> k == 9
            || k == 10)
    &&& lines[9] == "Environment=PATH="@ + path
    &&& lines[10] == "Environment=TERM=dumb"@
}

// ---- joining ----

proof fn lemma_join_push(list: Seq<Seq<char>>, x: Seq<char>, sep: Seq<char>)
    requires
        list.len() > 0,
    ensures
        join(list.push(x), sep) == join(list, sep) + sep + x,
{
    assert(list.push(x).drop_last() == list);
}

proof fn lemma_join_add(a: Seq<Seq<char>>, b: Seq<Seq<char>>, sep: Seq<char>)
    requires
        a.len() > 0,
        b.len() > 0,
    ensures
        join(a + b, sep) == join(a, sep) + sep + join(b, sep),
    decreases b.len(),
{
    assert((a + b).drop_last() == a + b.drop_last());
    if b.len() == 1 {
        assert(a + b.drop_last() == a);
    } else {
        lemma_join_add(a, b.drop_last(), sep);
        let x = join(a, sep);
        let y = join(b.drop_last(), sep);
        assert(x + sep + y + sep + b.last() == x + sep + (y + sep + b.last()));
    }
}

proof fn lemma_lines_above()
    ensures
        join(lines_above(), "\n"@) + "\n"@ + "ExecStart="@
            == "# 由 dsh-launcher 自动生成，请勿手改。\n[Unit]\nDescription=DSH web service (dsh --profile web)\nAfter=network-online.target\nWants=network-online.target\n\n[Service]\nType=simple\nExecStart="@,
{
    let n = "\n"@;
    let l0 = "# 由 dsh-launcher 自动生成，请勿手改。"@;
    let l1 = "[Unit]"@;
    let l2 = "Description=DSH web service (dsh --profile web)"@;
    let l3 = "After=network-online.target"@;
    let l4 = "Wants=network-online.target"@;
    let l5 = ""@;
    let l6 = "[Service]"@;
    let l7 = "Type=simple"@;
    let s0 = seq![l0];
    assert(join(s0, n) == l0);
    let s1 = s0.push(l1);
    let s2 = s1.push(l2);
    let s3 = s2.push(l3);
    let s4 = s3.push(l4);
    let s5 = s4.push(l5);
    let s6 = s5.push(l6);
    let s7 = s6.push(l7);
    assert(s7 == lines_above());
    lemma_join_push(s0, l1, n);
    lemma_join_push(s1, l2, n);
    lemma_join_push(s2, l3, n);
    lemma_join_push(s3, l4, n);
    lemma_join_push(s4, l5, n);
    lemma_join_push(s5, l6, n);
    lemma_join_push(s6, l7, n);
    let a = "# 由 dsh-launcher 自动生成，请勿手改。\n[Unit]\nDescription=DSH web service (dsh --profile web)"@;
    assert(join(s2, n) == a) by {
        reveal_strlit("\n");
        reveal_strlit("# 由 dsh-launcher 自动生成，请勿手改。");
        reveal_strlit("[Unit]");
        reveal_strlit("Description=DSH web service (dsh --profile web)");
        reveal_strlit("# 由 dsh-launcher 自动生成，请勿手改。\n[Unit]\nDescription=DSH web service (dsh --profile web)");
        assert(l0 + n + l1 + n + l2 =~= a);
    }
    let b = "# 由 dsh-launcher 自动生成，请勿手改。\n[Unit]\nDescription=DSH web service (dsh --profile web)\nAfter=network-online.target\nWants=network-online.target"@;
    assert(join(s4, n) == b) by {
        reveal_strlit("\n");
        reveal_strlit("After=network-online.target");
        reveal_strlit("Wants=network-online.target");
        reveal_strlit("# 由 dsh-launcher 自动生成，请勿手改。\n[Unit]\nDescription=DSH web service (dsh --profile web)");
        reveal_strlit("# 由 dsh-launcher 自动生成，请勿手改。\n[Unit]\nDescription=DSH web service (dsh --profile web)\nAfter=network-online.target\nWants=network-online.target");
        assert(a + n + l3 + n + l4 =~= b);
    }
    let c = "# 由 dsh-launcher 自动生成，请勿手改。\n[Unit]\nDescription=DSH web service (dsh --profile web)\nAfter=network-online.target\nWants=network-online.target\n\n[Service]\nType=simple\nExecStart="@;
    assert(b + n + l5 + n + l6 + n + l7 + n + "ExecStart="@ == c) by {
        reveal_strlit("\n");
        reveal_strlit("");
        reveal_strlit("[Service]");
        reveal_strlit("Type=simple");
        reveal_strlit("ExecStart=");
        reveal_strlit("# 由 dsh-launcher 自动生成，请勿手改。\n[Unit]\nDescription=DSH web service (dsh --profile web)\nAfter=network-online.target\nWants=network-online.target");
        reveal_strlit("# 由 dsh-launcher 自动生成，请勿手改。\n[Unit]\nDescription=DSH web service (dsh --profile web)\nAfter=network-online.target\nWants=network-online.target\n\n[Service]\nType=simple\nExecStart=");
        assert(b + n + l5 + n + l6 + n + l7 + n + "ExecStart="@ =~= c);
    }
}

proof fn lemma_shift(
    x: Seq<char>,
    n: Seq<char>,
    r: Seq<char>,
    s: Seq<char>,
    o: Seq<char>,
    log: Seq<char>,
)
    ensures
        x + n + r + n + s + n + (o + log) == x + (n + r + n + s + n + o) + log,
        x + n + (o + log) == x + (n + o) + log,
        x + n + r + n + s + n + o + n == x + (n + r + n + s + n + o + n),
{
    assert(x + n + r + n + s + n + (o + log) =~= x + (n + r + n + s + n + o) + log);
    assert(x + n + (o + log) =~= x + (n + o) + log);
    assert(x + n + r + n + s + n + o + n =~= x + (n + r + n + s + n + o + n));
}

proof fn lemma_lines_below(path: Seq<char>, log: Seq<char>)
    ensures
        join(lines_below(path, log), "\n"@) + "\n"@ == join(
            service_variables(path).map_values(|v: (Seq<char>, Seq<char>)| variable_line(v)),
            "\n"@,
        ) + "\nRestart=always\nRestartSec=2\nStandardOutput=append:"@ + log
            + "\nStandardError=append:"@ + log + "\n\n[Install]\nWantedBy=default.target\n"@,
{
    let n = "\n"@;
    let p = "Environment=PATH="@ + path;
    let t = "Environment=TERM=dumb"@;
    let r = "Restart=always"@;
    let s = "RestartSec=2"@;
    let o = "StandardOutput=append:"@;
    let e = "StandardError=append:"@;
    let i = "[Install]"@;
    let w = "WantedBy=default.target"@;
    let s0 = seq![p];
    assert(join(s0, n) == p);
    let s1 = s0.push(t);
    let s2 = s1.push(r);
    let s3 = s2.push(s);
    let s4 = s3.push(o + log);
    let s5 = s4.push(e + log);
    let s6 = s5.push(""@);
    let s7 = s6.push(i);
    let s8 = s7.push(w);
    assert(s8 == lines_below(path, log));
    lemma_join_push(s0, t, n);
    lemma_join_push(s1, r, n);
    lemma_join_push(s2, s, n);
    lemma_join_push(s3, o + log, n);
    lemma_join_push(s4, e + log, n);
    lemma_join_push(s5, ""@, n);
    lemma_join_push(s6, i, n);
    lemma_join_push(s7, w, n);
    let vars = service_variables(path).map_values(|v: (Seq<char>, Seq<char>)| variable_line(v));
    let a = variable_line(("PATH"@, path));
    let b = variable_line(("TERM"@, "dumb"@));
    assert(vars == seq![a, b]);
    assert(vars.drop_last() == seq![a]);
    assert(join(seq![a], n) == a);
    assert(a == p) by {
        reveal_strlit("Environment=PATH=");
        reveal_strlit("Environment=");
        reveal_strlit("PATH");
        reveal_strlit("=");
        assert("Environment="@ + "PATH"@ + "="@ =~= "Environment=PATH="@);
    }
    assert(b == t) by {
        reveal_strlit("Environment=TERM=dumb");
        reveal_strlit("Environment=");
        reveal_strlit("TERM");
        reveal_strlit("=");
        reveal_strlit("dumb");
        assert("Environment="@ + "TERM"@ + "="@ + "dumb"@ =~= t);
    }
    let x = p + n + t;
    assert(join(vars, n) == x);
    let m = "\nRestart=always\nRestartSec=2\nStandardOutput=append:"@;
    assert(n + r + n + s + n + o == m) by {
        reveal_strlit("\n");
        reveal_strlit("Restart=always");
        reveal_strlit("RestartSec=2");
        reveal_strlit("StandardOutput=append:");
        reveal_strlit("\nRestart=always\nRestartSec=2\nStandardOutput=append:");
        assert(n + r + n + s + n + o =~= m);
    }
    lemma_shift(x, n, r, s, o, log);
    let y = x + m + log;
    let f = "\nStandardError=append:"@;
    assert(n + e == f) by {
        reveal_strlit("\n");
        reveal_strlit("StandardError=append:");
        reveal_strlit("\nStandardError=append:");
        assert(n + e =~= f);
    }
    lemma_shift(y, n, r, s, e, log);
    let z = y + f + log;
    let g = "\n\n[Install]\nWantedBy=default.target\n"@;
    assert(n + ""@ + n + i + n + w + n == g) by {
        reveal_strlit("\n");
        reveal_strlit("");
        reveal_strlit("[Install]");
        reveal_strlit("WantedBy=default.target");
        reveal_strlit("\n\n[Install]\nWantedBy=default.target\n");
        assert(n + ""@ + n + i + n + w + n =~= g);
    }
    lemma_shift(z, n, ""@, i, w, log);
}

/// The unit is its lines, with a line break behind each.
pub proof fn law_unit_is_its_lines(words: Seq<Seq<char>>, path: Seq<char>, log: Seq<char>)
    ensures
        unit(words, service_variables(path), log) == join(unit_lines(words, path, log), "\n"@)
            + "\n"@,
{
    let n = "\n"@;
    let above = lines_above();
    let exec = seq![exec_line(words)];
    let below = lines_below(path, log);
    lemma_join_add(above, exec, n);
    lemma_join_add(above + exec, below, n);
    assert(join(exec, n) == exec_line(words));
    lemma_lines_above();
    lemma_lines_below(path, log);
    let a = join(above, n);
    let e = "ExecStart="@;
    let w = join(words, " "@);
    let b = join(below, n);
    assert(a + n + (e + w) =~= a + n + e + w);
    let h = a + n + e + w + n;
    assert(h + b + n == h + (b + n)) by {
        assert(h + b + n =~= h + (b + n));
    }
    let v = join(
        service_variables(path).map_values(|v: (Seq<char>, Seq<char>)| variable_line(v)),
        n,
    );
    let m = "\nRestart=always\nRestartSec=2\nStandardOutput=append:"@;
    let f = "\nStandardError=append:"@;
    let g = "\n\n[Install]\nWantedBy=default.target\n"@;
    lemma_open(h, v, m, log, f, g);
}

proof fn lemma_open(
    h: Seq<char>,
    v: Seq<char>,
    m: Seq<char>,
    log: Seq<char>,
    f: Seq<char>,
    g: Seq<char>,
)
    ensures
        h + (v + m + log + f + log + g) == h + v + m + log + f + log + g,
{
    assert(h + (v + m + log + f + log + g) =~= h + v + m + log + f + log + g);
}

// ---- what the lines say ----

proof fn lemma_unbroken_add(a: Seq<char>, b: Seq<char>)
    requires
        unbroken(a),
        unbroken(b),
    ensures
        unbroken(a + b),
{
    if (a + b).contains('\n') {
        let i = choose|i: int| 0 <= i < (a + b).len() && (a + b)[i] == '\n';
        if i < a.len() {
            assert(a[i] == '\n');
        } else {
            assert(b[i - a.len()] == '\n');
        }
    }
}

proof fn lemma_unbroken_join(list: Seq<Seq<char>>, sep: Seq<char>)
    requires
        forall|i: int| 0 <= i < list.len() ==> unbroken(#[trigger] list[i]),
        unbroken(sep),
    ensures
        unbroken(join(list, sep)),
    decreases list.len(),
{
    if list.len() > 1 {
        let front = list.drop_last();
        assert forall|i: int| 0 <= i < front.len() implies unbroken(#[trigger] front[i]) by {
            assert(front[i] == list[i]);
        }
        lemma_unbroken_join(front, sep);
        lemma_unbroken_add(join(front, sep), sep);
        lemma_unbroken_add(join(front, sep) + sep, list.last());
    }
}

proof fn lemma_fixed_lines()
    ensures
        forall|k: int|
            0 <= k < 8 ==> unbroken(#[trigger] lines_above()[k])
                && !"Environment="@.is_prefix_of(lines_above()[k]),
        unbroken("ExecStart="@) && "ExecStart="@.len() > 1 && "ExecStart="@[1] != 'n',
        unbroken(" "@),
        "Environment="@.len() > 1 && "Environment="@[0] == 'E' && "Environment="@[1] == 'n',
{
    reveal_strlit("# 由 dsh-launcher 自动生成，请勿手改。");
    reveal_strlit("[Unit]");
    reveal_strlit("Description=DSH web service (dsh --profile web)");
    reveal_strlit("After=network-online.target");
    reveal_strlit("Wants=network-online.target");
    reveal_strlit("");
    reveal_strlit("[Service]");
    reveal_strlit("Type=simple");
    reveal_strlit("ExecStart=");
    reveal_strlit(" ");
    reveal_strlit("Environment=");
    assert forall|k: int| 0 <= k < 8 implies unbroken(#[trigger] lines_above()[k])
        && !"Environment="@.is_prefix_of(lines_above()[k]) by {
        let l = lines_above()[k];
        if "Environment="@.is_prefix_of(l) {
            assert(l[0] == "Environment="@[0]);
        }
    }
}

proof fn lemma_lower_lines(path: Seq<char>, log: Seq<char>)
    requires
        unbroken(path),
        unbroken(log),
    ensures
        forall|k: int|
            0 <= k < 9 ==> unbroken(#[trigger] lines_below(path, log)[k]) && (
            "Environment="@.is_prefix_of(lines_below(path, log)[k]) <==> k < 2),
{
    reveal_strlit("Environment=PATH=");
    reveal_strlit("Environment=TERM=dumb");
    reveal_strlit("Restart=always");
    reveal_strlit("RestartSec=2");
    reveal_strlit("StandardOutput=append:");
    reveal_strlit("StandardError=append:");
    reveal_strlit("");
    reveal_strlit("[Install]");
    reveal_strlit("WantedBy=default.target");
    reveal_strlit("Environment=");
    lemma_unbroken_add("Environment=PATH="@, path);
    lemma_unbroken_add("StandardOutput=append:"@, log);
    lemma_unbroken_add("StandardError=append:"@, log);
    let e = "Environment="@;
    let lines = lines_below(path, log);
    assert forall|k: int| 0 <= k < 9 implies unbroken(#[trigger] lines[k]) && (e.is_prefix_of(
        lines[k],
    ) <==> k < 2) by {
        let l = lines[k];
        if k == 0 {
            assert(l.take(12) =~= e);
        } else if k == 1 {
            assert(l.take(12) =~= e);
        } else if e.is_prefix_of(l) {
            assert(l[0] == e[0]);
        }
    }
}

/// Where neither the words of the command nor the search path nor the log file holds a line
/// break, the lines of the unit are what its line breaks make of it, and exactly two of them set
/// a variable: the search path and the terminal.
pub proof fn law_unit_sets_two_variables(words: Seq<Seq<char>>, path: Seq<char>, log: Seq<char>)
    requires
        forall|i: int| 0 <= i < words.len() ==> unbroken(#[trigger] words[i]),
        unbroken(path),
        unbroken(log),
    ensures
        two_variables(unit(words, service_variables(path), log), words, path, log),
{
    law_unit_is_its_lines(words, path, log);
    lemma_fixed_lines();
    lemma_lower_lines(path, log);
    let lines = unit_lines(words, path, log);
    let exec = exec_line(words);
    let e = "Environment="@;
    lemma_unbroken_join(words, " "@);
    lemma_unbroken_add("ExecStart="@, join(words, " "@));
    assert(!e.is_prefix_of(exec)) by {
        if e.is_prefix_of(exec) {
            assert(exec[1] == e[1]);
        }
    }
    assert forall|k: int| 0 <= k < lines.len() implies unbroken(#[trigger] lines[k]) && (
    e.is_prefix_of(lines[k]) <==> k == 9 || k == 10) by {
        if k < 8 {
            assert(lines[k] == lines_above()[k]);
        } else if k == 8 {
            assert(lines[k] == exec);
        } else {
            assert(lines[k] == lines_below(path, log)[k - 9]);
        }
    }
}

/// Where neither the search path nor the log file holds a line break, the unit that is made for
/// a command line sets exactly two variables, whatever the words of the command line are.
pub proof fn law_made_unit_sets_two_variables(
    linux: LinuxService,
    words: Seq<Seq<char>>,
    path: Seq<char>,
)
    requires
        unbroken(path),
        unbroken(decoded(service_log_path(Platform::Linux, linux.env))),
    ensures
        ({
            let (next, _) = content_step(linux, RenderOf::Program, ReplyOf::Program(Ok(words)));
            let end = content_step(linux, next, ReplyView::Env(service_variables(path))).0;
            &&& end is Ended
            &&& end->Ended_0 is Ok
            &&& two_variables(
                end->Ended_0->Ok_0,
                all_quoted(words),
                path,
                decoded(service_log_path(Platform::Linux, linux.env)),
            )
        }),
{
    let log = decoded(service_log_path(Platform::Linux, linux.env));
    let all = all_quoted(words);
    assert forall|i: int| 0 <= i < all.len() implies unbroken(#[trigger] all[i]) by {
        assert(all[i] == quotation(words[i]));
    }
    law_unit_sets_two_variables(all, path, log);
}

/// The unit has the lines for the command, for the restart, for the log file and for the start at
/// login.
pub proof fn law_unit_has_its_lines(words: Seq<Seq<char>>, path: Seq<char>, log: Seq<char>)
    ensures
        ({
            let lines = unit_lines(words, path, log);
            &&& lines.contains(exec_line(words))
            &&& lines.contains("Restart=always"@)
            &&& lines.contains("StandardOutput=append:"@ + log)
            &&& lines.contains("StandardError=append:"@ + log)
            &&& lines.contains("WantedBy=default.target"@)
        }),
{
    let lines = unit_lines(words, path, log);
    assert(lines[8] == exec_line(words));
    assert(lines[11] == "Restart=always"@);
    assert(lines[13] == "StandardOutput=append:"@ + log);
    assert(lines[14] == "StandardError=append:"@ + log);
    assert(lines[17] == "WantedBy=default.target"@);
}

/// The making of the unit fails exactly as the making of the command line does, and otherwise
/// ends in the lines for the quoted command line, the search path and the log file.
pub proof fn law_made_unit_is_its_lines(
    linux: LinuxService,
    program: Result<Seq<Seq<char>>, Seq<char>>,
    path: Seq<char>,
)
    ensures
        ({
            let (next, _) = content_step(linux, RenderOf::Program, ReplyOf::Program(program));
            let end = content_step(linux, next, ReplyView::Env(service_variables(path))).0;
            match program {
                Err(e) => next == RenderView::Ended(Err(e)),
                Ok(words) => end == RenderView::Ended(
                    Ok(
                        join(
                            unit_lines(
                                all_quoted(words),
                                path,
                                decoded(service_log_path(Platform::Linux, linux.env)),
                            ),
                            "\n"@,
                        ) + "\n"@,
                    ),
                ),
            }
        }),
{
    if program is Ok {
        law_unit_is_its_lines(
            all_quoted(program->Ok_0),
            path,
            decoded(service_log_path(Platform::Linux, linux.env)),
        );
    }
}

} // verus!

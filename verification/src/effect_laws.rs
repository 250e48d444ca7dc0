//! What an effect asks for and an answer says is told in full.

use vstd::prelude::*;

use crate::calls::Next;
use crate::calls::NextView;
use crate::commands::output_view;
use crate::effect::outcome;
use crate::effect::outcome_view;
use crate::effect::result_view;
use crate::effect::shown;
use crate::effect::text_reply;
use crate::effect::yes;
use crate::effect::Effect;
use crate::effect::EffectOf;
use crate::effect::EffectView;
use crate::effect::Output;
use crate::effect::Reply;
use crate::effect::ReplyOf;
use crate::effect::ReplyView;
use crate::plist::readable;
use crate::search::text_view;
use crate::text::texts;
use crate::window::dir_view;

verus! {

/// Whether two lists hold the same texts.
pub open spec fn same_texts(a: Seq<String>, b: Seq<String>) -> bool {
    a.len() == b.len() && forall|i: int| 0 <= i < a.len() ==> (#[trigger] a[i])@ == b[i]@
}

proof fn lemma_texts(a: Seq<String>, b: Seq<String>)
    requires
        texts(a) == texts(b),
    ensures
        same_texts(a, b),
{
    assert(texts(a).len() == a.len());
    assert(texts(b).len() == b.len());
    assert forall|i: int| 0 <= i < a.len() implies (#[trigger] a[i])@ == b[i]@ by {
        assert(texts(a)[i] == a[i]@);
        assert(texts(b)[i] == b[i]@);
    }
}

/// Whether two effects ask for the same thing.
pub open spec fn same_effect(e: Effect, f: Effect) -> bool {
    match (e, f) {
        (EffectOf::Log(a), EffectOf::Log(b)) => a@ == b@,
        (EffectOf::Warn(a), EffectOf::Warn(b)) => a@ == b@,
        (
            EffectOf::Run { program: p, args: a },
            EffectOf::Run { program: q, args: b },
        ) => p@ == q@ && same_texts(a@, b@),
        (
            EffectOf::Spawn { program: p, args: a },
            EffectOf::Spawn { program: q, args: b },
        ) => p@ == q@ && same_texts(a@, b@),
        (
            EffectOf::SpawnOn { program: p, path: a },
            EffectOf::SpawnOn { program: q, path: b },
        ) => p@ == q@ && a@ == b@,
        (EffectOf::Launchctl(a), EffectOf::Launchctl(b)) => same_texts(a@, b@),
        (EffectOf::Systemctl(a), EffectOf::Systemctl(b)) => same_texts(a@, b@),
        (EffectOf::IsFile(a), EffectOf::IsFile(b)) => a@ == b@,
        (EffectOf::Exists(a), EffectOf::Exists(b)) => a@ == b@,
        (EffectOf::List(a), EffectOf::List(b)) => a@ == b@,
        (EffectOf::ReadText(a), EffectOf::ReadText(b)) => a@ == b@,
        (EffectOf::CreateDirs(a), EffectOf::CreateDirs(b)) => a@ == b@,
        (
            EffectOf::WriteText { path: p, text: a },
            EffectOf::WriteText { path: q, text: b },
        ) => p@ == q@ && a@ == b@,
        (EffectOf::WhichFromLoginShell(a), EffectOf::WhichFromLoginShell(b)) => a@ == b@,
        (EffectOf::WhichFromCommonPaths(a), EffectOf::WhichFromCommonPaths(b)) => a@ == b@,
        (EffectOf::Which(a), EffectOf::Which(b)) => a@ == b@,
        (EffectOf::NodeForDsh(a), EffectOf::NodeForDsh(b)) => a@ == b@,
        (EffectOf::ShowActionMsg(a), EffectOf::ShowActionMsg(b)) => a@ == b@,
        (EffectOf::SetTooltip(a), EffectOf::SetTooltip(b)) => a@ == b@,
        (
            EffectOf::SetMenuText { id: i, text: a },
            EffectOf::SetMenuText { id: j, text: b },
        ) => i@ == j@ && a@ == b@,
        (EffectOf::FindWindow(a), EffectOf::FindWindow(b)) => a@ == b@,
        (
            EffectOf::CreateWindow { label: l, url: u, title: t },
            EffectOf::CreateWindow { label: m, url: v, title: s },
        ) => l@ == m@ && u@ == v@ && t@ == s@,
        (
            EffectOf::BuildTray { id: i, tooltip: a },
            EffectOf::BuildTray { id: j, tooltip: b },
        ) => i@ == j@ && a@ == b@,
        _ => e == f,
    }
}

/// Effects that look the same ask for the same thing: nothing that an effect asks for is lost in
/// what the contracts say of it.
pub proof fn law_effects_are_told_in_full(e: Effect, f: Effect)
    requires
        e@ == f@,
    ensures
        same_effect(e, f),
{
    match (e, f) {
        (EffectOf::Run { args: a, .. }, EffectOf::Run { args: b, .. }) => lemma_texts(a@, b@),
        (EffectOf::Spawn { args: a, .. }, EffectOf::Spawn { args: b, .. }) => lemma_texts(a@, b@),
        (EffectOf::Launchctl(a), EffectOf::Launchctl(b)) => lemma_texts(a@, b@),
        (EffectOf::Systemctl(a), EffectOf::Systemctl(b)) => lemma_texts(a@, b@),
        _ => {},
    }
}

/// What an effect writes, runs or starts is told as it is.
pub proof fn law_effects_are_told_as_they_are(e: Effect)
    ensures
        e is Log <==> e@ is Log,
        e is WriteText <==> e@ is WriteText,
        e is Run <==> e@ is Run,
        e is Spawn <==> e@ is Spawn,
        e is SpawnOn <==> e@ is SpawnOn,
        e is Launchctl <==> e@ is Launchctl,
        e is Systemctl <==> e@ is Systemctl,
        e is ServiceStart <==> e@ is ServiceStart,
        e is ServiceStop <==> e@ is ServiceStop,
        e is ServiceRestart <==> e@ is ServiceRestart,
        e is ReadText <==> e@ is ReadText,
        e is IsFile <==> e@ is IsFile,
        e is Exists <==> e@ is Exists,
        e is ShowWindow <==> e@ is ShowWindow,
        e is HideWindow <==> e@ is HideWindow,
        e is PreventClose <==> e@ is PreventClose,
        e is OpenDshUi <==> e@ is OpenDshUi,
        e matches EffectOf::WriteText { path, text } ==> e@ == (EffectView::WriteText {
            path: path@,
            text: text@,
        }),
        e matches EffectOf::Log(t) ==> e@ == EffectView::Log(t@),
        e matches EffectOf::Exit(code) ==> e@ == EffectView::Exit(code),
        e matches EffectOf::SetAutostart(b) ==> e@ == EffectView::SetAutostart(b),
        e matches EffectOf::StoreAutostart(b) ==> e@ == EffectView::StoreAutostart(b),
        e matches EffectOf::ProbePort(p) ==> e@ == EffectView::ProbePort(p),
        e matches EffectOf::Sleep(ms) ==> e@ == EffectView::Sleep(ms),
{
}

/// A list of effects is told effect by effect, in its order.
pub proof fn law_lists_are_told_in_order(list: Seq<Effect>, i: int)
    requires
        0 <= i < list.len(),
    ensures
        shown(list).len() == list.len(),
        shown(list)[i] == list[i]@,
{
}

/// Whether two answers say the same.
pub open spec fn same_reply(a: Reply, b: Reply) -> bool {
    match (a, b) {
        (ReplyOf::Done(Err(x)), ReplyOf::Done(Err(y))) => x@ == y@,
        (ReplyOf::Text(Ok(x)), ReplyOf::Text(Ok(y))) => x@ == y@,
        (ReplyOf::Text(Err(x)), ReplyOf::Text(Err(y))) => x@ == y@,
        (ReplyOf::Command(Some(x)), ReplyOf::Command(Some(y))) => {
            &&& x.success == y.success
            &&& x.code == y.code
            &&& x.stdout@ == y.stdout@
            &&& x.stderr@ == y.stderr@
        },
        (ReplyOf::Found(Some(x)), ReplyOf::Found(Some(y))) => x@ == y@,
        (ReplyOf::Names(Some(x)), ReplyOf::Names(Some(y))) => {
            &&& x@.len() == y@.len()
            &&& forall|i: int| 0 <= i < x@.len() ==> (#[trigger] x@[i])@ == y@[i]@
        },
        (ReplyOf::SearchPath(Some(x)), ReplyOf::SearchPath(Some(y))) => x@ == y@,
        (ReplyOf::Program(Ok(x)), ReplyOf::Program(Ok(y))) => same_texts(x@, y@),
        (ReplyOf::Program(Err(x)), ReplyOf::Program(Err(y))) => x@ == y@,
        (ReplyOf::Env(x), ReplyOf::Env(y)) => {
            &&& x@.len() == y@.len()
            &&& forall|i: int|
                0 <= i < x@.len() ==> (#[trigger] x@[i]).0@ == y@[i].0@ && x@[i].1@ == y@[i].1@
        },
        _ => a == b,
    }
}

/// Answers that look the same say the same.
pub proof fn law_answers_are_told_in_full(a: Reply, b: Reply)
    requires
        a@ == b@,
    ensures
        same_reply(a, b),
{
    match (a, b) {
        (ReplyOf::Program(Ok(x)), ReplyOf::Program(Ok(y))) => lemma_texts(x@, y@),
        (ReplyOf::Names(Some(x)), ReplyOf::Names(Some(y))) => {
            let v = crate::effect::names(x@);
            let w = crate::effect::names(y@);
            assert(v == w);
            assert forall|i: int| 0 <= i < x@.len() implies (#[trigger] x@[i])@ == y@[i]@ by {
                assert(v[i] == x@[i]@);
                assert(w[i] == y@[i]@);
            }
        },
        (ReplyOf::Env(x), ReplyOf::Env(y)) => {
            let v = crate::effect::variables(x@);
            let w = crate::effect::variables(y@);
            assert(v == w);
            assert forall|i: int| 0 <= i < x@.len() implies (#[trigger] x@[i]).0@ == y@[i].0@
                && x@[i].1@ == y@[i].1@ by {
                assert(v[i] == (x@[i].0@, x@[i].1@));
                assert(w[i] == (y@[i].0@, y@[i].1@));
            }
        },
        _ => {},
    }
}

/// Yes is yes and no is no; any other kind of answer is no yes, no success and no text.
pub proof fn law_answers_are_taken_at_their_word(
    reply: ReplyView,
    b: bool,
    r: Result<(), Seq<char>>,
    t: Result<Seq<char>, Seq<char>>,
)
    ensures
        yes(ReplyOf::Flag(b)) == b,
        outcome(ReplyOf::Done(r)) == r,
        text_reply(ReplyOf::Text(t)) == t,
        yes(reply) ==> reply is Flag,
        outcome(reply) is Ok ==> reply is Done,
        text_reply(reply) is Ok ==> reply is Text,
{
}

/// What may be missing is told as missing where it is, and as what it is where it is not.
pub proof fn law_what_is_there_is_told(o: Output, t: String, p: Vec<u8>, s: &str, u: ())
    ensures
        output_view(Some(&o)) == Some(o@),
        output_view(None) is None,
        o@.success == o.success,
        o@.code == o.code,
        o@.stdout == o.stdout@,
        o@.stderr == o.stderr@,
        text_view(Some(t)) == Some(t@),
        text_view(None) is None,
        dir_view(Some(&p)) == Some(p@),
        dir_view(None) is None,
        readable(Some(s)) == Some(s@),
        readable(None) is None,
        result_view(Ok(t)) == Ok::<Seq<char>, Seq<char>>(t@),
        result_view(Err(t)) == Err::<Seq<char>, Seq<char>>(t@),
        outcome_view(Ok(u)) == Ok::<(), Seq<char>>(u),
        outcome_view(Err(t)) == Err::<(), Seq<char>>(t@),
{
}

/// What the operations on a stack ask for next is told as it is.
pub proof fn law_next_is_told(e: Effect, r: Reply)
    ensures
        Next::Do(e)@ == NextView::Do(e@),
        Next::Done(r)@ == NextView::Done(r@),
        Next::Go(r)@ == NextView::Go(r@),
{
}

} // verus!

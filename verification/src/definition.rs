//! What the operations on a service definition have in common.

use vstd::prelude::*;

use crate::effect::outcome;
use crate::effect::outcome_of;
use crate::effect::result_view;
use crate::effect::shown;
use crate::effect::Effect;
use crate::effect::EffectOf;
use crate::effect::EffectView;
use crate::effect::Reply;
use crate::effect::ReplyView;
use crate::native::decode;
use crate::native::decoded;
use crate::text::concat;
use crate::text::concat3;
use crate::text::texts;
use crate::text::truth;
use crate::text::truth_of;

verus! {

/// A line for the log.
pub fn log(msg: &str) -> (r: Effect)
    ensures
        r@ == EffectView::Log(msg@),
{
    EffectOf::Log(msg.to_string())
}

/// The states of the making of a definition, over texts `T` and lists of texts `L`.
#[derive(Debug, PartialEq, Eq)]
pub enum RenderOf<T, L> {
    /// Nothing has happened yet.
    Start,
    /// The command line is being made.
    Program,
    /// This is the command line, and the environment is being made.
    Env(L),
    /// The definition is made, or cannot be.
    Ended(Result<T, T>),
}

/// The states of the making of a definition.
pub type Render = RenderOf<String, Vec<String>>;

/// The states of the making of a definition as the contracts speak of them.
pub type RenderView = RenderOf<Seq<char>, Seq<Seq<char>>>;

impl RenderOf<String, Vec<String>> {
    pub open spec fn view(&self) -> RenderView {
        match *self {
            RenderOf::Start => RenderOf::Start,
            RenderOf::Program => RenderOf::Program,
            RenderOf::Env(l) => RenderOf::Env(texts(l@)),
            RenderOf::Ended(r) => RenderOf::Ended(result_view(r)),
        }
    }
}

/// The line that tells whether there is a definition.
pub open spec fn looked_line(path: Seq<u8>, exists: bool) -> Seq<char> {
    "ensure_definition: path="@ + decoded(path) + " exists="@ + truth(exists)
}

/// The line that tells whether there is a definition.
pub fn looked(path: &Vec<u8>, exists: bool) -> (r: String)
    ensures
        r@ == looked_line(path@, exists),
{
    let mut r = concat3("ensure_definition: path=", decode(path).as_str(), " exists=");
    r.append(truth_of(exists));
    r
}

/// A log line with what went wrong, where something did.
pub open spec fn failure(what: Seq<char>, reply: ReplyView) -> Seq<EffectView> {
    match outcome(reply) {
        Ok(_) => seq![],
        Err(e) => seq![EffectOf::Log(what + e)],
    }
}

/// A log line with what went wrong, where something did.
pub fn failure_of(what: &str, reply: Reply) -> (r: Vec<Effect>)
    ensures
        shown(r@) == failure(what@, reply@),
{
    let ghost whole = failure(what@, reply@);
    let mut effects: Vec<Effect> = Vec::new();
    match outcome_of(reply) {
        Ok(_) => {},
        Err(e) => {
            effects.push(EffectOf::Log(concat(what, e.as_str())));
        },
    }
    assert(shown(effects@) =~= whole);
    effects
}

} // verus!

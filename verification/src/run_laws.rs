//! Whole runs of operations that call each other: what the surroundings are asked from the first
//! step to the last, what they answer, and what it all ends in.

use vstd::prelude::*;

use crate::calls::begun;
use crate::calls::stack_step;
use crate::calls::task_answer;
use crate::calls::task_step;
use crate::calls::FrameView;
use crate::calls::NextOf;
use crate::calls::TaskView;
use crate::calls::World;
use crate::effect::EffectView;
use crate::effect::ReplyOf;
use crate::effect::ReplyView;
use crate::locations::Platform;
use crate::locations::Surroundings;
use crate::search::text_view;

verus! {

// ---- runs ----

/// What the surroundings were asked, and what they answered.
pub type Exchange = (EffectView, ReplyView);

/// What the operations know at one step, and what the surroundings answer if they are asked.
pub type Moment = (World, ReplyView);

/// The run of a stack from its first step to its last, one moment for each step: what was asked
/// and answered on the way, and the answer at the end. There is none where the moments are too
/// few or too many.
pub open spec fn finished(stack: Seq<FrameView>, reply: ReplyView, moments: Seq<Moment>) -> Option<
    (Seq<Exchange>, ReplyView),
>
    decreases moments.len(),
{
    if moments.len() == 0 {
        None
    } else {
        let (world, answer) = moments[0];
        let (next, outcome) = stack_step(world, stack, reply);
        let rest = moments.drop_first();
        match outcome {
            NextOf::Done(r) => if rest.len() == 0 {
                Some((Seq::empty(), r))
            } else {
                None
            },
            NextOf::Go(r) => finished(next, r, rest),
            NextOf::Do(e) => match finished(next, answer, rest) {
                Some((x, r)) => Some((seq![(e, answer)] + x, r)),
                None => None,
            },
        }
    }
}

/// An operation with nothing below it and these effects still to be begun.
pub open spec fn alone(task: TaskView, pending: Seq<EffectView>) -> Seq<FrameView> {
    seq![FrameView { task, pending }]
}

/// The run of one operation.
pub open spec fn done(
    task: TaskView,
    pending: Seq<EffectView>,
    reply: ReplyView,
    moments: Seq<Moment>,
) -> Option<(Seq<Exchange>, ReplyView)> {
    finished(alone(task, pending), reply, moments)
}

/// Where a run takes place: what stays the same in all of its worlds.
pub struct Place {
    /// The platform.
    pub platform: Platform,
    /// Where files go under launchd.
    pub mac_env: Surroundings,
    /// The user's number.
    pub uid: Seq<char>,
    /// Where files go under systemd.
    pub linux_env: Surroundings,
    /// The launcher's own search path.
    pub own: Option<Seq<char>>,
    /// The file to which the service writes its output.
    pub log_file: Seq<u8>,
    /// The stored choice about login, where it stays the same.
    pub login: Option<bool>,
}

/// Whether a world is one of a place.
pub open spec fn lies_in(place: Place, w: World) -> bool {
    &&& w.platform == place.platform
    &&& w.mac.env == place.mac_env
    &&& w.mac.uid@ == place.uid
    &&& w.linux.env == place.linux_env
    &&& text_view(w.own) == place.own
    &&& w.log_file@ == place.log_file
    &&& place.login matches Some(b) ==> w.mac.autostart == b && w.linux.autostart == b
}

/// Whether an answer fits into a machine: a listing has no more names than can be counted.
pub open spec fn countable(reply: ReplyView) -> bool {
    reply matches ReplyOf::Names(Some(names)) ==> names.len() <= usize::MAX
}

/// Whether a run takes place there, and all of its answers fit into a machine.
pub open spec fn alike(place: Place, moments: Seq<Moment>) -> bool {
    forall|i: int|
        0 <= i < moments.len() ==> lies_in(place, (#[trigger] moments[i]).0) && countable(
            moments[i].1,
        )
}

/// Whether the exchanges `x` and the answer `r` are those of a whole run of the operation that an
/// effect names, or, where it names none, the exchange of that effect itself.
pub open spec fn carried_out(
    place: Place,
    effect: EffectView,
    x: Seq<Exchange>,
    r: ReplyView,
) -> bool {
    match begun(place.platform, effect) {
        None => x == seq![(effect, r)],
        Some(task) => exists|moments: Seq<Moment>|
            alike(place, moments) && #[trigger] done(task, Seq::empty(), ReplyOf::Nothing, moments)
                == Some((x, r)),
    }
}

/// What stands on top of other operations runs as it would alone, and its answer goes to the
/// uppermost of them.
pub proof fn lemma_split(
    below: Seq<FrameView>,
    upper: Seq<FrameView>,
    reply: ReplyView,
    moments: Seq<Moment>,
) -> (r: (int, Seq<Exchange>, ReplyView, Seq<Exchange>))
    requires
        below.len() > 0,
        upper.len() > 0,
        finished(below + upper, reply, moments) is Some,
    ensures
        ({
            let (k, x1, a1, x2) = r;
            let (x, a) = finished(below + upper, reply, moments)->0;
            &&& 0 < k <= moments.len()
            &&& finished(upper, reply, moments.take(k)) == Some((x1, a1))
            &&& finished(below, a1, moments.skip(k)) == Some((x2, a))
            &&& x == x1 + x2
        }),
    decreases moments.len(),
{
    let (world, answer) = moments[0];
    let all = below + upper;
    let (next, outcome) = stack_step(world, all, reply);
    let (up, out) = stack_step(world, upper, reply);
    let rest = moments.drop_first();
    let (x, a) = finished(all, reply, moments)->0;
    assert(all.last() == upper.last());
    assert(all.drop_last() =~= below + upper.drop_last());
    let top = upper.last();
    if top.pending.len() == 0 && task_answer(top.task) is Some && upper.len() == 1 {
        let one = moments.take(1);
        assert(upper.drop_last().len() == 0);
        assert(all.drop_last() =~= below);
        assert(one.drop_first().len() == 0);
        assert(moments.skip(1) =~= rest);
        let ans = task_answer(top.task)->0;
        assert(finished(upper, reply, one) == Some((Seq::<Exchange>::empty(), ans)));
        assert(x =~= Seq::<Exchange>::empty() + x);
        (1, Seq::empty(), ans, x)
    } else {
        assert(next =~= below + up);
        assert(out == outcome);
        assert(up.len() > 0);
        let input = match outcome {
            NextOf::Go(r) => r,
            _ => answer,
        };
        assert(finished(next, input, rest) is Some);
        let (k, x1, a1, x2) = lemma_split(below, up, input, rest);
        let more = moments.take(k + 1);
        assert(more.drop_first() =~= rest.take(k));
        assert(moments.skip(k + 1) =~= rest.skip(k));
        match outcome {
            NextOf::Do(e) => {
                let first = seq![(e, answer)];
                assert(first + (x1 + x2) =~= (first + x1) + x2);
                (k + 1, first + x1, a1, x2)
            },
            _ => (k + 1, x1, a1, x2),
        }
    }
}

/// An operation that has ended answers at once and asks nothing.
pub proof fn lemma_end(task: TaskView, reply: ReplyView, moments: Seq<Moment>)
    requires
        task_answer(task) is Some,
        done(task, Seq::empty(), reply, moments) is Some,
    ensures
        done(task, Seq::empty(), reply, moments) == Some(
            (Seq::<Exchange>::empty(), task_answer(task)->0),
        ),
{
    assert(alone(task, Seq::empty()).drop_last().len() == 0);
}

/// An operation that has not ended and waits for nothing takes its next step.
pub proof fn lemma_step(place: Place, task: TaskView, reply: ReplyView, moments: Seq<Moment>)
    requires
        task_answer(task) is None,
        done(task, Seq::empty(), reply, moments) is Some,
        alike(place, moments),
    ensures
        moments.len() > 0,
        ({
            let (next, pending) = task_step(moments[0].0, task, reply);
            done(task, Seq::empty(), reply, moments) == done(
                next,
                pending,
                ReplyOf::Nothing,
                moments.drop_first(),
            )
        }),
        alike(place, moments.drop_first()),
        lies_in(place, moments[0].0),
{
    let (next, pending) = task_step(moments[0].0, task, reply);
    let s = alone(task, Seq::empty());
    assert(s.drop_last().push(FrameView { task: next, pending }) =~= alone(next, pending));
    lemma_alike(place, moments, 1);
    assert(moments.skip(1) =~= moments.drop_first());
}

proof fn lemma_alike(place: Place, moments: Seq<Moment>, k: int)
    requires
        alike(place, moments),
        0 <= k <= moments.len(),
    ensures
        alike(place, moments.take(k)),
        alike(place, moments.skip(k)),
{
    assert forall|i: int| 0 <= i < k implies moments.take(k)[i] == #[trigger] moments[i] by {}
    let later = moments.skip(k);
    assert forall|i: int| 0 <= i < later.len() implies lies_in(place, (#[trigger] later[i]).0)
        && countable(later[i].1) by {
        assert(later[i] == moments[k + i]);
    }
}

/// The first of what an operation has asked for is carried out, and its answer goes on.
pub proof fn lemma_ask(
    place: Place,
    task: TaskView,
    pending: Seq<EffectView>,
    reply: ReplyView,
    moments: Seq<Moment>,
) -> (r: (Seq<Exchange>, ReplyView, Seq<Moment>, Seq<Exchange>))
    requires
        pending.len() > 0,
        done(task, pending, reply, moments) is Some,
        alike(place, moments),
    ensures
        ({
            let (x1, a1, later, x2) = r;
            let (x, a) = done(task, pending, reply, moments)->0;
            &&& carried_out(place, pending[0], x1, a1)
            &&& begun(place.platform, pending[0]) is None ==> countable(a1)
            &&& done(task, pending.drop_first(), a1, later) == Some((x2, a))
            &&& alike(place, later)
            &&& later.len() < moments.len()
            &&& x == x1 + x2
        }),
{
    let s = alone(task, pending);
    let rest = moments.drop_first();
    let kept = alone(task, pending.drop_first());
    let (x, a) = done(task, pending, reply, moments)->0;
    let effect = pending[0];
    lemma_alike(place, moments, 1);
    assert(moments.skip(1) =~= rest);
    assert(moments[0].0.platform == place.platform);
    assert(s.drop_last().push(FrameView { task, pending: pending.drop_first() }) =~= kept);
    match begun(place.platform, effect) {
        None => {
            let answer = moments[0].1;
            let (x2, _) = finished(kept, answer, rest)->0;
            (seq![(effect, answer)], answer, rest, x2)
        },
        Some(t) => {
            let upper = alone(t, Seq::empty());
            assert(kept.push(FrameView { task: t, pending: Seq::empty() }) =~= kept + upper);
            let (k, x1, a1, x2) = lemma_split(kept, upper, ReplyOf::Nothing, rest);
            lemma_alike(place, rest, k);
            assert(done(t, Seq::empty(), ReplyOf::Nothing, rest.take(k)) == Some((x1, a1)));
            (x1, a1, rest.skip(k), x2)
        },
    }
}

/// The same where it is the only one.
pub proof fn lemma_ask_last(
    place: Place,
    task: TaskView,
    pending: Seq<EffectView>,
    reply: ReplyView,
    moments: Seq<Moment>,
) -> (r: (Seq<Exchange>, ReplyView, Seq<Moment>, Seq<Exchange>))
    requires
        pending.len() == 1,
        done(task, pending, reply, moments) is Some,
        alike(place, moments),
    ensures
        ({
            let (x1, a1, later, x2) = r;
            let (x, a) = done(task, pending, reply, moments)->0;
            &&& carried_out(place, pending[0], x1, a1)
            &&& begun(place.platform, pending[0]) is None ==> countable(a1)
            &&& done(task, Seq::empty(), a1, later) == Some((x2, a))
            &&& alike(place, later)
            &&& later.len() < moments.len()
            &&& x == x1 + x2
        }),
{
    assert(pending.drop_first() =~= Seq::empty());
    lemma_ask(place, task, pending, reply, moments)
}

/// The run of the operation that an effect names.
pub proof fn lemma_unfold(
    place: Place,
    effect: EffectView,
    x: Seq<Exchange>,
    r: ReplyView,
) -> (moments: Seq<Moment>)
    requires
        begun(place.platform, effect) is Some,
        carried_out(place, effect, x, r),
    ensures
        alike(place, moments),
        done(begun(place.platform, effect)->0, Seq::empty(), ReplyOf::Nothing, moments) == Some(
            (x, r),
        ),
{
    let task = begun(place.platform, effect)->0;
    choose|moments: Seq<Moment>|
        alike(place, moments) && #[trigger] done(task, Seq::empty(), ReplyOf::Nothing, moments)
            == Some((x, r))
}

// ---- what a run can hold ----

/// Whether nothing leads out of some operations and effects: what the operations ask for is among
/// the effects, and what these name is among the operations.
pub open spec fn closed_under(
    place: Place,
    tasks: spec_fn(TaskView) -> bool,
    effects: spec_fn(EffectView) -> bool,
) -> bool {
    &&& forall|e: EffectView|
        effects(e) ==> (#[trigger] begun(place.platform, e) matches Some(t) ==> tasks(t))
    &&& forall|w: World, t: TaskView, r: ReplyView|
        lies_in(place, w) && tasks(t) ==> {
            let step = #[trigger] task_step(w, t, r);
            stays_within(step.0, step.1, tasks, effects)
        }
}

/// Whether the outcome of a step is among some operations and effects.
pub open spec fn stays_within(
    task: TaskView,
    asked: Seq<EffectView>,
    tasks: spec_fn(TaskView) -> bool,
    effects: spec_fn(EffectView) -> bool,
) -> bool {
    tasks(task) && forall|i: int| 0 <= i < asked.len() ==> effects(#[trigger] asked[i])
}

/// Whether a stack holds only some operations and effects.
pub open spec fn holds_only(
    stack: Seq<FrameView>,
    tasks: spec_fn(TaskView) -> bool,
    effects: spec_fn(EffectView) -> bool,
) -> bool {
    forall|i: int|
        0 <= i < stack.len() ==> stays_within(
            (#[trigger] stack[i]).task,
            stack[i].pending,
            tasks,
            effects,
        )
}

/// A run of operations out of which nothing leads asks the surroundings for nothing but the
/// effects that belong to them.
pub proof fn lemma_only(
    place: Place,
    stack: Seq<FrameView>,
    reply: ReplyView,
    moments: Seq<Moment>,
    tasks: spec_fn(TaskView) -> bool,
    effects: spec_fn(EffectView) -> bool,
)
    requires
        finished(stack, reply, moments) is Some,
        alike(place, moments),
        closed_under(place, tasks, effects),
        holds_only(stack, tasks, effects),
    ensures
        ({
            let (x, _) = finished(stack, reply, moments)->0;
            forall|i: int|
                0 <= i < x.len() ==> effects((#[trigger] x[i]).0) && begun(place.platform, x[i].0)
                    is None
        }),
    decreases moments.len(),
{
    let (w, answer) = moments[0];
    let (next, outcome) = stack_step(w, stack, reply);
    let rest = moments.drop_first();
    lemma_alike(place, moments, 1);
    assert(moments.skip(1) =~= rest);
    assert(lies_in(place, moments[0].0));
    if outcome !is Done {
        let top = stack.last();
        let below = stack.drop_last();
        assert(top == stack[stack.len() - 1]);
        assert(stays_within(top.task, top.pending, tasks, effects));
        assert(holds_only(next, tasks, effects)) by {
            assert forall|i: int| 0 <= i < next.len() implies stays_within(
                (#[trigger] next[i]).task,
                next[i].pending,
                tasks,
                effects,
            ) by {
                if i < below.len() {
                    assert(next[i] == stack[i]);
                } else if top.pending.len() > 0 {
                    assert(effects(top.pending[0]));
                    if i == below.len() {
                        let kept = top.pending.drop_first();
                        assert forall|k: int| 0 <= k < kept.len() implies effects(
                            #[trigger] kept[k],
                        ) by {
                            assert(kept[k] == top.pending[k + 1]);
                        }
                    }
                } else {
                    let step = task_step(w, top.task, reply);
                    assert(stays_within(step.0, step.1, tasks, effects));
                }
            }
        }
        let input = match outcome {
            NextOf::Go(r) => r,
            _ => answer,
        };
        lemma_only(place, next, input, rest, tasks, effects);
        let (x, _) = finished(stack, reply, moments)->0;
        let (later, _) = finished(next, input, rest)->0;
        assert forall|i: int| 0 <= i < x.len() implies effects((#[trigger] x[i]).0) && begun(
            place.platform,
            x[i].0,
        ) is None by {
            match outcome {
                NextOf::Do(e) => {
                    if i == 0 {
                        assert(effects(top.pending[0]));
                    } else {
                        assert(x[i] == later[i - 1]);
                    }
                },
                _ => {},
            }
        }
    }
}

// ---- what was asked ----

/// What `f` makes of the exchanges for which it makes anything, in their order.
pub open spec fn picked<A>(x: Seq<Exchange>, f: spec_fn(Exchange) -> Option<A>) -> Seq<A>
    decreases x.len(),
{
    if x.len() == 0 {
        Seq::empty()
    } else {
        let rest = picked(x.drop_last(), f);
        match f(x.last()) {
            Some(a) => rest.push(a),
            None => rest,
        }
    }
}

pub proof fn lemma_picked_add<A>(
    x: Seq<Exchange>,
    y: Seq<Exchange>,
    f: spec_fn(Exchange) -> Option<A>,
)
    ensures
        picked(x + y, f) == picked(x, f) + picked(y, f),
    decreases y.len(),
{
    if y.len() == 0 {
        assert(x + y =~= x);
    } else {
        lemma_picked_add(x, y.drop_last(), f);
        assert((x + y).drop_last() =~= x + y.drop_last());
        assert(picked(x + y, f) =~= picked(x, f) + picked(y, f));
    }
}

pub proof fn lemma_picked_none<A>(x: Seq<Exchange>, f: spec_fn(Exchange) -> Option<A>)
    requires
        forall|i: int| 0 <= i < x.len() ==> f(#[trigger] x[i]) is None,
    ensures
        picked(x, f) == Seq::<A>::empty(),
    decreases x.len(),
{
    if x.len() > 0 {
        let y = x.drop_last();
        assert forall|i: int| 0 <= i < y.len() implies f(#[trigger] y[i]) is None by {
            assert(y[i] == x[i]);
        }
        lemma_picked_none(y, f);
    }
}

pub proof fn lemma_picked_one<A>(e: Exchange, f: spec_fn(Exchange) -> Option<A>)
    ensures
        picked(seq![e], f) == match f(e) {
            Some(a) => seq![a],
            None => Seq::<A>::empty(),
        },
{
    let x = seq![e];
    assert(x.drop_last() =~= Seq::<Exchange>::empty());
    assert(picked(x.drop_last(), f) =~= Seq::<A>::empty());
    if let Some(a) = f(e) {
        assert(Seq::<A>::empty().push(a) =~= seq![a]);
    }
}

} // verus!

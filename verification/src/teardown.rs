//! Teardown: everything goes, and the context goes last.

use vstd::prelude::*;
use crate::action::Action;
use crate::model::{lemma_close_keeps_wf, Phase, SessionState};
use crate::resource::{count, Resource};
use crate::runs::{
    completes, lemma_completed_release, lemma_completes_step, lemma_release_runs_to_the_end,
    releases_in_order, run, trace,
};

verus! {

/// The releases of the teardown of a built session: the weights, the
/// module, the queue, and the context after them.
pub open spec fn teardown_script() -> Seq<Action> {
    seq![
        Action::Release(Resource::ConvWeights),
        Action::Release(Resource::OutputWeights),
        Action::Release(Resource::Module),
        Action::Release(Resource::Stream),
        Action::Release(Resource::Context),
    ]
}

/// How teardown ends, whenever it is asked for: once the session has come
/// to rest it holds nothing, and on the way it has asked for one release
/// for each resource that it held and for nothing else, in the one release
/// order, so that the weights, the module and the queue have gone before
/// the context.
pub proof fn lemma_teardown_outcome(s: SessionState, events: Seq<bool>)
    requires
        s.wf(),
        completes(s.close(), events),
    ensures
        events.len() == count(s.held),
        run(s.close(), events).held == Set::<Resource>::empty(),
        run(s.close(), events).phase == Phase::Closed || run(s.close(), events).phase
            == Phase::Failed,
        trace(s.close(), events).len() == events.len(),
        releases_in_order(trace(s.close(), events), s.held),
{
    let c = s.close();
    lemma_close_keeps_wf(s);
    lemma_completes_step(c, events);
    if c.phase == Phase::Closing {
        lemma_completed_release(c, events);
        lemma_release_runs_to_the_end(c, events);
    } else {
        assert(trace(c, events) =~= Seq::<Action>::empty());
    }
}

/// The teardown of a built session asks for the five releases of the
/// teardown script, and nothing is held after them.
pub proof fn lemma_teardown_of_a_built_session(s: SessionState, events: Seq<bool>)
    requires
        s.wf(),
        s.phase == Phase::Ready,
        completes(s.close(), events),
    ensures
        trace(s.close(), events) == teardown_script(),
        run(s.close(), events).phase == Phase::Closed,
        run(s.close(), events).held == Set::<Resource>::empty(),
{
    let c = s.close();
    lemma_teardown_outcome(s, events);
    assert(s.held.contains(Resource::Context));
    assert(events.len() == 5);
    let e1 = events.drop_first();
    let e2 = e1.drop_first();
    let e3 = e2.drop_first();
    let e4 = e3.drop_first();
    let s1 = c.advance(events.first());
    let s2 = s1.advance(e1.first());
    let s3 = s2.advance(e2.first());
    let s4 = s3.advance(e3.first());
    let s5 = s4.advance(e4.first());
    assert(c.action() == Action::Release(Resource::ConvWeights));
    assert(s1.held.contains(Resource::Context));
    assert(s1.action() == Action::Release(Resource::OutputWeights));
    assert(s2.held.contains(Resource::Context));
    assert(s2.action() == Action::Release(Resource::Module));
    assert(s3.held.contains(Resource::Context));
    assert(s3.action() == Action::Release(Resource::Stream));
    assert(s4.held.contains(Resource::Context));
    assert(s4.action() == Action::Release(Resource::Context));
    assert(trace(s5, e4.drop_first()) =~= Seq::<Action>::empty());
    assert(trace(s4, e4) =~= seq![Action::Release(Resource::Context)]);
    assert(trace(s3, e3) =~= seq![
        Action::Release(Resource::Stream),
        Action::Release(Resource::Context),
    ]);
    assert(trace(s2, e2) =~= seq![
        Action::Release(Resource::Module),
        Action::Release(Resource::Stream),
        Action::Release(Resource::Context),
    ]);
    assert(trace(s1, e1) =~= seq![
        Action::Release(Resource::OutputWeights),
        Action::Release(Resource::Module),
        Action::Release(Resource::Stream),
        Action::Release(Resource::Context),
    ]);
    assert(trace(c, events) =~= teardown_script());
    assert(run(c, events).phase == Phase::Closed) by {
        lemma_release_runs_to_the_end(c, events);
    }
}

} // verus!

//! Whole runs of a session: what it asks for and where it ends, for every
//! sequence of outcomes that the host may report.

use vstd::prelude::*;
use crate::action::Action;
use crate::model::{lemma_advance_keeps_wf, Phase, SessionState};
use crate::resource::{count, first_release, Resource};

verus! {

/// The state after the host has reported `events`, one outcome for each
/// action in turn.
pub open spec fn run(s: SessionState, events: Seq<bool>) -> SessionState
    decreases events.len(),
{
    if events.len() == 0 {
        s
    } else {
        run(s.advance(events.first()), events.drop_first())
    }
}

/// The actions that the host is asked for while it reports `events`.
pub open spec fn trace(s: SessionState, events: Seq<bool>) -> Seq<Action>
    decreases events.len(),
{
    if events.len() == 0 {
        Seq::empty()
    } else {
        seq![s.action()] + trace(s.advance(events.first()), events.drop_first())
    }
}

/// Whether each of `events` is an answer that `perform` gave, or may have
/// given, for the action that was due when it was reported.
pub open spec fn reported<F: Fn(Action) -> bool>(
    perform: F,
    s: SessionState,
    events: Seq<bool>,
) -> bool {
    forall|i: int|
        0 <= i < events.len() ==> call_ensures(
            perform,
            (#[trigger] run(s, events.take(i)).action(),),
            events[i],
        )
}

/// Whether `events` carry the session from `s` to its next rest and no
/// further: something is due before each of them, and nothing after the
/// last.
pub open spec fn completes(s: SessionState, events: Seq<bool>) -> bool {
    &&& run(s, events).idle()
    &&& forall|i: int| 0 <= i < events.len() ==> !(#[trigger] run(s, events.take(i))).idle()
}

/// The number of successes before the first failure.
pub open spec fn first_failure(events: Seq<bool>) -> nat
    decreases events.len(),
{
    if events.len() == 0 || !events.first() {
        0
    } else {
        1 + first_failure(events.drop_first())
    }
}

/// `n` successes in a row.
pub open spec fn all_ok(n: nat) -> Seq<bool> {
    Seq::new(n, |i: int| true)
}

/// One more outcome adds one action to the trace, the one that was due
/// where the run stood, and one step to the run.
pub proof fn lemma_run_push(s: SessionState, events: Seq<bool>, e: bool)
    ensures
        run(s, events.push(e)) == run(s, events).advance(e),
        trace(s, events.push(e)) == trace(s, events).push(run(s, events).action()),
    decreases events.len(),
{
    let more = events.push(e);
    if events.len() == 0 {
        assert(more.drop_first() =~= Seq::<bool>::empty());
        assert(run(s.advance(e), more.drop_first()) == s.advance(e));
        assert(trace(s.advance(e), more.drop_first()) =~= Seq::<Action>::empty());
        assert(trace(s, more) =~= trace(s, events).push(s.action()));
    } else {
        let t = s.advance(events.first());
        lemma_run_push(t, events.drop_first(), e);
        assert(more.drop_first() =~= events.drop_first().push(e));
        assert(more.first() == events.first());
        assert(trace(s, more) =~= trace(s, events).push(run(s, events).action()));
    }
}

/// A run over two sequences of outcomes is the run over the first and
/// then, from where that ends, the run over the second.
pub proof fn lemma_run_append(s: SessionState, first: Seq<bool>, second: Seq<bool>)
    ensures
        run(s, first + second) == run(run(s, first), second),
        trace(s, first + second) == trace(s, first) + trace(run(s, first), second),
    decreases first.len(),
{
    let all = first + second;
    if first.len() == 0 {
        assert(all =~= second);
        assert(trace(s, first) + trace(s, second) =~= trace(s, second));
    } else {
        let t = s.advance(first.first());
        lemma_run_append(t, first.drop_first(), second);
        assert(all.drop_first() =~= first.drop_first() + second);
        assert(all.first() == first.first());
        assert(trace(s, all) =~= trace(s, first) + trace(run(s, first), second));
    }
}

/// A run that completes and has an outcome begins where something is
/// due, and what follows its first outcome completes from the next state.
pub proof fn lemma_completes_step(s: SessionState, events: Seq<bool>)
    requires
        completes(s, events),
    ensures
        s.idle() <==> events.len() == 0,
        events.len() > 0 ==> completes(s.advance(events.first()), events.drop_first()),
{
    if events.len() > 0 {
        let t = s.advance(events.first());
        let rest = events.drop_first();
        assert(events.take(0) =~= Seq::<bool>::empty());
        assert(run(s, events.take(0)) == s);
        assert forall|i: int| 0 <= i < rest.len() implies !(#[trigger] run(
            t,
            rest.take(i),
        )).idle() by {
            let longer = events.take(i + 1);
            assert(longer.drop_first() =~= rest.take(i));
            assert(longer.first() == events.first());
            assert(run(s, longer) == run(t, rest.take(i)));
        }
    }
}

/// Where every outcome is a success, the first failure lies behind them
/// all.
pub proof fn lemma_no_failure(events: Seq<bool>)
    requires
        forall|i: int| 0 <= i < events.len() ==> events[i],
    ensures
        first_failure(events) == events.len(),
    decreases events.len(),
{
    if events.len() > 0 {
        let rest = events.drop_first();
        assert forall|i: int| 0 <= i < rest.len() implies rest[i] by {
            assert(rest[i] == events[i + 1]);
        }
        lemma_no_failure(rest);
    }
}

/// Before the first failure every outcome is a success.
pub proof fn lemma_first_failure_prefix(events: Seq<bool>, n: nat)
    requires
        first_failure(events) >= n,
    ensures
        first_failure(events) <= events.len(),
        forall|i: int| 0 <= i < n && i < events.len() ==> events[i],
    decreases events.len(),
{
    if events.len() > 0 && events.first() {
        let rest = events.drop_first();
        if n > 0 {
            lemma_first_failure_prefix(rest, (n - 1) as nat);
        } else {
            lemma_first_failure_prefix(rest, 0);
        }
        assert forall|i: int| 0 <= i < n && i < events.len() implies events[i] by {
            if i > 0 {
                assert(events[i] == rest[i - 1]);
            }
        }
    }
}

/// Whether `actions` are releases in the one release order, of resources
/// out of `held`.
pub open spec fn releases_in_order(actions: Seq<Action>, held: Set<Resource>) -> bool {
    &&& forall|i: int|
        0 <= i < actions.len() ==> (#[trigger] actions[i]) is Release && held.contains(
            actions[i]->Release_0,
        )
    &&& forall|i: int, j: int|
        0 <= i < j < actions.len() ==> (#[trigger] actions[i])->Release_0.release_rank() < (
        #[trigger] actions[j])->Release_0.release_rank()
}

/// Once a session gives back what it holds, it gives back all of it:
/// after as many releases as there are resources nothing is left, the
/// session has ended, and the releases came in the one release order.
pub proof fn lemma_release_runs_to_the_end(s: SessionState, events: Seq<bool>)
    requires
        s.wf(),
        s.phase == Phase::Aborting || s.phase == Phase::Closing,
        events.len() == count(s.held),
    ensures
        run(s, events).held == Set::<Resource>::empty(),
        run(s, events).phase == if s.phase == Phase::Aborting {
            Phase::Failed
        } else {
            Phase::Closed
        },
        run(s, events).fault == s.fault,
        trace(s, events).len() == events.len(),
        releases_in_order(trace(s, events), s.held),
    decreases events.len(),
{
    let r = first_release(s.held);
    let t = s.advance(events.first());
    let rest = events.drop_first();
    lemma_advance_keeps_wf(s, events.first());
    assert(t.held == s.held.remove(r));
    if t.held == Set::<Resource>::empty() {
        assert(rest.len() == 0);
        assert(run(t, rest) == t);
        assert(trace(t, rest) =~= Seq::<Action>::empty());
        assert(trace(s, events) =~= seq![Action::Release(r)]);
    } else {
        lemma_release_runs_to_the_end(t, rest);
        let tail = trace(t, rest);
        let all = trace(s, events);
        assert(all =~= seq![Action::Release(r)] + tail);
        assert forall|i: int| 0 <= i < all.len() implies (#[trigger] all[i]) is Release
            && s.held.contains(all[i]->Release_0) by {
            if i > 0 {
                assert(all[i] == tail[i - 1]);
            }
        }
        assert forall|i: int, j: int| 0 <= i < j < all.len() implies (#[trigger] all[i])
            ->Release_0.release_rank() < (#[trigger] all[j])->Release_0.release_rank() by {
            assert(all[j] == tail[j - 1]);
            if i > 0 {
                assert(all[i] == tail[i - 1]);
            } else {
                assert(t.held.contains(tail[j - 1]->Release_0));
            }
        }
    }
}

/// A session that gives back what it holds comes to rest after exactly
/// one release for each resource.
pub proof fn lemma_completed_release(s: SessionState, events: Seq<bool>)
    requires
        s.wf(),
        s.phase == Phase::Aborting || s.phase == Phase::Closing,
        completes(s, events),
    ensures
        events.len() == count(s.held),
    decreases events.len(),
{
    lemma_completes_step(s, events);
    let t = s.advance(events.first());
    lemma_advance_keeps_wf(s, events.first());
    lemma_completes_step(t, events.drop_first());
    if !t.idle() {
        lemma_completed_release(t, events.drop_first());
    } else {
        assert(t.held == Set::<Resource>::empty());
    }
}

} // verus!

//! Construction from the first setup action to a built session, or to a
//! clean failure.

use vstd::prelude::*;
use crate::action::{acquired, setup_script, Action};
use crate::error::PipelineError;
use crate::model::{lemma_acquired_in_setup, lemma_advance_keeps_wf, Phase, SessionState};
use crate::resource::{count, Resource};
use crate::runs::{
    all_ok, completes, first_failure, lemma_completed_release, lemma_completes_step,
    lemma_release_runs_to_the_end, lemma_run_push, releases_in_order, run, trace,
};

verus! {

/// What the caller is told when construction has ended: a device
/// initialisation error if one of the seven steps failed, success if none
/// did.
pub open spec fn construction_outcome(events: Seq<bool>) -> Result<(), PipelineError> {
    if first_failure(events) < setup_script().len() {
        Err(PipelineError::DeviceInitError)
    } else {
        Ok(())
    }
}

/// How construction ends. If each of its seven steps succeeds, the
/// session is built after them. If one fails, construction ends there with
/// a device initialisation error, and once the session has come to rest it
/// holds nothing: what had been acquired has been released.
pub proof fn lemma_construction_outcome(events: Seq<bool>)
    requires
        completes(SessionState::start(), events),
    ensures
        first_failure(events) >= 7 ==> events == all_ok(7) && run(SessionState::start(), events)
            == SessionState::ready(None),
        first_failure(events) < 7 ==> {
            &&& first_failure(events) < events.len()
            &&& !events[first_failure(events) as int]
            &&& run(SessionState::start(), events).phase == Phase::Failed
            &&& run(SessionState::start(), events).held == Set::<Resource>::empty()
            &&& run(SessionState::start(), events).fault == Some(PipelineError::DeviceInitError)
        },
{
    let s = SessionState::start();
    lemma_building_outcome(s, events);
    if first_failure(events) >= 7 {
        assert(events =~= all_ok(7));
    }
}

/// How construction ends from any step of it.
pub proof fn lemma_building_outcome(s: SessionState, events: Seq<bool>)
    requires
        s.wf(),
        s.phase == Phase::Building,
        completes(s, events),
    ensures
        first_failure(events) >= 7 - s.pc ==> {
            &&& events.len() == 7 - s.pc
            &&& forall|i: int| 0 <= i < events.len() ==> events[i]
            &&& run(s, events) == SessionState::ready(None)
        },
        first_failure(events) < 7 - s.pc ==> {
            &&& first_failure(events) < events.len()
            &&& !events[first_failure(events) as int]
            &&& run(s, events).phase == Phase::Failed
            &&& run(s, events).held == Set::<Resource>::empty()
            &&& run(s, events).fault == Some(PipelineError::DeviceInitError)
        },
    decreases events.len(),
{
    lemma_completes_step(s, events);
    lemma_acquired_in_setup(s.pc);
    let e = events.first();
    let t = s.advance(e);
    let rest = events.drop_first();
    lemma_advance_keeps_wf(s, e);
    lemma_completes_step(t, rest);
    if e {
        if t.phase == Phase::Building {
            lemma_building_outcome(t, rest);
            if first_failure(rest) >= 7 - t.pc {
                assert forall|i: int| 0 <= i < events.len() implies events[i] by {
                    if i > 0 {
                        assert(events[i] == rest[i - 1]);
                    }
                }
            } else {
                assert(events[first_failure(events) as int] == rest[first_failure(rest) as int]);
            }
        } else {
            lemma_acquired_in_setup(7);
            assert(t =~= SessionState::ready(None));
            assert(first_failure(rest) == 0);
        }
    } else {
        if !t.idle() {
            lemma_completed_release(t, rest);
            lemma_release_runs_to_the_end(t, rest);
        }
    }
}

/// Construction fails cleanly. Whatever step of it fails, the session
/// then asks for nothing but releases, and after one for each resource that
/// it had acquired it holds nothing and reports a device initialisation
/// error.
pub proof fn lemma_failed_construction_leaks_nothing(s: SessionState, events: Seq<bool>)
    requires
        s.wf(),
        s.phase == Phase::Building,
        events.len() == count(s.held),
    ensures
        run(s.advance(false), events).phase == Phase::Failed,
        run(s.advance(false), events).held == Set::<Resource>::empty(),
        run(s.advance(false), events).fault == Some(PipelineError::DeviceInitError),
        releases_in_order(trace(s.advance(false), events), s.held),
{
    let t = s.advance(false);
    lemma_advance_keeps_wf(s, false);
    lemma_acquired_in_setup(s.pc);
    if s.held == Set::<Resource>::empty() {
        assert(trace(t, events) =~= Seq::<Action>::empty());
    } else {
        lemma_release_runs_to_the_end(t, events);
    }
}

/// A construction on which every step succeeds asks for the seven steps
/// of the setup script, in order, and ends in a built session that holds
/// the context, the module, the queue and both weight arrays.
pub proof fn lemma_construction_runs_the_script()
    ensures
        trace(SessionState::start(), all_ok(7)) == setup_script(),
        run(SessionState::start(), all_ok(7)) == SessionState::ready(None),
{
    lemma_good_setup_steps(7);
    assert(setup_script().take(7) =~= setup_script());
}

/// Where construction stands after `n` successes.
pub proof fn lemma_good_setup_steps(n: nat)
    requires
        n <= setup_script().len(),
    ensures
        run(SessionState::start(), all_ok(n)).wf(),
        trace(SessionState::start(), all_ok(n)) == setup_script().take(n as int),
        n < 7 ==> run(SessionState::start(), all_ok(n)).phase == Phase::Building && run(
            SessionState::start(),
            all_ok(n),
        ).pc == n,
        n == 7 ==> run(SessionState::start(), all_ok(n)) == SessionState::ready(None),
    decreases n,
{
    let s = SessionState::start();
    if n == 0 {
        assert(all_ok(0) =~= Seq::<bool>::empty());
        assert(trace(s, all_ok(0)) =~= setup_script().take(0));
        lemma_acquired_in_setup(0);
        assert(s.held =~= acquired(setup_script(), 0));
    } else {
        let m = (n - 1) as nat;
        let before = run(s, all_ok(m));
        lemma_good_setup_steps(m);
        lemma_run_push(s, all_ok(m), true);
        assert(all_ok(m).push(true) =~= all_ok(n));
        assert(setup_script().take(m as int).push(setup_script()[m as int]) =~= setup_script().take(
            n as int,
        ));
        lemma_advance_keeps_wf(before, true);
        lemma_acquired_in_setup(n);
        if n == 7 {
            assert(before.advance(true) =~= SessionState::ready(None));
        }
    }
}

} // verus!

//! One inference from its first upload to the release of its last buffer.

use vstd::prelude::*;
use crate::action::{inference_script, Action};
use crate::error::PipelineError;
use crate::geometry::OUT_LAYER_SIZE;
use crate::kernel::Kernel;
use crate::model::{
    holds_transient, lemma_acquired_in_inference, lemma_advance_keeps_wf, lemma_begin_keeps_wf,
    Phase, SessionState,
};
use crate::resource::{count_transient, first_release, session_resources, Resource};
use crate::runs::{
    all_ok, completes, first_failure, lemma_completes_step, lemma_first_failure_prefix,
    lemma_run_append, lemma_run_push, releases_in_order, run, trace,
};

verus! {

/// The releases that end an inference: its buffers, the newest first.
pub open spec fn settling_script() -> Seq<Action> {
    seq![
        Action::Release(Resource::Output),
        Action::Release(Resource::Intermediate),
        Action::Release(Resource::Input),
    ]
}

/// The actions of an inference on which everything succeeds: the ten
/// steps of the script, then the release of the three buffers.
pub open spec fn full_script() -> Seq<Action> {
    inference_script() + settling_script()
}

/// What the caller is told when an inference has ended: the error of the
/// first step of the script that failed, or success if none did.
pub open spec fn inference_outcome(events: Seq<bool>) -> Result<(), PipelineError> {
    let k = first_failure(events);
    if k < inference_script().len() {
        Err(inference_script()[k as int].spec_failure()->0)
    } else {
        Ok(())
    }
}

/// How the session tells the outcome of its latest inference.
pub open spec fn fault_of(outcome: Result<(), PipelineError>) -> Option<PipelineError> {
    match outcome {
        Ok(_) => None,
        Err(e) => Some(e),
    }
}

/// How an inference ends. If each of the ten steps of the script
/// succeeds, the result has been copied back and the inference succeeds. If
/// one fails, no later step is asked for, and the inference fails with the
/// error of that step: a transfer error, a kernel launch error or a
/// synchronization error. Either way the session, once it has come to rest,
/// is a built session that holds the weights and no buffer of the
/// inference.
pub proof fn lemma_inference_outcome(s: SessionState, events: Seq<bool>)
    requires
        s.wf(),
        s.phase == Phase::Ready,
        completes(s.begin(), events),
    ensures
        run(s.begin(), events) == SessionState::ready(fault_of(inference_outcome(events))),
        inference_outcome(events) is Ok ==> events.len() == 13 && trace(s.begin(), events)
            == full_script(),
        inference_outcome(events) matches Err(e) ==> e != PipelineError::DeviceInitError
            && first_failure(events) < events.len() && !events[first_failure(events) as int],
{
    lemma_begin_keeps_wf(s);
    lemma_running_outcome(s.begin(), events);
    if inference_outcome(events) is Ok {
        lemma_good_steps(s, 10);
        lemma_first_failure_prefix(events, 10);
        let rest = events.skip(10);
        let t = run(s.begin(), all_ok(10));
        assert(events.take(10) =~= all_ok(10));
        lemma_run_append(s.begin(), events.take(10), rest);
        assert(events.take(10) + rest =~= events);
        lemma_settling_runs_to_ready(t, rest);
        lemma_settling_script(t, rest);
        assert(trace(s.begin(), events) =~= full_script());
    }
}

/// How an inference ends from any step of it.
pub proof fn lemma_running_outcome(s: SessionState, events: Seq<bool>)
    requires
        s.wf(),
        s.phase == Phase::Running,
        completes(s, events),
    ensures
        first_failure(events) >= 10 - s.pc ==> events.len() == 13 - s.pc && run(s, events)
            == SessionState::ready(None),
        first_failure(events) < 10 - s.pc ==> {
            &&& first_failure(events) < events.len()
            &&& !events[first_failure(events) as int]
            &&& run(s, events) == SessionState::ready(
                inference_script()[(s.pc + first_failure(events)) as int].spec_failure(),
            )
            &&& inference_script()[(s.pc + first_failure(events)) as int].spec_failure() is Some
            &&& inference_script()[(s.pc + first_failure(events)) as int].spec_failure() != Some(
                PipelineError::DeviceInitError,
            )
        },
    decreases events.len(),
{
    lemma_completes_step(s, events);
    lemma_acquired_in_inference(s.pc);
    let e = events.first();
    let t = s.advance(e);
    let rest = events.drop_first();
    lemma_advance_keeps_wf(s, e);
    lemma_completes_step(t, rest);
    if e {
        if t.phase == Phase::Running {
            lemma_running_outcome(t, rest);
            if first_failure(rest) < 10 - t.pc {
                assert(events[first_failure(events) as int] == rest[first_failure(rest) as int]);
            }
        } else {
            lemma_acquired_in_inference(10);
            lemma_completed_settling(t, rest);
            lemma_settling_runs_to_ready(t, rest);
            lemma_first_failure_prefix(rest, 0);
        }
    } else {
        if !t.idle() {
            lemma_completed_settling(t, rest);
            lemma_settling_runs_to_ready(t, rest);
        } else {
            assert(t =~= SessionState::ready(s.action().spec_failure()));
        }
    }
}

/// An inference fails as the action that failed says: a launch with a
/// kernel launch error, a wait with a synchronization error, an upload, an
/// allocation or the copy back with a transfer error. No later step of the
/// script is asked for: the session gives back the buffers that the
/// inference had acquired, and is then a built session that reports the
/// error.
pub proof fn lemma_failed_inference_settles(s: SessionState, events: Seq<bool>)
    requires
        s.wf(),
        s.phase == Phase::Running,
        events.len() == count_transient(s.held),
    ensures
        s.action().spec_failure() == Some(
            match s.action() {
                Action::Launch(_) => PipelineError::KernelLaunchError,
                Action::Synchronize => PipelineError::SyncError,
                _ => PipelineError::TransferError,
            },
        ),
        run(s.advance(false), events) == SessionState::ready(s.action().spec_failure()),
        releases_in_order(trace(s.advance(false), events), s.held),
        forall|i: int|
            0 <= i < events.len() ==> (#[trigger] trace(s.advance(false), events)[i])
                ->Release_0.is_transient(),
{
    let t = s.advance(false);
    lemma_advance_keeps_wf(s, false);
    lemma_acquired_in_inference(s.pc);
    if t.phase == Phase::Settling {
        lemma_settling_runs_to_ready(t, events);
    } else {
        assert(events.len() == 0) by {
            if count_transient(s.held) != 0 {
                let q = if s.held.contains(Resource::Input) {
                    Resource::Input
                } else if s.held.contains(Resource::Intermediate) {
                    Resource::Intermediate
                } else {
                    Resource::Output
                };
                assert(q.is_transient() && s.held.contains(q));
            }
        }
        assert(t =~= SessionState::ready(s.action().spec_failure()));
        assert(trace(t, events) =~= Seq::<Action>::empty());
    }
}

/// An inference on which every action succeeds asks for the ten steps of
/// the script and then for the release of its three buffers, and leaves the
/// session as a built session with no fault: nothing of the inference stays
/// behind.
pub proof fn lemma_inference_runs_the_script(s: SessionState)
    requires
        s.wf(),
        s.phase == Phase::Ready,
    ensures
        trace(s.begin(), all_ok(13)) == full_script(),
        run(s.begin(), all_ok(13)) == SessionState::ready(None),
{
    lemma_good_steps(s, 13);
    assert(full_script().take(13) =~= full_script());
}

/// Where an inference stands after `n` successes: it has asked for the
/// first `n` actions of the full script and asks for the next one; it is in
/// the script for the first ten, and gives its buffers back after that.
pub proof fn lemma_good_steps(s: SessionState, n: nat)
    requires
        s.wf(),
        s.phase == Phase::Ready,
        n <= full_script().len(),
    ensures
        run(s.begin(), all_ok(n)).wf(),
        trace(s.begin(), all_ok(n)) == full_script().take(n as int),
        n < 13 ==> run(s.begin(), all_ok(n)).action() == full_script()[n as int],
        n < 10 ==> run(s.begin(), all_ok(n)).phase == Phase::Running && run(
            s.begin(),
            all_ok(n),
        ).pc == n,
        10 <= n < 13 ==> run(s.begin(), all_ok(n)).phase == Phase::Settling,
        10 <= n <= 13 ==> run(s.begin(), all_ok(n)).fault is None && run(
            s.begin(),
            all_ok(n),
        ).held == session_resources().union(
            Set::new(|r: Resource| r.is_transient() && r.release_rank() >= n - 10),
        ),
        n == 13 ==> run(s.begin(), all_ok(n)) == SessionState::ready(None),
    decreases n,
{
    let built = session_resources();
    if n == 0 {
        lemma_begin_keeps_wf(s);
        assert(all_ok(0) =~= Seq::<bool>::empty());
        assert(trace(s.begin(), all_ok(0)) =~= full_script().take(0));
    } else {
        let m = (n - 1) as nat;
        let before = run(s.begin(), all_ok(m));
        let here = before.advance(true);
        lemma_good_steps(s, m);
        lemma_run_push(s.begin(), all_ok(m), true);
        assert(all_ok(m).push(true) =~= all_ok(n));
        assert(full_script().take(m as int).push(full_script()[m as int]) =~= full_script().take(
            n as int,
        ));
        lemma_advance_keeps_wf(before, true);
        if n <= 10 {
            lemma_acquired_in_inference(m);
            lemma_acquired_in_inference(n);
            if n == 10 {
                assert(here.held =~= built.union(
                    Set::new(|r: Resource| r.is_transient() && r.release_rank() >= 0),
                ));
            }
        } else {
            let left = Set::new(|r: Resource| r.is_transient() && r.release_rank() >= n - 10);
            assert(here.held =~= built.union(left));
            if n < 13 {
                assert(Resource::Input.is_transient() && here.held.contains(Resource::Input));
            } else {
                assert(!holds_transient(here.held)) by {
                    if holds_transient(here.held) {
                        let w = choose|r: Resource| r.is_transient() && here.held.contains(r);
                        assert(left.contains(w));
                    }
                }
                assert(here.held =~= built);
                assert(here =~= SessionState::ready(None));
            }
        }
    }
}

/// What an inference asks for, and where it leaves the session, depends
/// on nothing but the outcomes that the host reports: two inferences on
/// built sessions, whatever went before them, go the same way on the same
/// outcomes.
pub proof fn lemma_inferences_repeat(s1: SessionState, s2: SessionState, events: Seq<bool>)
    requires
        s1.wf(),
        s2.wf(),
        s1.phase == Phase::Ready,
        s2.phase == Phase::Ready,
    ensures
        trace(s1.begin(), events) == trace(s2.begin(), events),
        run(s1.begin(), events) == run(s2.begin(), events),
{
    assert(s1.begin() =~= s2.begin());
}

/// The one buffer that an inference copies back is the result vector: the
/// buffer that the output stage writes, of `OUT_LAYER_SIZE` elements.
pub proof fn lemma_result_has_fixed_length()
    ensures
        forall|i: int|
            0 <= i < full_script().len() && (#[trigger] full_script()[i]) is Download
                ==> full_script()[i] == Action::Download(Resource::Output),
        Kernel::Output.writes() == Resource::Output,
        Kernel::Output.elements_written() == OUT_LAYER_SIZE,
{
}

/// Once an inference has ended, well or badly, the session gives back the
/// buffers of that inference and nothing else, the newest first, and is
/// then a built session again that tells how the inference ended.
pub proof fn lemma_settling_runs_to_ready(s: SessionState, events: Seq<bool>)
    requires
        s.wf(),
        s.phase == Phase::Settling,
        events.len() == count_transient(s.held),
    ensures
        run(s, events) == SessionState::ready(s.fault),
        trace(s, events).len() == events.len(),
        releases_in_order(trace(s, events), s.held),
        forall|i: int|
            0 <= i < events.len() ==> (#[trigger] trace(s, events)[i])->Release_0.is_transient(),
    decreases events.len(),
{
    let w = choose|r: Resource| r.is_transient() && s.held.contains(r);
    let r = first_release(s.held);
    let t = s.advance(events.first());
    let rest = events.drop_first();
    lemma_advance_keeps_wf(s, events.first());
    assert(t.held == s.held.remove(r));
    if t.phase == Phase::Ready {
        assert(count_transient(t.held) == 0) by {
            if count_transient(t.held) != 0 {
                let q = if t.held.contains(Resource::Input) {
                    Resource::Input
                } else if t.held.contains(Resource::Intermediate) {
                    Resource::Intermediate
                } else {
                    Resource::Output
                };
                assert(q.is_transient() && t.held.contains(q));
            }
        }
        assert(rest.len() == 0);
        assert(run(t, rest) == t);
        assert(t =~= SessionState::ready(s.fault));
        assert(trace(t, rest) =~= Seq::<Action>::empty());
        assert(trace(s, events) =~= seq![Action::Release(r)]);
    } else {
        let q = choose|q: Resource| q.is_transient() && t.held.contains(q);
        lemma_settling_runs_to_ready(t, rest);
        let tail = trace(t, rest);
        let all = trace(s, events);
        assert(all =~= seq![Action::Release(r)] + tail);
        assert forall|i: int| 0 <= i < all.len() implies (#[trigger] all[i]) is Release
            && s.held.contains(all[i]->Release_0) && all[i]->Release_0.is_transient() by {
            if i > 0 {
                assert(all[i] == tail[i - 1]);
            }
        }
        assert forall|i: int, j: int| 0 <= i < j < all.len() implies (#[trigger] all[i])
            ->Release_0.release_rank() < (#[trigger] all[j])->Release_0.release_rank() by {
            assert(all[j] == tail[j - 1]);
            if i > 0 {
                assert(all[i] == tail[i - 1]);
            } else {
                assert(t.held.contains(tail[j - 1]->Release_0));
            }
        }
    }
}

/// An inference after which the buffers go comes to rest after exactly one
/// release for each of them.
pub proof fn lemma_completed_settling(s: SessionState, events: Seq<bool>)
    requires
        s.wf(),
        s.phase == Phase::Settling,
        completes(s, events),
    ensures
        events.len() == count_transient(s.held),
    decreases events.len(),
{
    let w = choose|r: Resource| r.is_transient() && s.held.contains(r);
    lemma_completes_step(s, events);
    let t = s.advance(events.first());
    lemma_advance_keeps_wf(s, events.first());
    lemma_completes_step(t, events.drop_first());
    if !t.idle() {
        lemma_completed_settling(t, events.drop_first());
    } else {
        assert(count_transient(t.held) == 0) by {
            if count_transient(t.held) != 0 {
                let q = if t.held.contains(Resource::Input) {
                    Resource::Input
                } else if t.held.contains(Resource::Intermediate) {
                    Resource::Intermediate
                } else {
                    Resource::Output
                };
                assert(q.is_transient() && t.held.contains(q));
            }
        }
    }
}

proof fn lemma_settling_script(s: SessionState, events: Seq<bool>)
    requires
        s.wf(),
        s.phase == Phase::Settling,
        forall|r: Resource| s.held.contains(r),
        events.len() == 3,
    ensures
        trace(s, events) == settling_script(),
{
    let e1 = events.drop_first();
    let e2 = e1.drop_first();
    let s1 = s.advance(events.first());
    let s2 = s1.advance(e1.first());
    let s3 = s2.advance(e2.first());
    assert(s.action() == Action::Release(Resource::Output));
    assert(s1.held.contains(Resource::Intermediate) && Resource::Intermediate.is_transient());
    assert(s1.action() == Action::Release(Resource::Intermediate));
    assert(s2.held.contains(Resource::Input) && Resource::Input.is_transient());
    assert(s2.action() == Action::Release(Resource::Input));
    assert(trace(s3, e2.drop_first()) =~= Seq::<Action>::empty());
    assert(trace(s2, e2) =~= seq![Action::Release(Resource::Input)]);
    assert(trace(s1, e1) =~= seq![
        Action::Release(Resource::Intermediate),
        Action::Release(Resource::Input),
    ]);
    assert(trace(s, events) =~= settling_script());
}

} // verus!

//! The session as a state machine over mathematical values.

use vstd::prelude::*;
use crate::action::{acquired, inference_script, queued, setup_script, Action};
use crate::error::PipelineError;
use crate::resource::{count, count_transient, first_release, session_resources, Resource};

verus! {

/// Where a session stands in its life.
#[derive(Clone, Copy, Debug, PartialEq, Eq, Structural)]
pub enum Phase {
    /// Construction is under way.
    Building,
    /// A construction step failed; what was acquired is being released.
    Aborting,
    /// Construction failed and nothing is held.
    Failed,
    /// Built and waiting for an inference.
    Ready,
    /// An inference is under way.
    Running,
    /// An inference ended, well or badly; its buffers are being released.
    Settling,
    /// Teardown is under way.
    Closing,
    /// Torn down; nothing is held.
    Closed,
}

/// Whether a set holds a buffer of an inference.
pub open spec fn holds_transient(held: Set<Resource>) -> bool {
    exists|r: Resource| r.is_transient() && held.contains(r)
}

/// A session, as the contracts see it.
#[verifier::ext_equal]
pub struct SessionState {
    pub phase: Phase,
    /// Number of actions of the current script that have succeeded.
    pub pc: nat,
    /// The resources that are on the device.
    pub held: Set<Resource>,
    /// Kernels put on the queue since it last drained.
    pub in_flight: nat,
    /// How construction, or the latest inference, failed.
    pub fault: Option<PipelineError>,
}

impl SessionState {
    /// A session of which nothing exists yet.
    pub open spec fn start() -> SessionState {
        SessionState {
            phase: Phase::Building,
            pc: 0,
            held: Set::empty(),
            in_flight: 0,
            fault: None,
        }
    }

    /// A built session between inferences, whose latest inference ended as
    /// `fault` says.
    pub open spec fn ready(fault: Option<PipelineError>) -> SessionState {
        SessionState {
            phase: Phase::Ready,
            pc: 0,
            held: session_resources(),
            in_flight: 0,
            fault,
        }
    }

    /// What the host has to do now.
    pub open spec fn action(self) -> Action {
        match self.phase {
            Phase::Building => setup_script()[self.pc as int],
            Phase::Running => inference_script()[self.pc as int],
            Phase::Aborting | Phase::Settling | Phase::Closing => Action::Release(
                first_release(self.held),
            ),
            Phase::Failed | Phase::Ready | Phase::Closed => Action::Idle,
        }
    }

    /// The state in which what is held is given back: `rest` while
    /// `pending` holds, `done` after that.
    pub open spec fn release_towards(
        self,
        pending: bool,
        rest: Phase,
        done: Phase,
    ) -> SessionState {
        if pending {
            SessionState { phase: rest, pc: 0, ..self }
        } else {
            SessionState { phase: done, pc: 0, in_flight: 0, ..self }
        }
    }

    /// The state after the host has carried out `self.action()`, with
    /// success or not. A release has no outcome: `ok` is not looked at.
    pub open spec fn advance(self, ok: bool) -> SessionState {
        let a = self.action();
        let done = SessionState {
            pc: self.pc + 1,
            held: a.held_after(self.held),
            in_flight: a.queued_after(self.in_flight),
            ..self
        };
        let failed = SessionState { fault: a.spec_failure(), ..self };
        match self.phase {
            Phase::Building => if !ok {
                failed.release_towards(
                    self.held != Set::<Resource>::empty(),
                    Phase::Aborting,
                    Phase::Failed,
                )
            } else if done.pc < setup_script().len() {
                done
            } else {
                SessionState { phase: Phase::Ready, pc: 0, ..done }
            },
            Phase::Running => if !ok {
                failed.release_towards(holds_transient(self.held), Phase::Settling, Phase::Ready)
            } else if done.pc < inference_script().len() {
                done
            } else {
                SessionState { phase: Phase::Settling, pc: 0, ..done }
            },
            Phase::Aborting => done.release_towards(
                done.held != Set::<Resource>::empty(),
                Phase::Aborting,
                Phase::Failed,
            ),
            Phase::Settling => done.release_towards(
                holds_transient(done.held),
                Phase::Settling,
                Phase::Ready,
            ),
            Phase::Closing => done.release_towards(
                done.held != Set::<Resource>::empty(),
                Phase::Closing,
                Phase::Closed,
            ),
            Phase::Failed | Phase::Ready | Phase::Closed => self,
        }
    }

    /// The state after an inference has been asked for: it begins on a ready
    /// session, and changes nothing on any other.
    pub open spec fn begin(self) -> SessionState {
        if self.phase == Phase::Ready {
            SessionState { phase: Phase::Running, pc: 0, in_flight: 0, fault: None, ..self }
        } else {
            self
        }
    }

    /// The state after teardown has been asked for. A session that has
    /// ended stays as it is.
    pub open spec fn close(self) -> SessionState {
        match self.phase {
            Phase::Failed | Phase::Closed => self,
            _ => self.release_towards(
                self.held != Set::<Resource>::empty(),
                Phase::Closing,
                Phase::Closed,
            ),
        }
    }

    /// Whether nothing is due.
    pub open spec fn idle(self) -> bool {
        self.action() == Action::Idle
    }

    /// A bound on the number of actions before nothing is due: what is
    /// left of the script and the releases that may follow it, or one
    /// release for each resource that is to go.
    pub open spec fn remaining(self) -> nat {
        match self.phase {
            Phase::Building => (setup_script().len() - self.pc + 5) as nat,
            Phase::Running => (inference_script().len() - self.pc + 3) as nat,
            Phase::Aborting | Phase::Closing => count(self.held),
            Phase::Settling => count_transient(self.held),
            Phase::Failed | Phase::Ready | Phase::Closed => 0,
        }
    }

    /// The states that a session can be in.
    pub open spec fn wf(self) -> bool {
        let built = session_resources();
        let setup_failed = self.fault == Some(PipelineError::DeviceInitError);
        match self.phase {
            Phase::Building => {
                &&& self.pc < setup_script().len()
                &&& self.held == acquired(setup_script(), self.pc)
                &&& self.in_flight == 0
                &&& self.fault is None
            },
            Phase::Aborting => {
                &&& self.pc == 0
                &&& self.held.contains(Resource::Context)
                &&& self.held.subset_of(built)
                &&& self.in_flight == 0
                &&& setup_failed
            },
            Phase::Failed => {
                &&& self.pc == 0
                &&& self.held == Set::<Resource>::empty()
                &&& self.in_flight == 0
                &&& setup_failed
            },
            Phase::Ready => {
                &&& self.pc == 0
                &&& self.held == built
                &&& self.in_flight == 0
                &&& !setup_failed
            },
            Phase::Running => {
                &&& self.pc < inference_script().len()
                &&& self.held == built.union(acquired(inference_script(), self.pc))
                &&& self.in_flight == queued(inference_script(), self.pc)
                &&& self.fault is None
            },
            Phase::Settling => {
                &&& self.pc == 0
                &&& built.subset_of(self.held)
                &&& holds_transient(self.held)
                &&& self.in_flight <= 1
                &&& !setup_failed
            },
            Phase::Closing => {
                &&& self.pc == 0
                &&& self.held.contains(Resource::Context)
                &&& self.in_flight <= 1
            },
            Phase::Closed => {
                &&& self.pc == 0
                &&& self.held == Set::<Resource>::empty()
                &&& self.in_flight == 0
            },
        }
    }
}

/// Position in the setup script of the action that acquires `r`; the
/// script's length for a resource that construction does not acquire.
pub open spec fn setup_index(r: Resource) -> nat {
    match r {
        Resource::Context => 2,
        Resource::Module => 3,
        Resource::Stream => 4,
        Resource::ConvWeights => 5,
        Resource::OutputWeights => 6,
        _ => 7,
    }
}

/// Position in the inference script of the action that acquires `r`; the
/// script's length for a resource that an inference does not acquire.
pub open spec fn inference_index(r: Resource) -> nat {
    match r {
        Resource::Input => 0,
        Resource::Intermediate => 1,
        Resource::Output => 6,
        _ => 10,
    }
}

/// After `pc` steps of construction, exactly the resources whose acquiring
/// step lies before `pc` are held.
pub proof fn lemma_acquired_in_setup(pc: nat)
    requires
        pc <= setup_script().len(),
    ensures
        forall|r: Resource| acquired(setup_script(), pc).contains(r) <==> setup_index(r) < pc,
{
    reveal_with_fuel(acquired, 8);
}

/// After `pc` steps of an inference, exactly the buffers whose acquiring
/// step lies before `pc` have been added, and a kernel is on the queue
/// exactly when the step before `pc` was a launch.
pub proof fn lemma_acquired_in_inference(pc: nat)
    requires
        pc <= inference_script().len(),
    ensures
        forall|r: Resource|
            acquired(inference_script(), pc).contains(r) <==> inference_index(r) < pc,
        queued(inference_script(), pc) == if pc > 0 && inference_script()[pc - 1] is Launch {
            1nat
        } else {
            0nat
        },
{
    reveal_with_fuel(acquired, 11);
    reveal_with_fuel(queued, 11);
}

/// Every step leads from a possible state to a possible state.
pub proof fn lemma_advance_keeps_wf(s: SessionState, ok: bool)
    requires
        s.wf(),
    ensures
        s.advance(ok).wf(),
{
    let t = s.advance(ok);
    let built = session_resources();
    match s.phase {
        Phase::Building => {
            lemma_acquired_in_setup(s.pc);
            lemma_acquired_in_setup(s.pc + 1);
            if ok && s.pc + 1 == setup_script().len() {
                assert(t.held =~= built);
            }
            if !ok && s.held != Set::<Resource>::empty() {
                assert(s.held.contains(Resource::Context)) by {
                    if !s.held.contains(Resource::Context) {
                        assert(s.held =~= Set::<Resource>::empty());
                    }
                }
            }
        },
        Phase::Running => {
            lemma_acquired_in_inference(s.pc);
            lemma_acquired_in_inference(s.pc + 1);
            if ok {
                let more = acquired(inference_script(), s.pc + 1);
                assert(t.held =~= built.union(more));
                if s.pc + 1 == inference_script().len() {
                    assert(Resource::Input.is_transient() && t.held.contains(Resource::Input));
                }
            } else if !holds_transient(s.held) {
                assert(s.held =~= built) by {
                    assert forall|r: Resource| s.held.contains(r) implies built.contains(r) by {
                        if r.is_transient() {
                            assert(holds_transient(s.held));
                        }
                    }
                }
            }
        },
        Phase::Aborting => {
            let r = first_release(s.held);
            if t.held != Set::<Resource>::empty() {
                assert(t.held.contains(Resource::Context)) by {
                    if r == Resource::Context {
                        assert(t.held =~= Set::<Resource>::empty());
                    }
                }
            }
        },
        Phase::Settling => {
            let w = choose|r: Resource| r.is_transient() && s.held.contains(r);
            assert(first_release(s.held).is_transient());
            if !holds_transient(t.held) {
                assert(t.held =~= built) by {
                    assert forall|r: Resource| t.held.contains(r) implies built.contains(r) by {
                        if r.is_transient() {
                            assert(holds_transient(t.held));
                        }
                    }
                }
            }
        },
        Phase::Closing => {
            let r = first_release(s.held);
            if t.held != Set::<Resource>::empty() {
                assert(t.held.contains(Resource::Context)) by {
                    if r == Resource::Context {
                        assert(t.held =~= Set::<Resource>::empty());
                    }
                }
            }
        },
        Phase::Failed | Phase::Ready | Phase::Closed => {},
    }
}

/// Every step brings the session nearer to its rest: no construction, no
/// inference and no teardown goes on for ever.
pub proof fn lemma_advance_decreases(s: SessionState, ok: bool)
    requires
        s.wf(),
        !s.idle(),
    ensures
        s.advance(ok).remaining() < s.remaining(),
{
    let t = s.advance(ok);
    match s.phase {
        Phase::Building => {
            lemma_acquired_in_setup(s.pc);
        },
        Phase::Running => {
            lemma_acquired_in_inference(s.pc);
            lemma_acquired_in_inference(s.pc + 1);
        },
        Phase::Settling => {
            let w = choose|r: Resource| r.is_transient() && s.held.contains(r);
        },
        _ => {},
    }
}

/// Asking for an inference leads from a possible state to a possible state.
pub proof fn lemma_begin_keeps_wf(s: SessionState)
    requires
        s.wf(),
    ensures
        s.begin().wf(),
{
    if s.phase == Phase::Ready {
        lemma_acquired_in_inference(0);
        assert(s.begin().held =~= session_resources().union(acquired(inference_script(), 0)));
    }
}

/// Asking for teardown leads from a possible state to a possible state.
pub proof fn lemma_close_keeps_wf(s: SessionState)
    requires
        s.wf(),
    ensures
        s.close().wf(),
{
    match s.phase {
        Phase::Building => {
            lemma_acquired_in_setup(s.pc);
            if !s.held.contains(Resource::Context) {
                assert(s.held =~= Set::<Resource>::empty());
            }
        },
        Phase::Running => {
            lemma_acquired_in_inference(s.pc);
        },
        _ => {},
    }
}

} // verus!

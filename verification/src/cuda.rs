//! The built session: construction, inference and teardown, each as one
//! call that runs to its end.

use vstd::prelude::*;
use crate::action::Action;
use crate::control::Control;
use crate::error::PipelineError;
use crate::inference::{fault_of, inference_outcome, lemma_inference_outcome};
use crate::model::{Phase, SessionState};
use crate::resource::Resource;
use crate::construction::{construction_outcome, lemma_construction_outcome};
use crate::runs::{completes, reported, run, trace};
use crate::teardown::{lemma_teardown_of_a_built_session, teardown_script};

verus! {

/// A built inference session on one device: the context, the kernel
/// module, the command queue and both weight arrays are on the device, and
/// no inference is under way.
///
/// The session touches no device itself. Each of its operations is handed
/// `perform`, which carries one action out on the device and tells whether
/// it succeeded; the session decides which actions those are.
pub struct CudaContext {
    control: Control,
}

impl View for CudaContext {
    type V = SessionState;

    closed spec fn view(&self) -> SessionState {
        self.control@
    }
}

impl CudaContext {
    #[verifier::type_invariant]
    spec fn built(self) -> bool {
        self.control@.wf() && self.control@.phase == Phase::Ready
    }

    /// Builds a session: initialises the driver, selects the device,
    /// creates the context, loads the kernel module, creates the queue and
    /// uploads both weight arrays, in this order. The first step that fails ends construction with a
    /// device initialisation error, after what the steps before it had
    /// acquired has been released again, the context last.
    pub fn init<F: Fn(Action) -> bool>(perform: F) -> (r: Result<CudaContext, PipelineError>)
        requires
            forall|a: Action| call_requires(perform, (a,)),
        ensures
            exists|events: Seq<bool>|
                {
                    &&& #[trigger] reported(perform, SessionState::start(), events)
                    &&& completes(SessionState::start(), events)
                    &&& match r {
                        Ok(s) => construction_outcome(events) is Ok && s@ == SessionState::ready(
                            None,
                        ),
                        Err(e) => construction_outcome(events) == Err::<(), PipelineError>(e)
                            && run(SessionState::start(), events).phase == Phase::Failed && run(
                            SessionState::start(),
                            events,
                        ).held == Set::<Resource>::empty(),
                    }
                },
    {
        let mut control = Control::new();
        control.drive(&perform);
        proof {
            let start = SessionState::start();
            let events = choose|events: Seq<bool>| #[trigger]
                reported(perform, start, events) && completes(start, events) && control@ == run(
                    start,
                    events,
                );
            lemma_construction_outcome(events);
        }
        match control.fault() {
            None => Ok(CudaContext { control }),
            Some(e) => Err(e),
        }
    }

    /// Runs one inference: uploads the input, runs the convolution, the
    /// activation and the output stage, waiting after each for the queue to
    /// drain, and copies the result back. The first step that fails ends
    /// the inference with the error of that step, and no later step is
    /// taken. In either case the buffers of the inference are released
    /// before the call returns, and the session is ready for the next one.
    pub fn compute<F: Fn(Action) -> bool>(&mut self, perform: F) -> (r: Result<(), PipelineError>)
        requires
            forall|a: Action| call_requires(perform, (a,)),
        ensures
            exists|events: Seq<bool>|
                {
                    &&& #[trigger] reported(perform, old(self)@.begin(), events)
                    &&& completes(old(self)@.begin(), events)
                    &&& r == inference_outcome(events)
                },
            final(self)@ == SessionState::ready(fault_of(r)),
            old(self)@.phase == Phase::Ready,
    {
        proof {
            use_type_invariant(&*self);
        }
        let ghost before = self@;
        let mut control = self.control;
        let begun = control.begin();
        let ghost started = control@;
        control.drive(&perform);
        proof {
            let events = choose|events: Seq<bool>| #[trigger]
                reported(perform, started, events) && completes(started, events) && control@
                    == run(started, events);
            lemma_inference_outcome(before, events);
        }
        self.control = control;
        match control.fault() {
            None => Ok(()),
            Some(e) => Err(e),
        }
    }

    /// Tears the session down: releases the weights, the module and the
    /// queue, and the context after them.
    pub fn close<F: Fn(Action) -> bool>(self, perform: F)
        requires
            forall|a: Action| call_requires(perform, (a,)),
        ensures
            exists|events: Seq<bool>|
                {
                    &&& #[trigger] reported(perform, self@.close(), events)
                    &&& completes(self@.close(), events)
                    &&& trace(self@.close(), events) == teardown_script()
                    &&& run(self@.close(), events).phase == Phase::Closed
                },
    {
        proof {
            use_type_invariant(&self);
        }
        let ghost before = self@;
        let mut control = self.control;
        control.close();
        let ghost started = control@;
        control.drive(&perform);
        proof {
            let events = choose|events: Seq<bool>| #[trigger]
                reported(perform, started, events) && completes(started, events) && control@
                    == run(started, events);
            lemma_teardown_of_a_built_session(before, events);
        }
    }

    /// The books of the session.
    pub fn control(&self) -> (c: Control)
        ensures
            c@ == self@,
            c@.wf(),
            c@.phase == Phase::Ready,
    {
        proof {
            use_type_invariant(self);
        }
        self.control
    }
}

} // verus!

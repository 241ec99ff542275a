//! The session as the host steps through it: one action, one outcome.

use vstd::prelude::*;
use crate::action::Action;
use crate::error::PipelineError;
use crate::kernel::Kernel;
use crate::model::{
    lemma_acquired_in_inference, lemma_advance_decreases, lemma_advance_keeps_wf,
    lemma_begin_keeps_wf, lemma_close_keeps_wf, Phase, SessionState,
};
use crate::protocol::{lemma_every_action_is_permitted, permitted};
use crate::resource::{Held, Resource};
use crate::runs::{completes, lemma_run_push, reported, run};

verus! {

/// The books of a session, from before its construction to after its
/// teardown.
///
/// It owns nothing on the device itself: it records what the host holds
/// there and says what the host has to do next. The host carries each
/// action out and reports with `advance` how it went.
#[derive(Clone, Copy, Debug)]
pub struct Control {
    phase: Phase,
    pc: u8,
    held: Held,
    in_flight: u8,
    fault: Option<PipelineError>,
}

impl View for Control {
    type V = SessionState;

    closed spec fn view(&self) -> SessionState {
        SessionState {
            phase: self.phase,
            pc: self.pc as nat,
            held: self.held@,
            in_flight: self.in_flight as nat,
            fault: self.fault,
        }
    }
}

impl Control {
    #[verifier::type_invariant]
    spec fn possible(self) -> bool {
        self@.wf()
    }

    /// The state in which what is held is given back: phase `rest` while
    /// `pending` holds, phase `done` after that.
    fn release_towards(
        pending: bool,
        rest: Phase,
        done: Phase,
        held: Held,
        in_flight: u8,
        fault: Option<PipelineError>,
    ) -> (s: Control)
        requires
            (SessionState {
                phase: rest,
                pc: 0,
                held: held@,
                in_flight: in_flight as nat,
                fault,
            }).release_towards(pending, rest, done).wf(),
        ensures
            s@ == (SessionState {
                phase: rest,
                pc: 0,
                held: held@,
                in_flight: in_flight as nat,
                fault,
            }).release_towards(pending, rest, done),
    {
        if pending {
            Control { phase: rest, pc: 0, held, in_flight, fault }
        } else {
            Control { phase: done, pc: 0, held, in_flight: 0, fault }
        }
    }

    /// A session of which nothing exists yet: nothing is held, and the
    /// first setup action is due.
    pub fn new() -> (s: Control)
        ensures
            s@ == SessionState::start(),
            s@.wf(),
    {
        Control { phase: Phase::Building, pc: 0, held: Held::empty(), in_flight: 0, fault: None }
    }

    /// Asks for one inference. It begins if the session is built and no
    /// other inference is under way; otherwise nothing changes.
    pub fn begin(&mut self) -> (begun: bool)
        ensures
            begun == (old(self)@.phase == Phase::Ready),
            final(self)@ == old(self)@.begin(),
            final(self)@.wf(),
    {
        proof {
            use_type_invariant(&*self);
            lemma_begin_keeps_wf(self@);
        }
        match self.phase {
            Phase::Ready => {
                *self = Control {
                    phase: Phase::Running,
                    pc: 0,
                    held: self.held,
                    in_flight: 0,
                    fault: None,
                };
                true
            },
            _ => false,
        }
    }

    /// Asks for teardown: from now on the session gives back what it
    /// holds, the context after everything else.
    pub fn close(&mut self)
        ensures
            final(self)@ == old(self)@.close(),
            final(self)@.wf(),
    {
        proof {
            use_type_invariant(&*self);
            lemma_close_keeps_wf(self@);
        }
        match self.phase {
            Phase::Failed | Phase::Closed => {},
            _ => {
                let next = Self::release_towards(
                    !self.held.is_empty(),
                    Phase::Closing,
                    Phase::Closed,
                    self.held,
                    self.in_flight,
                    self.fault,
                );
                *self = next;
            },
        }
    }

    /// What the host has to do now. It is always something that the
    /// device accepts in the state that it is in.
    pub fn next_action(&self) -> (a: Action)
        ensures
            a == self@.action(),
            permitted(a, self@.held, self@.in_flight),
            self@.wf(),
    {
        proof {
            use_type_invariant(self);
            lemma_every_action_is_permitted(self@);
        }
        match self.phase {
            Phase::Building => match self.pc {
                0 => Action::InitDriver,
                1 => Action::SelectDevice,
                2 => Action::CreateContext,
                3 => Action::LoadModule,
                4 => Action::CreateStream,
                5 => Action::Upload(Resource::ConvWeights),
                _ => Action::Upload(Resource::OutputWeights),
            },
            Phase::Running => match self.pc {
                0 => Action::Upload(Resource::Input),
                1 => Action::AllocZeroed(Resource::Intermediate),
                2 => Action::Launch(Kernel::Convolution),
                3 => Action::Synchronize,
                4 => Action::Launch(Kernel::Activation),
                5 => Action::Synchronize,
                6 => Action::AllocZeroed(Resource::Output),
                7 => Action::Launch(Kernel::Output),
                8 => Action::Synchronize,
                _ => Action::Download(Resource::Output),
            },
            Phase::Aborting | Phase::Settling | Phase::Closing => Action::Release(
                self.held.first_release(),
            ),
            Phase::Failed | Phase::Ready | Phase::Closed => Action::Idle,
        }
    }

    /// Takes note that the host has carried out the action that was due,
    /// and whether it succeeded. A release has no outcome to report: for it
    /// `ok` is not looked at. While nothing is due, nothing changes.
    pub fn advance(&mut self, ok: bool)
        ensures
            final(self)@ == old(self)@.advance(ok),
            final(self)@.wf(),
    {
        proof {
            use_type_invariant(&*self);
            lemma_advance_keeps_wf(self@, ok);
            if self@.phase == Phase::Running {
                lemma_acquired_in_inference(self@.pc);
            }
        }
        let a = self.next_action();
        let next = match self.phase {
            Phase::Building => if !ok {
                Self::release_towards(
                    !self.held.is_empty(),
                    Phase::Aborting,
                    Phase::Failed,
                    self.held,
                    self.in_flight,
                    a.failure(),
                )
            } else {
                let held = match a.acquires() {
                    Some(r) => self.held.with(r),
                    None => self.held,
                };
                if self.pc < 6 {
                    Control { phase: Phase::Building, pc: self.pc + 1, held, ..*self }
                } else {
                    Control { phase: Phase::Ready, pc: 0, held, ..*self }
                }
            },
            Phase::Running => if !ok {
                Self::release_towards(
                    self.held.has_transient(),
                    Phase::Settling,
                    Phase::Ready,
                    self.held,
                    self.in_flight,
                    a.failure(),
                )
            } else {
                let held = match a.acquires() {
                    Some(r) => self.held.with(r),
                    None => self.held,
                };
                let in_flight: u8 = match a {
                    Action::Launch(_) => self.in_flight + 1,
                    Action::Synchronize => 0,
                    _ => self.in_flight,
                };
                if self.pc < 9 {
                    Control { phase: Phase::Running, pc: self.pc + 1, held, in_flight, ..*self }
                } else {
                    Control { phase: Phase::Settling, pc: 0, held, in_flight, ..*self }
                }
            },
            Phase::Aborting => {
                let held = self.held.without(self.held.first_release());
                Self::release_towards(
                    !held.is_empty(),
                    Phase::Aborting,
                    Phase::Failed,
                    held,
                    self.in_flight,
                    self.fault,
                )
            },
            Phase::Settling => {
                let held = self.held.without(self.held.first_release());
                Self::release_towards(
                    held.has_transient(),
                    Phase::Settling,
                    Phase::Ready,
                    held,
                    self.in_flight,
                    self.fault,
                )
            },
            Phase::Closing => {
                let held = self.held.without(self.held.first_release());
                Self::release_towards(
                    !held.is_empty(),
                    Phase::Closing,
                    Phase::Closed,
                    held,
                    self.in_flight,
                    self.fault,
                )
            },
            Phase::Failed | Phase::Ready | Phase::Closed => {
                return ;
            },
        };
        *self = next;
    }

    /// Carries the session to its next rest: has `perform` carry out each
    /// action that is due and takes note of its answer, until nothing is
    /// due. The session ends where the answers lead.
    pub fn drive<F: Fn(Action) -> bool>(&mut self, perform: &F)
        requires
            forall|a: Action| call_requires(*perform, (a,)),
        ensures
            exists|events: Seq<bool>|
                {
                    &&& #[trigger] reported(*perform, old(self)@, events)
                    &&& completes(old(self)@, events)
                    &&& final(self)@ == run(old(self)@, events)
                },
            final(self)@.wf(),
    {
        let ghost start = self@;
        let ghost mut events: Seq<bool> = Seq::empty();
        proof {
            use_type_invariant(&*self);
        }
        loop
            invariant
                forall|a: Action| call_requires(*perform, (a,)),
                self@.wf(),
                self@ == run(start, events),
                reported(*perform, start, events),
                forall|i: int|
                    0 <= i < events.len() ==> !(#[trigger] run(start, events.take(i))).idle(),
            ensures
                self@.idle(),
            decreases self@.remaining(),
        {
            let a = self.next_action();
            if a == Action::Idle {
                break ;
            }
            let ok = perform(a);
            proof {
                let more = events.push(ok);
                lemma_advance_decreases(self@, ok);
                lemma_run_push(start, events, ok);
                assert forall|i: int| 0 <= i < more.len() implies !(#[trigger] run(
                    start,
                    more.take(i),
                )).idle() && call_ensures(
                    *perform,
                    (run(start, more.take(i)).action(),),
                    more[i],
                ) by {
                    if i < events.len() {
                        assert(more.take(i) =~= events.take(i));
                    } else {
                        assert(more.take(i) =~= events);
                    }
                }
                events = more;
            }
            self.advance(ok);
        }
        assert(completes(start, events));
    }

    /// Where the session stands in its life.
    pub fn phase(&self) -> (p: Phase)
        ensures
            p == self@.phase,
    {
        self.phase
    }

    /// Whether `r` is on the device.
    pub fn holds(&self, r: Resource) -> (b: bool)
        ensures
            b == self@.held.contains(r),
    {
        self.held.contains(r)
    }

    /// Number of kernels put on the queue since it last drained.
    pub fn in_flight(&self) -> (n: u8)
        ensures
            n == self@.in_flight,
    {
        self.in_flight
    }

    /// How construction, or the latest inference, failed; `None` if it did
    /// not, or has not ended yet.
    pub fn fault(&self) -> (e: Option<PipelineError>)
        ensures
            e == self@.fault,
    {
        self.fault
    }
}

} // verus!

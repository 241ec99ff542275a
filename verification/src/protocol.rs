//! What the device accepts, and that a session asks for nothing else.

use vstd::prelude::*;
use crate::action::Action;
use crate::model::{lemma_acquired_in_inference, lemma_acquired_in_setup, Phase, SessionState};
use crate::resource::Resource;

verus! {

/// What a device accepts, given what is on it and how many kernels are on
/// its queue: nothing is created twice or outside a context; a kernel
/// starts only on buffers that exist and on a drained queue, so that no two
/// stages overlap; a buffer is read back only from a drained queue; and the
/// context goes after everything that lives in it.
pub open spec fn permitted(a: Action, held: Set<Resource>, in_flight: nat) -> bool {
    match a {
        Action::InitDriver | Action::SelectDevice | Action::Idle => true,
        Action::CreateContext => !held.contains(Resource::Context),
        Action::LoadModule => held.contains(Resource::Context) && !held.contains(Resource::Module),
        Action::CreateStream => held.contains(Resource::Context) && !held.contains(
            Resource::Stream,
        ),
        Action::Upload(r) | Action::AllocZeroed(r) => {
            &&& r.is_buffer()
            &&& held.contains(Resource::Context)
            &&& !held.contains(r)
        },
        Action::Launch(k) => {
            &&& held.contains(Resource::Module)
            &&& held.contains(Resource::Stream)
            &&& forall|i: int| 0 <= i < k.spec_arguments().len() ==> held.contains(
                #[trigger] k.spec_arguments()[i],
            )
            &&& in_flight == 0
        },
        Action::Synchronize => held.contains(Resource::Stream),
        Action::Download(r) => r.is_buffer() && held.contains(r) && in_flight == 0,
        Action::Release(r) => {
            &&& held.contains(r)
            &&& r == Resource::Context ==> forall|q: Resource|
                held.contains(q) ==> q == Resource::Context
        },
    }
}

/// A session never asks for what the device does not accept. In
/// particular each kernel is started on a drained queue: the stage before
/// it has run to its end.
pub proof fn lemma_every_action_is_permitted(s: SessionState)
    requires
        s.wf(),
    ensures
        permitted(s.action(), s.held, s.in_flight),
{
    match s.phase {
        Phase::Building => {
            lemma_acquired_in_setup(s.pc);
        },
        Phase::Running => {
            lemma_acquired_in_inference(s.pc);
        },
        Phase::Settling => {
            let w = choose|r: Resource| r.is_transient() && s.held.contains(r);
        },
        _ => {},
    }
}

/// A launch is followed at once by the wait for it: while a kernel is on
/// the queue, the only thing asked of a running inference is to synchronize.
pub proof fn lemma_barrier_follows_launch(s: SessionState)
    requires
        s.wf(),
        s.phase == Phase::Running,
    ensures
        s.action() is Launch ==> s.advance(true).action() == Action::Synchronize,
        s.in_flight > 0 ==> s.action() == Action::Synchronize,
{
    lemma_acquired_in_inference(s.pc);
}

/// The context is released last: when its release is due, nothing else
/// is held.
pub proof fn lemma_context_is_released_last(s: SessionState)
    requires
        s.wf(),
        s.action() == Action::Release(Resource::Context),
    ensures
        s.held == set![Resource::Context],
{
    assert(s.held =~= set![Resource::Context]);
}
} // verus!

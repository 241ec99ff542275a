//! A model of the accelerator, to say what an inference computes.
//!
//! The device of the model is as lazy as a device may be: a kernel reads
//! its arguments when it is launched, and what it writes reaches memory only
//! when the host waits for the queue to drain. On such a device a stage that
//! starts before the one before it has been waited for works on stale data.

use vstd::prelude::*;
use crate::action::{setup_script, Action};
use crate::kernel::Kernel;
use crate::construction::lemma_construction_runs_the_script;
use crate::inference::{full_script, lemma_good_steps};
use crate::model::{Phase, SessionState};
use crate::resource::Resource;
use crate::runs::{all_ok, run, trace};

verus! {

/// What the three kernels compute, on tensors of any kind.
#[verifier::reject_recursive_types(T)]
pub struct Kernels<T> {
    /// From the input and the convolution weights to the intermediate tensor.
    pub convolution: spec_fn(T, T) -> T,
    /// From the intermediate tensor to its rectified form.
    pub activation: spec_fn(T) -> T,
    /// From the intermediate tensor and the output-layer weights to the result.
    pub output: spec_fn(T, T) -> T,
}

/// What the host brings to the device.
pub struct HostData<T> {
    pub input: T,
    pub conv_weights: T,
    pub output_weights: T,
    /// The zero tensor in the shape of the intermediate tensor.
    pub zero_intermediate: T,
    /// The zero vector in the shape of the result.
    pub zero_output: T,
}

impl<T> HostData<T> {
    /// The host value that an upload into `r` copies.
    pub open spec fn uploaded(self, r: Resource) -> T {
        match r {
            Resource::ConvWeights => self.conv_weights,
            Resource::OutputWeights => self.output_weights,
            _ => self.input,
        }
    }

    /// The zeros that fill a fresh buffer `r`.
    pub open spec fn zeros(self, r: Resource) -> T {
        match r {
            Resource::Output => self.zero_output,
            _ => self.zero_intermediate,
        }
    }

    /// Device memory that holds the two weight arrays and nothing else.
    pub open spec fn weights_only(self) -> Map<Resource, T> {
        map![
            Resource::ConvWeights => self.conv_weights,
            Resource::OutputWeights => self.output_weights,
        ]
    }
}

impl<T> Kernels<T> {
    /// What kernel `k` computes from memory as it is.
    pub open spec fn result(self, k: Kernel, memory: Map<Resource, T>) -> T {
        match k {
            Kernel::Convolution => (self.convolution)(
                memory[Resource::Input],
                memory[Resource::ConvWeights],
            ),
            Kernel::Activation => (self.activation)(memory[Resource::Intermediate]),
            Kernel::Output => (self.output)(
                memory[Resource::Intermediate],
                memory[Resource::OutputWeights],
            ),
        }
    }

    /// What the pipeline is meant to compute: the output layer applied to
    /// the rectified convolution of the input.
    pub open spec fn inference(self, h: HostData<T>) -> T {
        (self.output)(
            (self.activation)((self.convolution)(h.input, h.conv_weights)),
            h.output_weights,
        )
    }
}

/// The device, as far as an inference can tell.
pub struct Device<T> {
    /// The buffers on the device and what completed work has left in them.
    pub memory: Map<Resource, T>,
    /// What the kernels on the queue will write, the oldest first.
    pub staged: Seq<(Resource, T)>,
    /// What the latest copy back has brought to the host.
    pub delivered: Option<T>,
}

/// Memory after the staged writes have been carried out in order.
pub open spec fn committed<T>(memory: Map<Resource, T>, staged: Seq<(Resource, T)>) -> Map<
    Resource,
    T,
>
    decreases staged.len(),
{
    if staged.len() == 0 {
        memory
    } else {
        committed(memory.insert(staged.first().0, staged.first().1), staged.drop_first())
    }
}

impl<T> Device<T> {
    /// The device after it has carried out `a` with success.
    pub open spec fn perform(self, a: Action, k: Kernels<T>, h: HostData<T>) -> Device<T> {
        match a {
            Action::Upload(r) => Device { memory: self.memory.insert(r, h.uploaded(r)), ..self },
            Action::AllocZeroed(r) => Device { memory: self.memory.insert(r, h.zeros(r)), ..self },
            Action::Launch(kernel) => Device {
                staged: self.staged.push((kernel.writes(), k.result(kernel, self.memory))),
                ..self
            },
            Action::Synchronize => Device {
                memory: committed(self.memory, self.staged),
                staged: Seq::empty(),
                ..self
            },
            Action::Download(r) => Device { delivered: Some(self.memory[r]), ..self },
            Action::Release(r) => Device { memory: self.memory.remove(r), ..self },
            _ => self,
        }
    }

    /// The device after it has carried out `actions` in order, each with
    /// success.
    pub open spec fn perform_all(
        self,
        actions: Seq<Action>,
        k: Kernels<T>,
        h: HostData<T>,
    ) -> Device<T>
        decreases actions.len(),
    {
        if actions.len() == 0 {
            self
        } else {
            self.perform_all(actions.drop_last(), k, h).perform(actions.last(), k, h)
        }
    }
}

/// The device after the first `n` actions of `script`.
spec fn device_after<T>(
    k: Kernels<T>,
    h: HostData<T>,
    d: Device<T>,
    script: Seq<Action>,
    n: int,
) -> Device<T> {
    d.perform_all(script.take(n), k, h)
}

proof fn lemma_next_action<T>(
    k: Kernels<T>,
    h: HostData<T>,
    d: Device<T>,
    script: Seq<Action>,
    n: int,
)
    requires
        0 <= n < script.len(),
    ensures
        device_after(k, h, d, script, n + 1) == device_after(k, h, d, script, n).perform(
            script[n],
            k,
            h,
        ),
{
    let longer = script.take(n + 1);
    assert(longer.drop_last() =~= script.take(n));
    assert(longer.last() == script[n]);
}

/// Construction brings the weights to the device. On a device whose
/// memory is empty, a construction on which every step succeeds leaves the
/// two weight arrays in memory, as the host holds them, and nothing else.
pub proof fn lemma_construction_uploads_the_weights<T>(
    k: Kernels<T>,
    h: HostData<T>,
    d: Device<T>,
)
    requires
        d.memory == Map::<Resource, T>::empty(),
    ensures
        run(SessionState::start(), all_ok(7)) == SessionState::ready(None),
        d.perform_all(trace(SessionState::start(), all_ok(7)), k, h).memory == h.weights_only(),
        d.perform_all(trace(SessionState::start(), all_ok(7)), k, h).staged == d.staged,
{
    let script = setup_script();
    lemma_construction_runs_the_script();
    assert(script.take(7) =~= script);
    assert(device_after(k, h, d, script, 0) == d);
    lemma_next_action(k, h, d, script, 0);
    lemma_next_action(k, h, d, script, 1);
    lemma_next_action(k, h, d, script, 2);
    lemma_next_action(k, h, d, script, 3);
    lemma_next_action(k, h, d, script, 4);
    lemma_next_action(k, h, d, script, 5);
    lemma_next_action(k, h, d, script, 6);
    assert(device_after(k, h, d, script, 7).memory =~= h.weights_only());
}

/// An inference computes what it is meant to. On a device that holds the
/// weights and has a drained queue, an inference on which every action
/// succeeds delivers the output layer applied to the rectified convolution
/// of the input. Each stage finds in memory what the stage before it has
/// written in full: when the activation is launched the intermediate tensor
/// is the convolution of the input, and when the output stage is launched
/// it is the rectified convolution. At the end the device holds the
/// weights and nothing else, as before, so that the same input gives the
/// same result again.
pub proof fn lemma_inference_computes<T>(
    k: Kernels<T>,
    h: HostData<T>,
    s: SessionState,
    d: Device<T>,
)
    requires
        s.wf(),
        s.phase == Phase::Ready,
        d.memory == h.weights_only(),
        d.staged.len() == 0,
    ensures
        run(s.begin(), all_ok(4)).action() == Action::Launch(Kernel::Activation),
        d.perform_all(trace(s.begin(), all_ok(4)), k, h).memory[Resource::Intermediate] == (
        k.convolution)(h.input, h.conv_weights),
        run(s.begin(), all_ok(7)).action() == Action::Launch(Kernel::Output),
        d.perform_all(trace(s.begin(), all_ok(7)), k, h).memory[Resource::Intermediate] == (
        k.activation)((k.convolution)(h.input, h.conv_weights)),
        d.perform_all(trace(s.begin(), all_ok(13)), k, h).delivered == Some(k.inference(h)),
        d.perform_all(trace(s.begin(), all_ok(13)), k, h).memory == h.weights_only(),
        d.perform_all(trace(s.begin(), all_ok(13)), k, h).staged.len() == 0,
        run(s.begin(), all_ok(13)) == SessionState::ready(None),
{
    lemma_good_steps(s, 4);
    lemma_good_steps(s, 7);
    lemma_good_steps(s, 13);
    assert(full_script().take(13) =~= full_script());
    reveal_with_fuel(committed, 2);
    let conv = (k.convolution)(h.input, h.conv_weights);
    let act = (k.activation)(conv);

    let d0 = device_after(k, h, d, full_script(), 0);
    assert(d0 == d);
    lemma_next_action(k, h, d, full_script(), 0);
    lemma_next_action(k, h, d, full_script(), 1);
    lemma_next_action(k, h, d, full_script(), 2);
    let d3 = device_after(k, h, d, full_script(), 3);
    assert(d3.staged =~= seq![(Resource::Intermediate, conv)]);
    lemma_next_action(k, h, d, full_script(), 3);
    let d4 = device_after(k, h, d, full_script(), 4);
    assert(d4.memory[Resource::Intermediate] == conv);
    assert(d4.staged.len() == 0);
    lemma_next_action(k, h, d, full_script(), 4);
    let d5 = device_after(k, h, d, full_script(), 5);
    assert(d5.staged =~= seq![(Resource::Intermediate, act)]);
    lemma_next_action(k, h, d, full_script(), 5);
    lemma_next_action(k, h, d, full_script(), 6);
    let d7 = device_after(k, h, d, full_script(), 7);
    assert(d7.memory[Resource::Intermediate] == act);
    assert(d7.staged.len() == 0);
    lemma_next_action(k, h, d, full_script(), 7);
    let d8 = device_after(k, h, d, full_script(), 8);
    assert(d8.staged =~= seq![(Resource::Output, k.inference(h))]);
    lemma_next_action(k, h, d, full_script(), 8);
    lemma_next_action(k, h, d, full_script(), 9);
    let d10 = device_after(k, h, d, full_script(), 10);
    assert(d10.delivered == Some(k.inference(h)));
    lemma_next_action(k, h, d, full_script(), 10);
    lemma_next_action(k, h, d, full_script(), 11);
    lemma_next_action(k, h, d, full_script(), 12);
    let d13 = device_after(k, h, d, full_script(), 13);
    assert(d13.memory =~= h.weights_only());
}

} // verus!

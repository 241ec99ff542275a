//! Device-resident resources and sets of them.

use vstd::prelude::*;

verus! {

/// Something that lives on the accelerator and has to be given back.
#[derive(Clone, Copy, Debug, PartialEq, Eq, Hash, Structural)]
pub enum Resource {
    /// The device context, under which everything else is allocated.
    Context,
    /// The loaded kernel module.
    Module,
    /// The asynchronous command queue.
    Stream,
    /// The convolution weights, resident for the session's lifetime.
    ConvWeights,
    /// The output-layer weights, resident for the session's lifetime.
    OutputWeights,
    /// The input tensor of one inference.
    Input,
    /// The tensor that the convolution writes and the activation rewrites.
    Intermediate,
    /// The result vector of one inference.
    Output,
}

impl Resource {
    /// The resources that are memory on the device, as opposed to handles.
    pub open spec fn is_buffer(self) -> bool {
        self != Resource::Context && self != Resource::Module && self != Resource::Stream
    }

    /// The buffers that live for one inference only.
    pub open spec fn is_transient(self) -> bool {
        self == Resource::Input || self == Resource::Intermediate || self == Resource::Output
    }

    /// Position in the one order in which resources are released: the
    /// buffers of an inference, then the weights, the module and the queue,
    /// and the context after everything else.
    pub open spec fn release_rank(self) -> nat {
        match self {
            Resource::Output => 0,
            Resource::Intermediate => 1,
            Resource::Input => 2,
            Resource::ConvWeights => 3,
            Resource::OutputWeights => 4,
            Resource::Module => 5,
            Resource::Stream => 6,
            Resource::Context => 7,
        }
    }
}

/// The resources that a built session holds between inferences.
pub open spec fn session_resources() -> Set<Resource> {
    set![
        Resource::Context,
        Resource::Module,
        Resource::Stream,
        Resource::ConvWeights,
        Resource::OutputWeights,
    ]
}

/// One if `r` is in the set, zero if not.
pub open spec fn indicator(held: Set<Resource>, r: Resource) -> nat {
    if held.contains(r) {
        1
    } else {
        0
    }
}

/// How many buffers of an inference a set holds.
pub open spec fn count_transient(held: Set<Resource>) -> nat {
    indicator(held, Resource::Input) + indicator(held, Resource::Intermediate) + indicator(
        held,
        Resource::Output,
    )
}

/// How many resources that outlive an inference a set holds.
pub open spec fn count_lasting(held: Set<Resource>) -> nat {
    indicator(held, Resource::Context) + indicator(held, Resource::Module) + indicator(
        held,
        Resource::Stream,
    ) + indicator(held, Resource::ConvWeights) + indicator(held, Resource::OutputWeights)
}

/// How many resources a set holds.
pub open spec fn count(held: Set<Resource>) -> nat {
    count_lasting(held) + count_transient(held)
}

/// The held resource that is released first: the one of least rank.
/// On the empty set it names the context.
pub open spec fn first_release(held: Set<Resource>) -> Resource {
    if held.contains(Resource::Output) {
        Resource::Output
    } else if held.contains(Resource::Intermediate) {
        Resource::Intermediate
    } else if held.contains(Resource::Input) {
        Resource::Input
    } else if held.contains(Resource::ConvWeights) {
        Resource::ConvWeights
    } else if held.contains(Resource::OutputWeights) {
        Resource::OutputWeights
    } else if held.contains(Resource::Module) {
        Resource::Module
    } else if held.contains(Resource::Stream) {
        Resource::Stream
    } else {
        Resource::Context
    }
}

/// `first_release` picks a held resource, and none that is held ranks below it.
pub proof fn lemma_first_release_is_least(held: Set<Resource>)
    requires
        exists|r: Resource| held.contains(r),
    ensures
        held.contains(first_release(held)),
        forall|r: Resource|
            held.contains(r) ==> first_release(held).release_rank() <= r.release_rank(),
{
    let w = choose|r: Resource| held.contains(r);
    match w {
        Resource::Context => {},
        Resource::Module => {},
        Resource::Stream => {},
        Resource::ConvWeights => {},
        Resource::OutputWeights => {},
        Resource::Input => {},
        Resource::Intermediate => {},
        Resource::Output => {},
    }
}

/// The set of resources held, as eight flags.
#[derive(Clone, Copy, Debug)]
pub struct Held {
    context: bool,
    module: bool,
    stream: bool,
    conv_weights: bool,
    output_weights: bool,
    input: bool,
    intermediate: bool,
    output: bool,
}

impl View for Held {
    type V = Set<Resource>;

    closed spec fn view(&self) -> Set<Resource> {
        Set::new(|r: Resource| self.flag(r))
    }
}

impl Held {
    spec fn flag(self, r: Resource) -> bool {
        match r {
            Resource::Context => self.context,
            Resource::Module => self.module,
            Resource::Stream => self.stream,
            Resource::ConvWeights => self.conv_weights,
            Resource::OutputWeights => self.output_weights,
            Resource::Input => self.input,
            Resource::Intermediate => self.intermediate,
            Resource::Output => self.output,
        }
    }

    /// The empty set.
    pub fn empty() -> (h: Held)
        ensures
            h@ == Set::<Resource>::empty(),
    {
        Held {
            context: false,
            module: false,
            stream: false,
            conv_weights: false,
            output_weights: false,
            input: false,
            intermediate: false,
            output: false,
        }
    }

    /// Whether `r` is in the set.
    pub fn contains(&self, r: Resource) -> (b: bool)
        ensures
            b == self@.contains(r),
    {
        match r {
            Resource::Context => self.context,
            Resource::Module => self.module,
            Resource::Stream => self.stream,
            Resource::ConvWeights => self.conv_weights,
            Resource::OutputWeights => self.output_weights,
            Resource::Input => self.input,
            Resource::Intermediate => self.intermediate,
            Resource::Output => self.output,
        }
    }

    /// The set with `r` added.
    pub fn with(&self, r: Resource) -> (h: Held)
        ensures
            h@ == self@.insert(r),
    {
        let mut h = *self;
        match r {
            Resource::Context => { h.context = true; },
            Resource::Module => { h.module = true; },
            Resource::Stream => { h.stream = true; },
            Resource::ConvWeights => { h.conv_weights = true; },
            Resource::OutputWeights => { h.output_weights = true; },
            Resource::Input => { h.input = true; },
            Resource::Intermediate => { h.intermediate = true; },
            Resource::Output => { h.output = true; },
        }
        h
    }

    /// The set with `r` taken out.
    pub fn without(&self, r: Resource) -> (h: Held)
        ensures
            h@ == self@.remove(r),
    {
        let mut h = *self;
        match r {
            Resource::Context => { h.context = false; },
            Resource::Module => { h.module = false; },
            Resource::Stream => { h.stream = false; },
            Resource::ConvWeights => { h.conv_weights = false; },
            Resource::OutputWeights => { h.output_weights = false; },
            Resource::Input => { h.input = false; },
            Resource::Intermediate => { h.intermediate = false; },
            Resource::Output => { h.output = false; },
        }
        h
    }

    /// Whether nothing is held.
    pub fn is_empty(&self) -> (b: bool)
        ensures
            b == (self@ == Set::<Resource>::empty()),
    {
        let b = !(self.context || self.module || self.stream || self.conv_weights
            || self.output_weights || self.input || self.intermediate || self.output);
        proof {
            if b {
                assert(self@ =~= Set::<Resource>::empty());
            } else {
                let r = if self.context {
                    Resource::Context
                } else if self.module {
                    Resource::Module
                } else if self.stream {
                    Resource::Stream
                } else if self.conv_weights {
                    Resource::ConvWeights
                } else if self.output_weights {
                    Resource::OutputWeights
                } else if self.input {
                    Resource::Input
                } else if self.intermediate {
                    Resource::Intermediate
                } else {
                    Resource::Output
                };
                assert(self@.contains(r));
            }
        }
        b
    }

    /// Whether a buffer of an inference is held.
    pub fn has_transient(&self) -> (b: bool)
        ensures
            b == exists|r: Resource| r.is_transient() && self@.contains(r),
    {
        let b = self.input || self.intermediate || self.output;
        proof {
            if b {
                let r = if self.input {
                    Resource::Input
                } else if self.intermediate {
                    Resource::Intermediate
                } else {
                    Resource::Output
                };
                assert(r.is_transient() && self@.contains(r));
            }
        }
        b
    }

    /// The resource to release first.
    pub fn first_release(&self) -> (r: Resource)
        ensures
            r == first_release(self@),
    {
        if self.output {
            Resource::Output
        } else if self.intermediate {
            Resource::Intermediate
        } else if self.input {
            Resource::Input
        } else if self.conv_weights {
            Resource::ConvWeights
        } else if self.output_weights {
            Resource::OutputWeights
        } else if self.module {
            Resource::Module
        } else if self.stream {
            Resource::Stream
        } else {
            Resource::Context
        }
    }
}

} // verus!

//! The three kernels of the pipeline: names, launch shapes, arguments.

use vstd::prelude::*;
use crate::geometry::{Dim3, LaunchConfig, intermediate_len, output_len};
use crate::resource::Resource;

verus! {

/// An entry point of the kernel module.
#[derive(Clone, Copy, Debug, PartialEq, Eq, Hash, Structural)]
pub enum Kernel {
    /// Reads the input and the convolution weights, writes the intermediate tensor.
    Convolution,
    /// Rectifies the intermediate tensor in place.
    Activation,
    /// Reads the intermediate tensor and the output-layer weights, writes the result.
    Output,
}

impl Kernel {
    /// Name of the entry point in the kernel module.
    pub open spec fn spec_entry_point(self) -> Seq<char> {
        match self {
            Kernel::Convolution => "convolution"@,
            Kernel::Activation => "relu"@,
            Kernel::Output => "output"@,
        }
    }

    /// Name of the entry point in the kernel module.
    pub fn entry_point(self) -> (name: &'static str)
        ensures
            name@ == self.spec_entry_point(),
    {
        match self {
            Kernel::Convolution => "convolution",
            Kernel::Activation => "relu",
            Kernel::Output => "output",
        }
    }

    /// Shape of the launch: convolution and activation run on a grid of
    /// twenty by twenty blocks of ten threads, the output stage on one block
    /// of ten threads; none uses dynamic shared memory.
    pub open spec fn spec_config(self) -> LaunchConfig {
        match self {
            Kernel::Convolution | Kernel::Activation => LaunchConfig {
                grid: Dim3 { x: 20, y: 20, z: 1 },
                block: Dim3 { x: 10, y: 1, z: 1 },
                shared_mem_bytes: 0,
            },
            Kernel::Output => LaunchConfig {
                grid: Dim3 { x: 1, y: 1, z: 1 },
                block: Dim3 { x: 10, y: 1, z: 1 },
                shared_mem_bytes: 0,
            },
        }
    }

    /// Shape of the launch.
    pub fn config(self) -> (c: LaunchConfig)
        ensures
            c == self.spec_config(),
    {
        match self {
            Kernel::Convolution | Kernel::Activation => LaunchConfig {
                grid: Dim3::xy(20, 20),
                block: Dim3::x(10),
                shared_mem_bytes: 0,
            },
            Kernel::Output => LaunchConfig {
                grid: Dim3::x(1),
                block: Dim3::x(10),
                shared_mem_bytes: 0,
            },
        }
    }

    /// The buffers handed to the kernel, in the order of its parameters.
    pub open spec fn spec_arguments(self) -> Seq<Resource> {
        match self {
            Kernel::Convolution => seq![
                Resource::Input,
                Resource::ConvWeights,
                Resource::Intermediate,
            ],
            Kernel::Activation => seq![Resource::Intermediate],
            Kernel::Output => seq![
                Resource::Intermediate,
                Resource::OutputWeights,
                Resource::Output,
            ],
        }
    }

    /// The buffers handed to the kernel, in the order of its parameters.
    pub fn arguments(self) -> (args: Vec<Resource>)
        ensures
            args@ == self.spec_arguments(),
    {
        let mut args: Vec<Resource> = Vec::new();
        match self {
            Kernel::Convolution => {
                args.push(Resource::Input);
                args.push(Resource::ConvWeights);
                args.push(Resource::Intermediate);
            },
            Kernel::Activation => {
                args.push(Resource::Intermediate);
            },
            Kernel::Output => {
                args.push(Resource::Intermediate);
                args.push(Resource::OutputWeights);
                args.push(Resource::Output);
            },
        }
        args
    }

    /// The buffer that the kernel writes: its last argument.
    pub open spec fn writes(self) -> Resource {
        match self {
            Kernel::Convolution | Kernel::Activation => Resource::Intermediate,
            Kernel::Output => Resource::Output,
        }
    }

    /// Whether the kernel reads buffer `r`.
    pub open spec fn reads(self, r: Resource) -> bool {
        match self {
            Kernel::Convolution => r == Resource::Input || r == Resource::ConvWeights,
            Kernel::Activation => r == Resource::Intermediate,
            Kernel::Output => r == Resource::Intermediate || r == Resource::OutputWeights,
        }
    }

    /// Number of elements of the buffer that the kernel writes.
    pub open spec fn elements_written(self) -> nat {
        match self {
            Kernel::Convolution | Kernel::Activation => intermediate_len(),
            Kernel::Output => output_len(),
        }
    }
}

/// Every launch has a shape that a device accepts and starts one thread for
/// each element of the buffer that the kernel writes, and the buffers that a
/// kernel reads or writes are exactly its arguments.
pub proof fn lemma_launch_matches_buffers(k: Kernel)
    ensures
        k.spec_config().valid(),
        k.spec_config().threads() == k.elements_written(),
        k.spec_arguments().last() == k.writes(),
        forall|r: Resource|
            k.spec_arguments().contains(r) <==> (k.reads(r) || k.writes() == r),
{
    let c = k.spec_config();
    assert(c.grid.volume() * c.block.volume() == k.elements_written()) by {
        assert(intermediate_len() == 4000) by (nonlinear_arith);
        assert(c.block.volume() == 10) by (nonlinear_arith)
            requires
                c.block == (Dim3 { x: 10, y: 1, z: 1 }),
        ;
        match k {
            Kernel::Output => {
                assert(c.grid.volume() == 1) by (nonlinear_arith)
                    requires
                        c.grid == (Dim3 { x: 1, y: 1, z: 1 }),
                ;
            },
            _ => {
                assert(c.grid.volume() == 400) by (nonlinear_arith)
                    requires
                        c.grid == (Dim3 { x: 20, y: 20, z: 1 }),
                ;
            },
        }
    }
    assert forall|r: Resource|
        k.spec_arguments().contains(r) <==> (k.reads(r) || k.writes() == r) by {
        let a = k.spec_arguments();
        if k.reads(r) || k.writes() == r {
            match k {
                Kernel::Convolution => {
                    assert(a[0] == Resource::Input && a[1] == Resource::ConvWeights && a[2]
                        == Resource::Intermediate);
                },
                Kernel::Activation => {
                    assert(a[0] == Resource::Intermediate);
                },
                Kernel::Output => {
                    assert(a[0] == Resource::Intermediate && a[1] == Resource::OutputWeights
                        && a[2] == Resource::Output);
                },
            }
        }
    }
}

} // verus!

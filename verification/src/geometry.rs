//! The fixed problem size and the launch shapes that follow from it.

use vstd::prelude::*;

verus! {

/// Side length of one feature map that the convolution produces.
pub const CONV_OUT_DIM: usize = 20;

/// Number of feature maps that the convolution produces.
pub const CONV_LAYER_SIZE: usize = 10;

/// Length of the result vector.
pub const OUT_LAYER_SIZE: usize = 10;

/// Ordinal of the device that a session runs on.
pub const DEVICE_ORDINAL: u32 = 0;

/// Number of elements of the intermediate tensor.
pub open spec fn intermediate_len() -> nat {
    (CONV_LAYER_SIZE * CONV_OUT_DIM * CONV_OUT_DIM) as nat
}

/// Number of elements of the result vector.
pub open spec fn output_len() -> nat {
    OUT_LAYER_SIZE as nat
}

/// Extent of a grid or of a block along three axes.
#[derive(Clone, Copy, Debug, PartialEq, Eq, Structural)]
pub struct Dim3 {
    pub x: u32,
    pub y: u32,
    pub z: u32,
}

impl Dim3 {
    /// A one-dimensional extent: `x` along the first axis, one along the others.
    pub fn x(x: u32) -> (d: Dim3)
        ensures
            d == (Dim3 { x, y: 1, z: 1 }),
    {
        Dim3 { x, y: 1, z: 1 }
    }

    /// A two-dimensional extent of `x` by `y`, one deep.
    pub fn xy(x: u32, y: u32) -> (d: Dim3)
        ensures
            d == (Dim3 { x, y, z: 1 }),
    {
        Dim3 { x, y, z: 1 }
    }

    /// Number of cells.
    pub open spec fn volume(self) -> nat {
        (self.x * self.y * self.z) as nat
    }

    /// A device accepts an extent only if no axis is empty.
    pub open spec fn valid(self) -> bool {
        self.x >= 1 && self.y >= 1 && self.z >= 1
    }
}

/// How a kernel is spread over the device.
#[derive(Clone, Copy, Debug, PartialEq, Eq, Structural)]
pub struct LaunchConfig {
    /// Number of blocks.
    pub grid: Dim3,
    /// Number of threads in each block.
    pub block: Dim3,
    /// Dynamic shared memory per block, in bytes.
    pub shared_mem_bytes: u32,
}

impl LaunchConfig {
    /// Number of threads that the launch starts.
    pub open spec fn threads(self) -> nat {
        self.grid.volume() * self.block.volume()
    }

    /// Both extents are accepted by a device.
    pub open spec fn valid(self) -> bool {
        self.grid.valid() && self.block.valid()
    }
}

} // verus!

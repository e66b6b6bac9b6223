//! The records that the host and the kernel share.
//!
//! Every field that the kernel reads as a 32-bit float is kept here as the
//! bit pattern of that float (IEEE-754 binary32), so that a record is moved
//! between host and device without any of its bits being interpreted.

use vstd::prelude::*;

verus! {

/// What is compiled into the kernel: the number of bodies that each particle
/// buffer has room for. It never changes while a pipeline lives.
#[derive(Debug, Clone, Copy, PartialEq, Eq, Structural)]
pub struct StaticConfig {
    pub max_bodies: u32,
}

/// Bit pattern of the step size that a new pipeline starts with: 3600.
pub const DEFAULT_DT: u32 = 0x4561_0000;

/// What the kernel is told before every batch of dispatches.
#[derive(Debug, Clone, Copy, PartialEq, Eq, Structural)]
pub struct DynamicConfig {
    /// Number of bodies currently in play.
    pub num_bodies: u32,
    /// Bit pattern of the integration step size.
    pub dt: u32,
}

impl Default for DynamicConfig {
    fn default() -> (r: Self)
        ensures
            r == (DynamicConfig { num_bodies: 0, dt: DEFAULT_DT }),
    {
        DynamicConfig { num_bodies: 0, dt: DEFAULT_DT }
    }
}

/// One particle. All eight fields are bit patterns of 32-bit floats.
#[derive(Debug, Clone, Copy, PartialEq, Eq)]
pub struct Body {
    pub position: [u32; 3],
    pub mass: u32,
    pub velocity: [u32; 3],
    pub mu: u32,
}

impl Default for Body {
    /// The body whose fields are all positive zero.
    fn default() -> (r: Self)
        ensures
            r.position@ == seq![0u32, 0u32, 0u32],
            r.mass == 0,
            r.velocity@ == seq![0u32, 0u32, 0u32],
            r.mu == 0,
    {
        Body { position: [0, 0, 0], mass: 0, velocity: [0, 0, 0], mu: 0 }
    }
}

} // verus!

//! A model of the device, for saying what the commands of a pipeline amount
//! to once they are carried out.
//!
//! Nothing here runs. Device memory is three byte sequences, a kernel is a
//! function on byte sequences, and [`System`] puts a pipeline's state and the
//! device's memory side by side, with one function for each operation of a
//! pipeline that applies the operation's commands to the memory.

use crate::pipeline::{BufferSlice, Dispatch, PipelineState, SourceBuffer};
use crate::structures::{Body, StaticConfig};
use crate::wire::{bodies_from_wire, bodies_wire};
use vstd::prelude::*;

verus! {

/// What one dispatch of a kernel leaves in its destination buffer, given the
/// configuration buffer, the number of workgroups, the source buffer and
/// the destination buffer as it was. The source is bound read-only and stays
/// as it is.
pub type Kernel = spec_fn(Seq<u8>, u32, Seq<u8>, Seq<u8>) -> Seq<u8>;

/// The contents of the configuration buffer and of the two particle buffers.
#[verifier::ext_equal]
pub struct DeviceMemory {
    pub config: Seq<u8>,
    pub buffer_a: Seq<u8>,
    pub buffer_b: Seq<u8>,
}

impl DeviceMemory {
    /// The contents of one of the particle buffers.
    pub open spec fn buffer(self, which: SourceBuffer) -> Seq<u8> {
        match which {
            SourceBuffer::A => self.buffer_a,
            SourceBuffer::B => self.buffer_b,
        }
    }

    /// The bytes of the first `count` records of one of the particle buffers.
    pub open spec fn records(self, which: SourceBuffer, count: nat) -> Seq<u8> {
        self.buffer(which).subrange(0, 32 * count as int)
    }

    /// The memory with one of the particle buffers replaced.
    pub open spec fn with_buffer(self, which: SourceBuffer, bytes: Seq<u8>) -> DeviceMemory {
        match which {
            SourceBuffer::A => DeviceMemory { buffer_a: bytes, ..self },
            SourceBuffer::B => DeviceMemory { buffer_b: bytes, ..self },
        }
    }

    /// Whether the buffers have the sizes that a pipeline of this capacity
    /// asks for.
    pub open spec fn allocated_for(self, static_config: StaticConfig) -> bool {
        &&& self.config.len() == 16
        &&& self.buffer_a.len() == 32 * static_config.max_bodies
        &&& self.buffer_b.len() == 32 * static_config.max_bodies
    }

    /// Whether the memory is as a device hands it out for a new pipeline of
    /// this capacity: buffers of the sizes asked for, filled with zeros.
    pub open spec fn fresh_for(self, static_config: StaticConfig) -> bool {
        &&& self.allocated_for(static_config)
        &&& forall|i: int| 0 <= i < self.config.len() ==> self.config[i] == 0
        &&& forall|i: int| 0 <= i < self.buffer_a.len() ==> self.buffer_a[i] == 0
        &&& forall|i: int| 0 <= i < self.buffer_b.len() ==> self.buffer_b[i] == 0
    }

    /// The memory after `bytes` were copied into the configuration buffer.
    pub open spec fn upload_config(self, bytes: Seq<u8>) -> DeviceMemory {
        DeviceMemory { config: bytes, ..self }
    }

    /// The memory after `bytes` were copied to the start of a particle
    /// buffer. What lies behind them stays.
    pub open spec fn write(self, slice: BufferSlice, bytes: Seq<u8>) -> DeviceMemory {
        let before = self.buffer(slice.buffer);
        self.with_buffer(slice.buffer, bytes + before.subrange(bytes.len() as int, before.len() as int))
    }

    /// The bytes found in a slice.
    pub open spec fn read(self, slice: BufferSlice) -> Seq<u8> {
        self.buffer(slice.buffer).subrange(0, slice.upper_bound as int)
    }

    /// The memory after one dispatch.
    pub open spec fn dispatch(self, kernel: Kernel, dispatch: Dispatch) -> DeviceMemory {
        let destination = dispatch.source.other();
        self.with_buffer(
            destination,
            kernel(
                self.config,
                dispatch.workgroups,
                self.buffer(dispatch.source),
                self.buffer(destination),
            ),
        )
    }

    /// The memory after the dispatches of a batch, executed in order.
    pub open spec fn run(self, kernel: Kernel, batch: Seq<Dispatch>) -> DeviceMemory
        decreases batch.len(),
    {
        if batch.len() == 0 {
            self
        } else {
            self.run(kernel, batch.drop_last()).dispatch(kernel, batch.last())
        }
    }
}

/// A pipeline's state and the memory of its device.
pub struct System {
    pub host: PipelineState,
    pub device: DeviceMemory,
}

impl System {
    /// The state is in order and the buffers have the sizes it asks for.
    pub open spec fn wf(self) -> bool {
        &&& self.host.wf()
        &&& self.device.allocated_for(self.host.static_config)
    }

    /// The system after a pipeline was created on newly allocated memory and
    /// its first configuration was uploaded.
    pub open spec fn created(static_config: StaticConfig, device: DeviceMemory) -> System {
        System {
            host: PipelineState::initial(static_config),
            device: device.upload_config(
                PipelineState::initial(static_config).dynamic_config.wire(),
            ),
        }
    }

    /// The system after `set_dt`: the device is not told yet.
    pub open spec fn set_dt(self, dt: u32) -> System {
        System { host: self.host.with_dt(dt), ..self }
    }

    /// The system after `write_bodies` and the copy it asks for. Bodies that
    /// do not fit change nothing.
    pub open spec fn write_bodies(self, bodies: Seq<Body>) -> System {
        if self.host.accepts(bodies.len()) {
            System {
                host: self.host.with_bodies(bodies.len()),
                device: self.device.write(
                    self.host.input_slice(bodies.len()),
                    bodies_wire(bodies),
                ),
            }
        } else {
            self
        }
    }

    /// The system after `submit_and_block` and the batch it asks for: the
    /// configuration is uploaded, then the dispatches run.
    pub open spec fn submit_and_block(self, kernel: Kernel, passes: nat) -> System {
        System {
            host: self.host.after_passes(passes),
            device: self.device.upload_config(self.host.dynamic_config.wire()).run(
                kernel,
                self.host.batch(passes),
            ),
        }
    }

    /// What `read_bodies` returns for the bytes found in the output slice.
    pub open spec fn read_bodies(self) -> Seq<Body> {
        bodies_from_wire(self.device.read(self.host.output_slice()))
    }
}

} // verus!

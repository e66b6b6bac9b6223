//! The ping-pong state of the two particle buffers and the operations that
//! advance it.
//!
//! A [`Pipeline`] is the host's side of the simulation: which buffer is the
//! source of the next dispatch, how many bodies are in play, and the step
//! size. Its operations change that state and describe, as plain values, what
//! the device has to be told. [`PipelineState`] is the same state as a record
//! that contracts and laws speak of.

use crate::error::PipelineError;
use crate::kernel::{
    body_bindgroup_layout, body_layout, config_bindgroup_layout, config_layout, kernel_text,
    render, BindGroupLayoutEntry,
};
use crate::structures::{Body, DynamicConfig, StaticConfig, DEFAULT_DT};
use crate::wire::{
    bodies_from_wire, bodies_wire, decode_bodies, encode_bodies, BODY_SIZE, CONFIG_SIZE,
};
use vstd::prelude::*;
use vstd::string::*;

verus! {

/// Bodies that one workgroup of the kernel handles.
pub const WORKGROUP_SIZE: u32 = 64;

/// Names one of the two particle buffers on the device.
///
/// As the state of a pipeline it is the buffer that the next dispatch reads
/// from; the other one receives that dispatch's output.
#[derive(Debug, Clone, Copy, PartialEq, Eq, Structural)]
pub enum SourceBuffer {
    A,
    B,
}

impl SourceBuffer {
    /// The buffer that this one is paired with.
    pub open spec fn spec_other(self) -> SourceBuffer {
        match self {
            SourceBuffer::A => SourceBuffer::B,
            SourceBuffer::B => SourceBuffer::A,
        }
    }

    /// The buffer that this one is paired with.
    #[verifier::when_used_as_spec(spec_other)]
    pub fn other(self) -> (r: Self)
        ensures
            r == self.spec_other(),
    {
        match self {
            SourceBuffer::A => SourceBuffer::B,
            SourceBuffer::B => SourceBuffer::A,
        }
    }

    /// The source buffer after `passes` dispatches, each of which swaps the
    /// roles of the two buffers once.
    pub open spec fn after_toggles(self, passes: nat) -> SourceBuffer
        decreases passes,
    {
        if passes == 0 {
            self
        } else {
            self.after_toggles((passes - 1) as nat).other()
        }
    }
}

/// The leading `upper_bound` bytes of one of the two particle buffers.
#[derive(Debug, Clone, Copy, PartialEq, Eq, Structural)]
pub struct BufferSlice {
    pub buffer: SourceBuffer,
    pub upper_bound: u64,
}

/// Bytes to be copied into a slice of a particle buffer, which has to be
/// mapped for writing first and unmapped afterwards.
#[derive(Debug, Clone, PartialEq, Eq)]
pub struct BufferWrite {
    pub slice: BufferSlice,
    pub bytes: Vec<u8>,
}

/// One invocation of the kernel: it reads `source`, writes the other buffer,
/// and runs over `workgroups` workgroups.
#[derive(Debug, Clone, Copy, PartialEq, Eq, Structural)]
pub struct Dispatch {
    pub source: SourceBuffer,
    pub workgroups: u32,
}

/// What is sent to the device for one batch of simulation steps: the bytes of
/// the configuration buffer, then the dispatches, to be submitted together and
/// executed in order.
#[derive(Debug, Clone, PartialEq, Eq)]
pub struct Submission {
    pub config: Vec<u8>,
    pub dispatches: Vec<Dispatch>,
}

/// What the device has to be given before a pipeline can run: the kernel to
/// compile and the layouts of its two binding groups, the sizes of the
/// configuration buffer and of each of the two particle buffers, and the
/// first contents of the configuration buffer.
#[derive(Debug, Clone, PartialEq, Eq)]
pub struct DeviceSetup {
    /// The kernel source, specialised for the pipeline's capacity.
    pub shader: String,
    /// The name of the kernel's entry point.
    pub entry_point: String,
    pub config_bindgroup_layout: Vec<BindGroupLayoutEntry>,
    pub body_bindgroup_layout: Vec<BindGroupLayoutEntry>,
    pub config_buffer_size: u64,
    pub body_buffer_size: u64,
    pub config: Vec<u8>,
}

impl DeviceSetup {
    /// Whether everything but the kernel source is as a pipeline of this
    /// capacity and entry point asks for.
    pub open spec fn fits(self, entry_point: Seq<char>, static_config: StaticConfig) -> bool {
        &&& self.entry_point@ == entry_point
        &&& self.config_bindgroup_layout@ == config_layout()
        &&& self.body_bindgroup_layout@ == body_layout()
        &&& self.config_buffer_size == CONFIG_SIZE
        &&& self.body_buffer_size == BODY_SIZE * static_config.max_bodies
        &&& self.config@ == PipelineState::initial(static_config).dynamic_config.wire()
    }
}

/// What the completion callback of an operation on the device has reported so
/// far.
#[derive(Debug, Clone, Copy, PartialEq, Eq, Structural)]
pub enum Completion {
    Pending,
    Done,
    Failed,
}

/// What the host does next while it waits for the device.
#[derive(Debug, Clone, Copy, PartialEq, Eq, Structural)]
pub enum Wait {
    /// Drive the device's event loop once more and look again.
    Poll,
    /// The operation is complete: go on.
    Proceed,
}

/// Workgroups that cover `num_bodies` bodies: the count divided by the
/// workgroup size, rounded up.
pub open spec fn workgroups_for(num_bodies: u32) -> u32 {
    ((num_bodies + 63) / 64) as u32
}

/// The state of a pipeline as a plain record.
#[derive(Debug, Clone, Copy, PartialEq, Eq, Structural)]
pub struct PipelineState {
    /// The buffer that host writes go to and that the next dispatch reads.
    pub active_source: SourceBuffer,
    pub static_config: StaticConfig,
    pub dynamic_config: DynamicConfig,
}

impl PipelineState {
    /// No more bodies are in play than the buffers have room for.
    pub open spec fn wf(self) -> bool {
        self.dynamic_config.num_bodies <= self.static_config.max_bodies
    }

    /// The state of a new pipeline.
    pub open spec fn initial(static_config: StaticConfig) -> PipelineState {
        PipelineState {
            active_source: SourceBuffer::A,
            static_config,
            dynamic_config: DynamicConfig { num_bodies: 0, dt: DEFAULT_DT },
        }
    }

    /// The state after the step size was set.
    pub open spec fn with_dt(self, dt: u32) -> PipelineState {
        PipelineState {
            dynamic_config: DynamicConfig { dt, ..self.dynamic_config },
            ..self
        }
    }

    /// Whether `count` bodies fit.
    pub open spec fn accepts(self, count: nat) -> bool {
        count <= self.static_config.max_bodies
    }

    /// The state after `count` bodies were written.
    pub open spec fn with_bodies(self, count: nat) -> PipelineState {
        PipelineState {
            dynamic_config: DynamicConfig { num_bodies: count as u32, ..self.dynamic_config },
            ..self
        }
    }

    /// Where `count` bodies are written: the start of the active buffer.
    pub open spec fn input_slice(self, count: nat) -> BufferSlice {
        BufferSlice { buffer: self.active_source, upper_bound: (32 * count) as u64 }
    }

    /// Where results are read: as many bodies as are in play, at the start
    /// of the buffer that is not active.
    pub open spec fn output_slice(self) -> BufferSlice {
        BufferSlice {
            buffer: self.active_source.other(),
            upper_bound: (32 * self.dynamic_config.num_bodies) as u64,
        }
    }

    /// The dispatch that comes after `before` others of the same batch.
    pub open spec fn dispatch(self, before: nat) -> Dispatch {
        Dispatch {
            source: self.active_source.after_toggles(before),
            workgroups: workgroups_for(self.dynamic_config.num_bodies),
        }
    }

    /// The dispatches of a batch of `passes` steps, in order.
    pub open spec fn batch(self, passes: nat) -> Seq<Dispatch> {
        Seq::new(passes, |i: int| self.dispatch(i as nat))
    }

    /// The state after a batch of `passes` steps.
    pub open spec fn after_passes(self, passes: nat) -> PipelineState {
        PipelineState { active_source: self.active_source.after_toggles(passes), ..self }
    }
}

/// An even number of swaps leaves the source buffer as it was, an odd number
/// leaves the other one.
pub proof fn lemma_toggle_parity(start: SourceBuffer, passes: nat)
    ensures
        start.after_toggles(passes) == if passes % 2 == 0 {
            start
        } else {
            start.other()
        },
    decreases passes,
{
    if passes > 0 {
        lemma_toggle_parity(start, (passes - 1) as nat);
    }
}

/// The host's side of the simulation.
#[derive(Debug)]
pub struct Pipeline {
    state: PipelineState,
}

impl View for Pipeline {
    type V = PipelineState;

    closed spec fn view(&self) -> PipelineState {
        self.state
    }
}

impl Pipeline {
    #[verifier::type_invariant]
    spec fn inv(self) -> bool {
        self.state.wf()
    }

    /// A new pipeline for a kernel whose source is at hand, and what its
    /// device has to be given.
    ///
    /// Buffer A is active, no body is in play, and the step size is the
    /// default one.
    pub fn assemble(shader: String, entry_point: &str, static_config: StaticConfig) -> (r: (
        Pipeline,
        DeviceSetup,
    ))
        ensures
            r.0@ == PipelineState::initial(static_config),
            r.1.shader == shader,
            r.1.fits(entry_point@, static_config),
    {
        let pipeline = Pipeline {
            state: PipelineState {
                active_source: SourceBuffer::A,
                static_config,
                dynamic_config: DynamicConfig::default(),
            },
        };
        let setup = DeviceSetup {
            shader,
            entry_point: String::from_str(entry_point),
            config_bindgroup_layout: config_bindgroup_layout(),
            body_bindgroup_layout: body_bindgroup_layout(),
            config_buffer_size: CONFIG_SIZE,
            body_buffer_size: BODY_SIZE * (static_config.max_bodies as u64),
            config: pipeline.synchronize_dynamic_config(),
        };
        (pipeline, setup)
    }

    /// Specialises the kernel template for the capacity and, if that
    /// succeeds, gives a new pipeline and what its device has to be given.
    ///
    /// The template must hold a placeholder of the capacity and no other tag
    /// of the template engine, and the engine must answer with a text that is
    /// free of placeholders. That text is the kernel to compile. Anything
    /// else is a template error, which is the only failure.
    pub fn create(shader_src: &str, entry_point: &str, static_config: StaticConfig) -> (r: Result<
        (Pipeline, DeviceSetup),
        PipelineError,
    >)
        ensures
            match kernel_text(shader_src, static_config) {
                Some(text) => r is Ok && r->Ok_0.0@ == PipelineState::initial(static_config)
                    && r->Ok_0.1.shader@ == text && r->Ok_0.1.fits(entry_point@, static_config),
                None => r is Err && r->Err_0 is KernelTemplateError,
            },
    {
        match render(shader_src, static_config) {
            Ok(shader) => Ok(Pipeline::assemble(shader, entry_point, static_config)),
            Err(error) => Err(error),
        }
    }

    /// The pipeline's state.
    pub fn state(&self) -> (r: PipelineState)
        ensures
            r == self@,
            r.wf(),
    {
        proof {
            use_type_invariant(self);
        }
        self.state
    }

    /// Sets the step size, as the bit pattern of a 32-bit float. The device
    /// learns of it with the next batch.
    pub fn set_dt(&mut self, dt: u32)
        ensures
            final(self)@ == old(self)@.with_dt(dt),
            final(self)@.wf(),
    {
        proof {
            use_type_invariant(&*self);
        }
        self.state.dynamic_config.dt = dt;
    }

    /// The bytes to copy into the device's configuration buffer so that the
    /// kernel sees the current count and step size.
    pub fn synchronize_dynamic_config(&self) -> (bytes: Vec<u8>)
        ensures
            bytes@ == self@.dynamic_config.wire(),
            bytes@.len() == 16,
    {
        self.state.dynamic_config.to_wire()
    }

    /// Takes `input` as the bodies in play and says where their bytes go:
    /// the start of the active buffer.
    ///
    /// More bodies than the pipeline was built for are refused, and the
    /// pipeline is then as it was. The configuration buffer is not touched;
    /// the device learns the new count with the next batch.
    pub fn write_bodies(&mut self, input: &[Body]) -> (r: Result<BufferWrite, PipelineError>)
        ensures
            old(self)@.accepts(input@.len()) ==> final(self)@ == old(self)@.with_bodies(
                input@.len(),
            ) && r is Ok && r->Ok_0.slice == old(self)@.input_slice(input@.len()) && r->Ok_0.bytes@
                == bodies_wire(input@),
            !old(self)@.accepts(input@.len()) ==> final(self)@ == old(self)@ && r == Err::<
                BufferWrite,
                PipelineError,
            >(PipelineError::CapacityExceeded),
            final(self)@.wf(),
    {
        proof {
            use_type_invariant(&*self);
        }
        if input.len() > self.state.static_config.max_bodies as usize {
            return Err(PipelineError::CapacityExceeded);
        }
        let count: u32 = input.len() as u32;
        let slice = BufferSlice {
            buffer: self.state.active_source,
            upper_bound: BODY_SIZE * (count as u64),
        };
        self.state.dynamic_config.num_bodies = count;
        Ok(BufferWrite { slice, bytes: encode_bodies(input) })
    }

    /// Where results are read: as many bodies as are in play, at the start
    /// of the buffer that is not active.
    pub fn output_slice(&self) -> (slice: BufferSlice)
        ensures
            slice == self@.output_slice(),
    {
        BufferSlice {
            buffer: self.state.active_source.other(),
            upper_bound: BODY_SIZE * (self.state.dynamic_config.num_bodies as u64),
        }
    }

    /// The bodies held by `mapped`, the bytes found in the output slice.
    ///
    /// Bytes of another length than the slice's are not what was asked for
    /// and are refused.
    pub fn read_bodies(&self, mapped: &[u8]) -> (r: Result<Vec<Body>, PipelineError>)
        ensures
            mapped@.len() == self@.output_slice().upper_bound ==> r is Ok && r->Ok_0@
                == bodies_from_wire(mapped@) && r->Ok_0@.len() == self@.dynamic_config.num_bodies,
            mapped@.len() != self@.output_slice().upper_bound ==> r == Err::<
                Vec<Body>,
                PipelineError,
            >(PipelineError::MemoryMapFailed),
    {
        let expected: u64 = BODY_SIZE * (self.state.dynamic_config.num_bodies as u64);
        if mapped.len() as u64 != expected {
            return Err(PipelineError::MemoryMapFailed);
        }
        Ok(decode_bodies(mapped))
    }

    /// Builds the batch that advances the simulation by `num_passes` steps
    /// and swaps the roles of the two buffers once for each of them.
    ///
    /// The batch starts with the bytes of the configuration buffer, so that
    /// the kernel sees the current count and step size in every dispatch.
    /// Dispatch `i` reads the buffer that is active after `i` swaps and runs
    /// over as many workgroups as cover the bodies in play. Whatever the
    /// kernel does, the active buffer is afterwards the same for an even
    /// number of steps and the other one for an odd number.
    pub fn submit_and_block(&mut self, num_passes: usize) -> (r: Submission)
        ensures
            final(self)@ == old(self)@.after_passes(num_passes as nat),
            final(self)@.active_source == if num_passes % 2 == 0 {
                old(self)@.active_source
            } else {
                old(self)@.active_source.other()
            },
            r.config@ == old(self)@.dynamic_config.wire(),
            r.dispatches@ == old(self)@.batch(num_passes as nat),
            final(self)@.wf(),
    {
        proof {
            use_type_invariant(&*self);
        }
        let config = self.synchronize_dynamic_config();
        let num_bodies = self.state.dynamic_config.num_bodies;
        let workgroups: u32 = num_bodies / WORKGROUP_SIZE + if num_bodies % WORKGROUP_SIZE == 0 {
            0
        } else {
            1
        };
        let mut dispatches: Vec<Dispatch> = Vec::new();
        let mut pass: usize = 0;
        while pass < num_passes
            invariant
                pass <= num_passes,
                self.state.wf(),
                self@ == old(self)@.after_passes(pass as nat),
                workgroups == workgroups_for(old(self)@.dynamic_config.num_bodies),
                dispatches@ == old(self)@.batch(pass as nat),
            decreases num_passes - pass,
        {
            dispatches.push(Dispatch { source: self.state.active_source, workgroups });
            self.state.active_source = self.state.active_source.other();
            pass += 1;
            assert(dispatches@ =~= old(self)@.batch(pass as nat));
        }
        proof {
            lemma_toggle_parity(old(self)@.active_source, num_passes as nat);
        }
        Submission { config, dispatches }
    }

    /// Decides how the host goes on while it waits for an operation on the
    /// device, from what the operation's completion callback has reported:
    /// poll until it reports, go on when it is done, give up when it failed.
    pub fn map_slice_blocking(&self, completion: Completion) -> (r: Result<Wait, PipelineError>)
        ensures
            completion == Completion::Pending ==> r == Ok::<Wait, PipelineError>(Wait::Poll),
            completion == Completion::Done ==> r == Ok::<Wait, PipelineError>(Wait::Proceed),
            completion == Completion::Failed ==> r == Err::<Wait, PipelineError>(
                PipelineError::MemoryMapFailed,
            ),
    {
        match completion {
            Completion::Pending => Ok(Wait::Poll),
            Completion::Done => Ok(Wait::Proceed),
            Completion::Failed => Err(PipelineError::MemoryMapFailed),
        }
    }
}

} // verus!

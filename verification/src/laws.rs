//! What holds of a pipeline and its device across several operations.
//!
//! Each law is stated over [`System`], the model in which an operation of a
//! pipeline and the commands it asks for happen together, and holds for every
//! kernel unless it says otherwise.

use crate::device::{DeviceMemory, Kernel, System};
use crate::pipeline::{lemma_toggle_parity, workgroups_for, Dispatch, PipelineState};
use crate::structures::{Body, DynamicConfig, StaticConfig};
use crate::wire::{
    bodies_from_wire, bodies_wire, lemma_bodies_round_trip, lemma_config_round_trip,
    lemma_wire_round_trip,
};
use vstd::prelude::*;

verus! {

/// Every operation keeps the number of bodies in play within the capacity,
/// and none changes the capacity.
pub proof fn lemma_count_stays_within_capacity(
    system: System,
    kernel: Kernel,
    bodies: Seq<Body>,
    dt: u32,
    passes: nat,
)
    requires
        system.host.wf(),
    ensures
        system.set_dt(dt).host.wf(),
        system.write_bodies(bodies).host.wf(),
        system.submit_and_block(kernel, passes).host.wf(),
        system.set_dt(dt).host.static_config == system.host.static_config,
        system.write_bodies(bodies).host.static_config == system.host.static_config,
        system.submit_and_block(kernel, passes).host.static_config == system.host.static_config,
{
}

/// A batch without dispatches leaves the particle buffers alone, so what is
/// read after it is what the buffer that is not active held before the bodies
/// were written: writing goes to the active buffer, reading to the other.
pub proof fn lemma_zero_step_output(system: System, kernel: Kernel, bodies: Seq<Body>)
    requires
        system.wf(),
        system.host.accepts(bodies.len()),
    ensures
        system.write_bodies(bodies).submit_and_block(kernel, 0).read_bodies() == bodies_from_wire(
            system.device.records(system.host.active_source.other(), bodies.len()),
        ),
{
    let written = system.write_bodies(bodies);
    let after = written.submit_and_block(kernel, 0);
    let idle = system.host.active_source.other();
    assert(written.host.batch(0) =~= Seq::<Dispatch>::empty());
    assert(after.device.buffer(idle) == system.device.buffer(idle));
    assert(after.host.output_slice().buffer == idle);
    assert(after.host.output_slice().upper_bound == 32 * bodies.len());
}

/// Zero-step identity: bodies that are written and read back after a batch
/// without dispatches come back as they were, where the buffer that is not
/// active already starts with their bytes. The empty run of bodies always
/// does.
pub proof fn lemma_zero_step_identity(system: System, kernel: Kernel, bodies: Seq<Body>)
    requires
        system.wf(),
        system.host.accepts(bodies.len()),
        system.device.records(system.host.active_source.other(), bodies.len()) == bodies_wire(
            bodies,
        ),
    ensures
        system.write_bodies(bodies).submit_and_block(kernel, 0).read_bodies() == bodies,
{
    lemma_zero_step_output(system, kernel, bodies);
    lemma_bodies_round_trip(bodies);
}

/// Where the buffer that is not active starts with other bytes of whole
/// records than those of the bodies written, the bodies read back after a
/// batch without dispatches are not the ones written.
pub proof fn lemma_zero_step_difference(system: System, kernel: Kernel, bodies: Seq<Body>)
    requires
        system.wf(),
        system.host.accepts(bodies.len()),
        system.device.records(system.host.active_source.other(), bodies.len()) != bodies_wire(
            bodies,
        ),
    ensures
        system.write_bodies(bodies).submit_and_block(kernel, 0).read_bodies() != bodies,
{
    let found = system.device.records(system.host.active_source.other(), bodies.len());
    lemma_zero_step_output(system, kernel, bodies);
    if bodies_from_wire(found) == bodies {
        lemma_wire_round_trip(found);
    }
}

/// Parity of the ping-pong state: after a batch, the active buffer is the
/// one it was if the number of passes is even and the other one if it is odd,
/// whatever the kernel does.
pub proof fn lemma_ping_pong_parity(system: System, kernel: Kernel, passes: nat)
    ensures
        system.submit_and_block(kernel, passes).host.active_source == if passes % 2 == 0 {
            system.host.active_source
        } else {
            system.host.active_source.other()
        },
{
    lemma_toggle_parity(system.host.active_source, passes);
}

/// After a batch of at least one pass, the buffer that results are read from
/// is the one that the last dispatch of the batch read.
pub proof fn lemma_output_is_last_source(state: PipelineState, passes: nat)
    requires
        passes > 0,
    ensures
        state.after_passes(passes).output_slice().buffer == state.batch(passes).last().source,
{
}

/// Capacity guard: bodies that do not fit change neither the pipeline nor
/// the device.
pub proof fn lemma_capacity_guard(system: System, bodies: Seq<Body>)
    requires
        bodies.len() > system.host.static_config.max_bodies,
    ensures
        system.write_bodies(bodies) == system,
{
}

/// A batch changes nothing in the configuration buffer after the upload that
/// it starts with.
proof fn lemma_run_keeps_config(
    memory: DeviceMemory,
    kernel: Kernel,
    batch: Seq<Dispatch>,
)
    ensures
        memory.run(kernel, batch).config == memory.config,
    decreases batch.len(),
{
    if batch.len() > 0 {
        lemma_run_keeps_config(memory, kernel, batch.drop_last());
    }
}

/// Determinism: two systems whose pipelines are in the same state and whose
/// particle buffers hold the same bytes, given the same bodies and step size
/// and the same number of passes of the same kernel, end in the same state
/// with the same memory and read back the same bodies. What the configuration
/// buffers held before does not matter.
pub proof fn lemma_runs_repeat(
    first: System,
    second: System,
    kernel: Kernel,
    bodies: Seq<Body>,
    dt: u32,
    passes: nat,
)
    requires
        first.host == second.host,
        first.device.buffer_a == second.device.buffer_a,
        first.device.buffer_b == second.device.buffer_b,
    ensures
        first.write_bodies(bodies).set_dt(dt).submit_and_block(kernel, passes)
            == second.write_bodies(bodies).set_dt(dt).submit_and_block(kernel, passes),
        first.write_bodies(bodies).set_dt(dt).submit_and_block(kernel, passes).read_bodies()
            == second.write_bodies(bodies).set_dt(dt).submit_and_block(kernel, passes).read_bodies(),
{
    let one = first.write_bodies(bodies).set_dt(dt);
    let two = second.write_bodies(bodies).set_dt(dt);
    assert(one.host == two.host);
    assert(one.device.buffer_a == two.device.buffer_a);
    assert(one.device.buffer_b == two.device.buffer_b);
    let config = one.host.dynamic_config.wire();
    assert(one.device.upload_config(config) =~= two.device.upload_config(config));
}

/// Determinism of full runs: two pipelines created for the same capacity,
/// each on newly allocated memory, and given the same step size, the same
/// bodies and the same number of passes of the same kernel, end in the same
/// state with the same memory, and what is read back is the same, byte for
/// byte and body for body.
pub proof fn lemma_full_runs_repeat(
    static_config: StaticConfig,
    first: DeviceMemory,
    second: DeviceMemory,
    kernel: Kernel,
    bodies: Seq<Body>,
    dt: u32,
    passes: nat,
)
    requires
        first.fresh_for(static_config),
        second.fresh_for(static_config),
    ensures
        ({
            let one = System::created(static_config, first).set_dt(dt).write_bodies(
                bodies,
            ).submit_and_block(kernel, passes);
            let two = System::created(static_config, second).set_dt(dt).write_bodies(
                bodies,
            ).submit_and_block(kernel, passes);
            &&& one == two
            &&& one.device.read(one.host.output_slice()) == two.device.read(
                two.host.output_slice(),
            )
            &&& one.read_bodies() == two.read_bodies()
        }),
{
    assert(first.config =~= second.config);
    assert(first.buffer_a =~= second.buffer_a);
    assert(first.buffer_b =~= second.buffer_b);
    assert(first == second);
}

/// Configuration propagation: a step size that is set reaches the kernel with
/// the next batch. The batch starts by uploading a configuration that holds
/// it, no dispatch of the batch changes the configuration buffer, and in a
/// batch of one pass the destination buffer ends as the kernel leaves it when
/// run on that configuration.
pub proof fn lemma_dt_reaches_kernel(system: System, kernel: Kernel, dt: u32, passes: nat)
    ensures
        ({
            let set = system.set_dt(dt);
            let after = set.submit_and_block(kernel, passes);
            let source = set.host.active_source;
            &&& after.device.config == set.host.dynamic_config.wire()
            &&& DynamicConfig::from_wire(after.device.config).dt == dt
            &&& DynamicConfig::from_wire(after.device.config).num_bodies
                == system.host.dynamic_config.num_bodies
            &&& passes == 1 ==> after.device.buffer(source.other()) == kernel(
                after.device.config,
                workgroups_for(system.host.dynamic_config.num_bodies),
                system.device.buffer(source),
                system.device.buffer(source.other()),
            )
        }),
{
    let set = system.set_dt(dt);
    let config = set.host.dynamic_config.wire();
    let uploaded = set.device.upload_config(config);
    lemma_run_keeps_config(uploaded, kernel, set.host.batch(passes));
    lemma_config_round_trip(set.host.dynamic_config);
    if passes == 1 {
        let batch = set.host.batch(1);
        assert(batch.drop_last() =~= Seq::<Dispatch>::empty());
        assert(uploaded.run(kernel, batch.drop_last()) == uploaded);
        assert(batch.last() == set.host.dispatch(0));
    }
}

} // verus!

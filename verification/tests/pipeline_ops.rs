use parabody::wire::{decode_bodies, encode_bodies};
use parabody::{
    Body, BufferSlice, Completion, DynamicConfig, Pipeline, PipelineError, PipelineState,
    Severity, SourceBuffer, StaticConfig, Wait, DEFAULT_DT,
};

fn pipeline(max_bodies: u32) -> Pipeline {
    Pipeline::assemble(String::from("kernel"), "main", StaticConfig { max_bodies }).0
}

fn body(mu: f32) -> Body {
    Body { mu: mu.to_bits(), ..Body::default() }
}

#[test]
fn a_new_pipeline_is_empty_with_the_default_step_size() {
    let p = pipeline(4);
    assert_eq!(
        p.state(),
        PipelineState {
            active_source: SourceBuffer::A,
            static_config: StaticConfig { max_bodies: 4 },
            dynamic_config: DynamicConfig { num_bodies: 0, dt: DEFAULT_DT },
        }
    );
}

#[test]
fn set_dt_changes_only_the_step_size() {
    let mut p = pipeline(4);
    p.write_bodies(&[body(1.0), body(2.0)]).unwrap();
    let before = p.state();
    p.set_dt(0.001f32.to_bits());
    let after = p.state();
    assert_eq!(after.dynamic_config.dt, 0.001f32.to_bits());
    assert_eq!(after.dynamic_config.num_bodies, 2);
    assert_eq!(after.active_source, before.active_source);
    assert_eq!(after.static_config, before.static_config);
}

#[test]
fn writing_goes_to_the_start_of_the_active_buffer() {
    let mut p = pipeline(4);
    let input = [body(1.0), body(2.0), body(3.0)];
    let write = p.write_bodies(&input).unwrap();
    assert_eq!(write.slice, BufferSlice { buffer: SourceBuffer::A, upper_bound: 96 });
    assert_eq!(write.bytes, encode_bodies(&input));
    assert_eq!(p.state().dynamic_config.num_bodies, 3);
    assert_eq!(p.state().active_source, SourceBuffer::A);

    p.submit_and_block(1);
    let write = p.write_bodies(&input[..1]).unwrap();
    assert_eq!(write.slice, BufferSlice { buffer: SourceBuffer::B, upper_bound: 32 });
    assert_eq!(p.state().dynamic_config.num_bodies, 1);
}

#[test]
fn writing_as_many_bodies_as_fit_is_accepted() {
    let mut p = pipeline(4);
    let write = p.write_bodies(&[Body::default(); 4]).unwrap();
    assert_eq!(write.slice.upper_bound, 128);
    assert_eq!(p.state().dynamic_config.num_bodies, 4);
}

#[test]
fn writing_no_bodies_is_accepted() {
    let mut p = pipeline(0);
    let write = p.write_bodies(&[]).unwrap();
    assert_eq!(write.slice.upper_bound, 0);
    assert!(write.bytes.is_empty());
}

#[test]
fn writing_more_bodies_than_fit_is_refused_and_changes_nothing() {
    let mut p = pipeline(4);
    p.write_bodies(&[body(1.0), body(2.0)]).unwrap();
    p.set_dt(7);
    p.submit_and_block(3);
    let before = p.state();
    assert_eq!(p.write_bodies(&[Body::default(); 5]), Err(PipelineError::CapacityExceeded));
    assert_eq!(p.state(), before);
    assert_eq!(pipeline(0).write_bodies(&[Body::default()]), Err(PipelineError::CapacityExceeded));
}

#[test]
fn writing_does_not_touch_the_configuration_until_the_next_batch() {
    let mut p = pipeline(4);
    let initial = p.synchronize_dynamic_config();
    assert_eq!(initial, DynamicConfig::default().to_wire());
    p.write_bodies(&[body(1.0), body(2.0)]).unwrap();
    p.set_dt(0.5f32.to_bits());
    let batch = p.submit_and_block(1);
    assert_eq!(batch.config, DynamicConfig { num_bodies: 2, dt: 0.5f32.to_bits() }.to_wire());
    assert_eq!(batch.config, p.synchronize_dynamic_config());
}

#[test]
fn a_step_size_that_is_set_is_in_the_next_batch() {
    let mut p = pipeline(4);
    let v = 0.001f32;
    p.set_dt(v.to_bits());
    let batch = p.submit_and_block(1);
    assert_eq!(&batch.config[4..8], &v.to_le_bytes());
    assert_eq!(batch.dispatches.len(), 1);
}

#[test]
fn reading_decodes_the_mapped_bytes() {
    let mut p = pipeline(4);
    let input = [body(1.0), body(2.0)];
    p.write_bodies(&input).unwrap();
    assert_eq!(p.output_slice(), BufferSlice { buffer: SourceBuffer::B, upper_bound: 64 });
    assert_eq!(p.read_bodies(&encode_bodies(&input)), Ok(input.to_vec()));
    assert_eq!(p.read_bodies(&[0u8; 64]), Ok(vec![Body::default(); 2]));
}

#[test]
fn reading_refuses_bytes_of_another_length() {
    let mut p = pipeline(4);
    p.write_bodies(&[body(1.0), body(2.0)]).unwrap();
    assert_eq!(p.read_bodies(&[0u8; 63]), Err(PipelineError::MemoryMapFailed));
    assert_eq!(p.read_bodies(&[0u8; 96]), Err(PipelineError::MemoryMapFailed));
    assert_eq!(p.read_bodies(&[]), Err(PipelineError::MemoryMapFailed));
    assert_eq!(pipeline(4).read_bodies(&[]), Ok(vec![]));
}

#[test]
fn waiting_polls_until_the_device_reports() {
    let p = pipeline(4);
    assert_eq!(p.map_slice_blocking(Completion::Pending), Ok(Wait::Poll));
    assert_eq!(p.map_slice_blocking(Completion::Done), Ok(Wait::Proceed));
    assert_eq!(p.map_slice_blocking(Completion::Failed), Err(PipelineError::MemoryMapFailed));
}

#[test]
fn failures_are_classified() {
    assert_eq!(PipelineError::AcceleratorUnavailable.severity(), Severity::Fatal);
    assert_eq!(PipelineError::DeviceAcquisitionFailed.severity(), Severity::Fatal);
    assert_eq!(PipelineError::KernelTemplateError(String::from("x")).severity(), Severity::Fatal);
    assert_eq!(PipelineError::KernelCompileError(String::from("x")).severity(), Severity::Fatal);
    assert_eq!(PipelineError::MemoryMapFailed.severity(), Severity::Retryable);
    assert_eq!(PipelineError::CapacityExceeded.severity(), Severity::Rejected);
}

#[test]
fn equal_pipelines_issue_equal_commands() {
    let run = || {
        let mut p = pipeline(8);
        let write = p.write_bodies(&[body(1.0), body(2.0), body(3.0)]).unwrap();
        p.set_dt(0.25f32.to_bits());
        let batch = p.submit_and_block(7);
        (write, batch, p.output_slice(), p.state())
    };
    assert_eq!(run(), run());
}

#[test]
fn decoding_what_was_written_gives_the_bodies_back() {
    let mut p = pipeline(4);
    let input = [body(1.0), body(-2.5), body(f32::MAX)];
    let write = p.write_bodies(&input).unwrap();
    assert_eq!(decode_bodies(&write.bytes), input.to_vec());
}

use nylon::routing::check_graph_inputs;
use nylon::routing::{MAX_DEVICES, chain_storage};
use nylon::dsp::{Curve, Oversampling, Shape};
use nylon::media::{Interpolation, Parameter, parameter_order};
use nylon::recording::{MAX_QUEUE_BLOCKS, RecordingError, validate_queue_size};
use nylon::audio::AudioError;
use nylon::engine::MAX_FRAMES;
use nylon::routing::{
    DeviceError, GraphRenderError, MAX_COMPENSATION_FRAMES, MAX_DELAY_STORAGE_FRAMES, RackError,
    RoutingPublishError, compensation_frames, delay_storage_frames, device_error,
};

#[test]
fn rack_errors_report_the_device_error_they_amount_to() {
    assert_eq!(device_error(RackError::Capacity), DeviceError::Capacity);
    assert_eq!(device_error(RackError::BufferSize), DeviceError::BufferSize);
    assert_eq!(
        device_error(RackError::Device(DeviceError::InvalidParameter)),
        DeviceError::InvalidParameter
    );
    assert_eq!(device_error(RackError::StorageCapacity), DeviceError::StorageCapacity);
    assert_eq!(RackError::from(DeviceError::InvalidSampleRate), RackError::Device(DeviceError::InvalidSampleRate));
    assert_eq!(device_error(RackError::from(DeviceError::BufferSize)), DeviceError::BufferSize);
}

#[test]
fn compensation_storage_is_summed_and_capped() {
    assert_eq!(compensation_frames(64, &[Some(2), Some(0), Some(5)]), Ok(7));
    assert_eq!(compensation_frames(64, &[]), Ok(0));
    assert_eq!(
        compensation_frames(64, &[Some(1), None]),
        Err(GraphRenderError::CompensationCapacity)
    );
    assert_eq!(
        compensation_frames(64, &[Some(MAX_COMPENSATION_FRAMES as u64), Some(1)]),
        Err(GraphRenderError::CompensationCapacity)
    );
    assert_eq!(
        compensation_frames(64, &[Some(u64::MAX)]),
        Err(GraphRenderError::CompensationCapacity)
    );
    assert_eq!(compensation_frames(0, &[]), Err(GraphRenderError::BufferSize));
    assert_eq!(compensation_frames(MAX_FRAMES + 1, &[None]), Err(GraphRenderError::BufferSize));
    assert_eq!(compensation_frames(MAX_FRAMES, &[Some(3)]), Ok(3));
}

#[test]
fn rack_delay_storage_is_summed_and_capped() {
    assert_eq!(delay_storage_frames(&[10, 20]), Ok(30));
    assert_eq!(
        delay_storage_frames(&[MAX_DELAY_STORAGE_FRAMES, 1]),
        Err(RoutingPublishError::Device(DeviceError::StorageCapacity))
    );
    assert_eq!(
        delay_storage_frames(&[usize::MAX, usize::MAX]),
        Err(RoutingPublishError::Device(DeviceError::StorageCapacity))
    );
}

#[test]
fn unusable_queue_sizes_are_refused() {
    for size in [0, MAX_QUEUE_BLOCKS + 1] {
        assert!(matches!(
            validate_queue_size(size),
            Err(RecordingError::Audio(AudioError::Unsupported("recording queue size")))
        ));
    }
    assert!(validate_queue_size(1).is_ok());
    assert!(validate_queue_size(MAX_QUEUE_BLOCKS).is_ok());
}

#[test]
fn oversampling_and_defaults() {
    assert_eq!(Oversampling::One.factor(), 1);
    assert_eq!(Oversampling::Two.factor(), 2);
    assert_eq!(Oversampling::Four.factor(), 4);
    assert_eq!(Oversampling::default(), Oversampling::One);
    assert_eq!(Curve::default(), Curve::SoftClip);
    assert_eq!(Shape::default(), Shape::Sine);
    assert_eq!(Interpolation::default(), Interpolation::Cubic);
}

#[test]
fn parameters_are_ordered_volume_pan_mute_solo() {
    assert_eq!(parameter_order(Parameter::Volume), 0);
    assert_eq!(parameter_order(Parameter::Pan), 1);
    assert_eq!(parameter_order(Parameter::Mute), 2);
    assert_eq!(parameter_order(Parameter::Solo), 3);
}

#[test]
fn a_block_is_checked_against_the_prepared_graph_in_order() {
    assert_eq!(check_graph_inputs(64, 128, 3, 2, &[(0, 64), (1, 64)]), Ok(()));
    assert_eq!(check_graph_inputs(256, 128, 3, 2, &[(7, 1)]), Err(GraphRenderError::BufferSize));
    assert_eq!(check_graph_inputs(64, 128, 3, 3, &[(0, 64)]), Err(GraphRenderError::InvalidNode));
    assert_eq!(check_graph_inputs(64, 128, 3, 2, &[(0, 32), (9, 64)]), Err(GraphRenderError::InputSize));
    assert_eq!(check_graph_inputs(64, 128, 3, 2, &[(9, 64), (0, 32)]), Err(GraphRenderError::InvalidNode));
    assert_eq!(check_graph_inputs(0, 0, 1, 0, &[]), Ok(()));
}

#[test]
fn a_device_chain_is_checked_before_storage_is_allocated() {
    assert_eq!(chain_storage(&[Some(0), Some(10), Some(3)], true), Ok(26));
    assert_eq!(chain_storage(&[], true), Ok(0));
    assert_eq!(chain_storage(&vec![Some(0); MAX_DEVICES + 1], false), Err(DeviceError::Capacity));
    assert_eq!(chain_storage(&[Some(0)], false), Err(DeviceError::InvalidSampleRate));
    assert_eq!(chain_storage(&[Some(1), None, Some(usize::MAX)], true), Err(DeviceError::InvalidParameter));
    assert_eq!(chain_storage(&[Some(usize::MAX), None], true), Err(DeviceError::StorageCapacity));
    assert_eq!(
        chain_storage(&[Some(MAX_DELAY_STORAGE_FRAMES / 2), Some(1)], true),
        Err(DeviceError::StorageCapacity)
    );
    assert_eq!(chain_storage(&[Some(MAX_DELAY_STORAGE_FRAMES / 2)], true), Ok(MAX_DELAY_STORAGE_FRAMES));
}

#[test]
fn invalid_blocks_are_rejected_before_output_changes() {
    // One node, prepared for blocks of four frames, asked for five.
    assert_eq!(check_graph_inputs(5, 4, 1, 0, &[]), Err(GraphRenderError::BufferSize));
}

#[test]
fn excessive_compensation_is_rejected_before_allocation() {
    // Two edges into one node, one of them behind a source whose latency is
    // the largest a node reports: the other edge must wait that long.
    assert_eq!(
        compensation_frames(4, &[Some(0), Some(u32::MAX as u64)]),
        Err(GraphRenderError::CompensationCapacity)
    );
}

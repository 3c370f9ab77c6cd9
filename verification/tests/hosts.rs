use nylon::alsa;
use nylon::audio::{AudioError, DeviceId, DeviceInfo, Direction, StreamConfig};
use nylon::coreaudio::{CoreAudioBackend, HostDevice, configuration_channels_of, four_cc};
use nylon::host::{Endpoint, check_stereo, default_endpoint, describe_endpoints, identifier};
use nylon::offline::OfflineBackend;
use nylon::host::first_with_identifier;
use nylon::wasapi::{
    self, CallOutcome, DEVICE_INVALIDATED, S_OK, ThreadStep, WasapiBackend, call_outcome,
    capture_chunk, silent_packet, thread_step,
};

#[test]
fn alsa_a_name_always_maps_to_the_same_identifier() {
    assert_eq!(alsa::identifier("default"), alsa::identifier("default"));
    assert_ne!(alsa::identifier("default"), alsa::identifier("hw:0,0"));
    assert_ne!(
        alsa::identifier(""),
        0,
        "no name may take the reserved value"
    );
}

#[test]
fn wasapi_a_name_always_maps_to_the_same_identifier() {
    assert_eq!(wasapi::identifier("{0.0.0}"), wasapi::identifier("{0.0.0}"));
    assert_ne!(wasapi::identifier("{0.0.0}"), wasapi::identifier("{0.0.1}"));
    assert_ne!(
        wasapi::identifier(""),
        0,
        "no name may take the reserved value"
    );
}

#[test]
fn the_identifier_is_the_fnv_hash_of_the_name() {
    // The empty name hashes to the offset basis, and "a" to its published
    // 64-bit FNV-1a value.
    assert_eq!(identifier(""), 0xcbf2_9ce4_8422_2325);
    assert_eq!(identifier("a"), 0xaf63_dc4c_8601_ec8c);
}

#[test]
fn four_character_codes_match_the_headers() {
    assert_eq!(four_cc(b"auou"), 0x6175_6F75);
    assert_eq!(four_cc(b"lpcm"), 0x6C70_636D);
    assert_eq!(four_cc(b"appl"), 0x6170_706C);
}

#[test]
fn the_backend_names_itself() {
    assert_eq!(CoreAudioBackend::new().name(), "CoreAudio");
}

#[test]
fn the_backend_names_the_host_it_speaks_to() {
    assert_eq!(WasapiBackend::new().name(), "WASAPI");
}

#[test]
fn the_alsa_backend_names_its_host() {
    assert_eq!(alsa::name(), "ALSA");
}

fn endpoint(id: &str, name: &str, is_default: bool) -> Endpoint {
    Endpoint {
        id: id.to_string(),
        name: name.to_string(),
        is_default,
    }
}

fn blank() -> DeviceInfo {
    OfflineBackend::device_info()
}

#[test]
fn enumeration_fits_the_buffer_it_is_given() {
    let listed = [
        endpoint("{0.0.0}", "Speakers", false),
        endpoint("{0.0.1}", "Headphones", true),
        endpoint("{0.0.2}", "Monitor", false),
    ];
    let mut devices = [blank(); 8];
    let count = describe_endpoints(&listed, Direction::Output, &mut devices);
    assert_eq!(count, 3);
    for device in &devices[..count] {
        assert_ne!(device.id.0, 0);
        assert_eq!(device.channels, 2);
        assert!(device.rates.contains(48_000));
        assert!(!device.name.is_empty());
        assert_eq!(device.direction, Direction::Output);
    }
    assert_eq!(devices[1].name.as_str(), "Headphones");
    assert!(devices[1].is_default);
    assert_eq!(devices[2].id, DeviceId(identifier("{0.0.2}")));
    // What was past the listing is left alone.
    assert_eq!(devices[3].name.as_str(), "Offline");

    let mut single = [blank(); 1];
    assert_eq!(describe_endpoints(&listed, Direction::Input, &mut single), 1);
    assert_eq!(single[0].direction, Direction::Input);
    assert_eq!(describe_endpoints(&listed, Direction::Input, &mut []), 0);
}

#[test]
fn the_default_is_the_last_marked_or_else_the_first_listed() {
    let marked = [
        endpoint("first", "First", false),
        endpoint("second", "Second", true),
        endpoint("third", "Third", true),
    ];
    assert_eq!(default_endpoint(&marked), Ok(DeviceId(identifier("third"))));
    let unmarked = [endpoint("first", "First", false), endpoint("second", "Second", false)];
    assert_eq!(default_endpoint(&unmarked), Ok(DeviceId(identifier("first"))));
    assert_eq!(default_endpoint(&[]), Err(AudioError::DeviceMissing));
}

#[test]
fn a_configuration_that_is_not_stereo_is_refused() {
    let config = StreamConfig {
        device: DeviceId(0),
        sample_rate: 48_000,
        block_frames: 256,
        channels: 1,
    };
    assert_eq!(check_stereo(&config), Err(AudioError::Unsupported("channel count")));
    let stereo = StreamConfig { channels: 2, ..config };
    assert_eq!(check_stereo(&stereo), Ok(()));
}

#[test]
fn a_configuration_the_interface_rejects_never_reaches_the_host() {
    let config = StreamConfig {
        device: DeviceId(0),
        sample_rate: 1_234,
        block_frames: 256,
        channels: 2,
    };
    assert_eq!(check_stereo(&config), Err(AudioError::Unsupported("sample rate")));
}

#[test]
fn a_hint_shows_the_first_line_of_its_description() {
    let listed = alsa::listed_endpoint("hw:0,0", Some("HDA Intel\r\nAnalog output"), None).unwrap();
    assert_eq!(listed.id, "hw:0,0");
    assert_eq!(listed.name, "HDA Intel");
    assert!(!listed.is_default);

    let fallback = alsa::listed_endpoint("default", None, Some("Output")).unwrap();
    assert_eq!(fallback.name, "default");
    assert!(fallback.is_default);

    assert!(alsa::listed_endpoint("mic", Some("Capture"), Some("Input")).is_none());
    assert_eq!(alsa::first_line_of("one line"), "one line");
    assert_eq!(alsa::first_line_of("a\r"), "a\r");
    assert_eq!(alsa::first_line_of("\nsecond"), "");
}

#[test]
fn a_device_is_found_again_by_its_identifier() {
    let listed = [endpoint("default", "Default", true), endpoint("hw:0,0", "Card", false)];
    assert_eq!(
        alsa::name_of(&listed, identifier("hw:0,0")),
        Some("hw:0,0".to_string())
    );
    assert_eq!(alsa::name_of(&listed, 12), None);
}

#[test]
fn a_shared_stream_asks_for_four_blocks_of_buffer() {
    let config = StreamConfig {
        device: DeviceId(3),
        sample_rate: 48_000,
        block_frames: 480,
        channels: 2,
    };
    // Four blocks of ten milliseconds are 400,000 ticks of 100 ns.
    assert_eq!(WasapiBackend::buffer_duration(&config), 400_000);
}

#[test]
fn device_zero_means_the_system_default() {
    assert_eq!(CoreAudioBackend::device_object(DeviceId(0), Ok(73)), Ok(73));
    assert_eq!(
        CoreAudioBackend::device_object(DeviceId(0), Err(AudioError::DeviceMissing)),
        Err(AudioError::DeviceMissing)
    );
    assert_eq!(CoreAudioBackend::device_object(DeviceId(41), Ok(73)), Ok(41));
    assert_eq!(
        CoreAudioBackend::device_object(DeviceId(0x1_0000_0000), Ok(73)),
        Err(AudioError::DeviceMissing)
    );
    assert_eq!(CoreAudioBackend::granted_buffer_size(512, Some(256)), 256);
    assert_eq!(CoreAudioBackend::granted_buffer_size(512, Some(0)), 512);
    assert_eq!(CoreAudioBackend::granted_buffer_size(512, None), 512);
}

fn object(id: u32, name: &str, channels: u32, nominal_rate: u32) -> HostDevice {
    HostDevice {
        object: id,
        name: name.to_string(),
        channels,
        nominal_rate,
    }
}

/// What a host might offer: an output-only object, a duplex one, an
/// input-only one, and one whose rate cannot be read.
fn host_outputs() -> Vec<HostDevice> {
    vec![
        object(41, "Built-in Output", 2, 48_000),
        object(42, "Interface", 8, 96_000),
        object(43, "Microphone", 0, 44_100),
        object(44, "Unknown rate", 2, 0),
    ]
}

fn host_inputs() -> Vec<HostDevice> {
    vec![
        object(41, "Built-in Output", 0, 48_000),
        object(42, "Interface", 8, 96_000),
        object(43, "Microphone", 1, 44_100),
        object(44, "Unknown rate", 0, 0),
    ]
}

#[test]
fn enumerating_devices_describes_what_the_host_offers() {
    let listed = host_outputs();
    let default = 42;
    let mut devices = [blank(); 16];
    let count = CoreAudioBackend::describe_devices(&listed, default, Direction::Output, &mut devices);
    assert!(count <= devices.len());
    assert_eq!(count, 3);
    for device in &devices[..count] {
        assert_eq!(device.direction, Direction::Output);
        assert!(device.channels > 0);
        assert!(!device.rates.is_empty());
    }
    // A machine that has a default output must list it.
    assert!(
        devices[..count].iter().any(|device| device.id == DeviceId(u64::from(default))),
        "the default output was not listed among {count} devices"
    );
    // The nominal rate comes first, then the others in preference order.
    assert_eq!(devices[1].rates.as_slice(), &[96_000, 44_100, 48_000, 88_200, 176_400, 192_000]);
    assert_eq!(devices[2].rates.as_slice(), &nylon::audio::SUPPORTED_RATES);
    assert_eq!(devices[2].name.as_str(), "Unknown rate");
}

#[test]
fn input_devices_are_listed_apart_from_outputs() {
    let listed = host_inputs();
    let mut inputs = [blank(); 8];
    let count = CoreAudioBackend::describe_devices(&listed, 43, Direction::Input, &mut inputs);
    for device in &inputs[..count] {
        assert_eq!(device.direction, Direction::Input);
        assert!(device.channels > 0, "an input with no channels was listed");
        assert!(!device.name.is_empty());
    }
    // A caller with room for one gets one.
    let mut single = [blank(); 1];
    assert_eq!(
        CoreAudioBackend::describe_devices(&listed, 43, Direction::Input, &mut single),
        count.min(1)
    );
    // A machine that has a default input must list it.
    assert!(
        inputs[..count].iter().any(|device| device.id == DeviceId(43)),
        "the default input was not listed among {count} inputs"
    );
}

#[test]
fn coreaudio_opening_an_input_that_is_not_there_is_refused() {
    let config = StreamConfig {
        device: DeviceId(0xffff_fffe),
        sample_rate: 48_000,
        channels: 2,
        block_frames: 512,
    };
    // An object the host does not know reports no input channels.
    assert!(matches!(
        CoreAudioBackend::input_channels(&config, 0),
        Err(AudioError::DeviceMissing)
    ));
    assert_eq!(CoreAudioBackend::input_channels(&config, 1), Ok(1));
    assert_eq!(CoreAudioBackend::input_channels(&config, 8), Ok(2));
}

#[test]
fn inputs_are_listed_apart_from_outputs() {
    let listed = [
        endpoint("{0.0.1.00000000}.{mic}", "Microphone", true),
        endpoint("{0.0.1.00000000}.{line}", "Line In", false),
    ];
    let mut inputs = [blank(); wasapi::MAX_DEVICES];
    let count = describe_endpoints(&listed, Direction::Input, &mut inputs);
    for device in &inputs[..count] {
        assert_eq!(device.direction, Direction::Input);
        assert_ne!(device.id.0, 0);
        assert!(!device.name.is_empty());
    }
    // A machine that has a default input must list it.
    if let Ok(default) = default_endpoint(&listed) {
        assert!(
            inputs[..count].iter().any(|device| device.id == default),
            "the default input was not listed"
        );
    }
}

#[test]
fn the_audio_thread_asks_a_step_above_the_lowest_real_time_priority() {
    assert_eq!(alsa::realtime_priority(1, 99), Some(11));
    assert_eq!(alsa::realtime_priority(1, 5), Some(5));
    assert_eq!(alsa::realtime_priority(0, 0), Some(0));
    assert_eq!(alsa::realtime_priority(-1, 99), None);
    assert_eq!(alsa::realtime_priority(10, 5), None);
    assert_eq!(alsa::realtime_priority(i32::MAX, 5), None);
}

#[test]
fn an_alsa_stream_asks_for_two_blocks_of_latency_and_runs_at_the_period_granted() {
    let config = StreamConfig {
        device: DeviceId(1),
        sample_rate: 48_000,
        block_frames: 256,
        channels: 2,
    };
    assert_eq!(alsa::requested_latency(&config), 10_666);
    let largest = StreamConfig { sample_rate: 44_100, block_frames: 2048, ..config };
    assert_eq!(alsa::requested_latency(&largest), 92_879);
    assert_eq!(alsa::granted_block(0, 480, 256), 480);
    assert_eq!(alsa::granted_block(0, 1 << 20, 256), nylon::engine::MAX_FRAMES);
    assert_eq!(alsa::granted_block(0, 0, 256), 256);
    assert_eq!(alsa::granted_block(-22, 480, 256), 256);
}

#[test]
fn a_stream_configuration_counts_the_channels_of_every_whole_buffer() {
    let mut bytes = vec![0u8; 40];
    bytes[0] = 2;
    bytes[8] = 2;
    bytes[24] = 1;
    assert_eq!(configuration_channels_of(&bytes, 40), 3);
    // The count claims a third buffer the bytes do not hold whole.
    bytes[0] = 3;
    assert_eq!(configuration_channels_of(&bytes, 40), 3);
    // A count of one reads only the first buffer.
    bytes[0] = 1;
    assert_eq!(configuration_channels_of(&bytes, 40), 2);
    // Nothing reported, nothing read.
    assert_eq!(configuration_channels_of(&bytes, 3), 0);
    // Too short for one buffer.
    assert_eq!(configuration_channels_of(&bytes[..20], 20), 0);
    // Channel counts are little-endian.
    let mut wide = vec![0u8; 24];
    wide[0] = 1;
    wide[8] = 0x00;
    wide[9] = 0x01;
    assert_eq!(configuration_channels_of(&wide, 24), 256);
}

#[test]
fn a_granted_buffer_is_brought_into_the_block_range() {
    assert_eq!(CoreAudioBackend::stream_block(512), 512);
    assert_eq!(CoreAudioBackend::stream_block(4), 16);
    assert_eq!(CoreAudioBackend::stream_block(8192), nylon::engine::MAX_FRAMES);
}

#[test]
fn the_render_thread_fills_the_room_left_at_most_a_block() {
    assert_eq!(WasapiBackend::frames_to_render(960, 480, 256), 256);
    assert_eq!(WasapiBackend::frames_to_render(960, 800, 256), 160);
    assert_eq!(WasapiBackend::frames_to_render(960, 960, 256), 0);
    assert_eq!(WasapiBackend::frames_to_render(960, 1000, 256), 0);
}

#[test]
fn a_wasapi_stream_runs_with_its_whole_buffer_within_the_block_range() {
    assert_eq!(WasapiBackend::stream_block(480), 480);
    assert_eq!(WasapiBackend::stream_block(0), 1);
    assert_eq!(WasapiBackend::stream_block(1 << 20), nylon::engine::MAX_FRAMES);
}

#[test]
fn a_wasapi_thread_reads_statuses_and_steps_its_device() {
    assert_eq!(call_outcome(S_OK), CallOutcome::Succeeded);
    assert_eq!(call_outcome(DEVICE_INVALIDATED), CallOutcome::Lost);
    assert_eq!(call_outcome(-1), CallOutcome::Failed);
    assert_eq!(thread_step(false, true), ThreadStep::StopDevice);
    assert_eq!(thread_step(false, false), ThreadStep::Idle);
    assert_eq!(thread_step(true, false), ThreadStep::StartDevice);
    assert_eq!(thread_step(true, true), ThreadStep::Serve);
    assert!(silent_packet(0x2, false));
    assert!(silent_packet(0x6, false));
    assert!(silent_packet(0, true));
    assert!(!silent_packet(0x4, false));
    assert_eq!(capture_chunk(5000, 2048), 2048);
    assert_eq!(capture_chunk(100, 2048), 100);
    assert_eq!(capture_chunk(0, 2048), 0);
}

#[test]
fn the_first_endpoint_with_an_identifier_is_found() {
    let endpoints = vec![endpoint("a", "A", false), endpoint("b", "B", true), endpoint("b", "B2", false)];
    assert_eq!(first_with_identifier(&endpoints, identifier("b")), Some(1));
    assert_eq!(first_with_identifier(&endpoints, identifier("a")), Some(0));
    assert_eq!(first_with_identifier(&endpoints, identifier("c")), None);
}

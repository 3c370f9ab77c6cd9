use nylon::audio::{
    AudioError, BlockTiming, Capturer, DeviceId, Direction, MIN_BLOCK, Renderer, Stream,
    StreamConfig,
};
use nylon::offline::{OfflineBackend, device, input_device};

/// A capturer that keeps what it was handed, so a test can look at it.
struct Recording {
    frames: Vec<[f32; 2]>,
    blocks: usize,
    prepared: Option<StreamConfig>,
    first_frame: Option<u64>,
}

impl Recording {
    fn new() -> Self {
        Self {
            frames: Vec::new(),
            blocks: 0,
            prepared: None,
            first_frame: None,
        }
    }
}

impl Capturer for Recording {
    type Frame = [f32; 2];

    fn capture(&mut self, input: &[[f32; 2]], timing: BlockTiming) {
        if self.first_frame.is_none() {
            self.first_frame = Some(timing.frame);
        }
        self.frames.extend_from_slice(input);
        self.blocks += 1;
    }

    fn prepare(&mut self, config: StreamConfig) {
        self.prepared = Some(config);
    }
}

fn input_config(block: usize) -> StreamConfig {
    StreamConfig {
        device: input_device(),
        sample_rate: 48_000,
        block_frames: block,
        channels: 2,
    }
}

#[test]
fn an_input_device_is_offered_beside_the_output() {
    let backend = OfflineBackend::new();
    let mut devices = [OfflineBackend::device_info(); 2];
    assert_eq!(backend.input_devices(&mut devices).unwrap(), 1);
    assert_eq!(devices[0].id, input_device());
    assert_eq!(devices[0].direction, Direction::Input);
    assert_ne!(devices[0].id, device(), "the two devices are not the same");
    assert_eq!(backend.default_input().unwrap(), input_device());
    // A caller with no room is told nothing was written.
    assert_eq!(backend.input_devices(&mut []).unwrap(), 0);
}

#[test]
fn a_capture_stream_hands_over_what_it_is_given() {
    let backend = OfflineBackend::new();
    let mut stream = backend
        .open_input(input_config(MIN_BLOCK), Recording::new())
        .expect("the input would not open");
    assert_eq!(stream.config().block_frames, MIN_BLOCK);
    assert!(!stream.is_running());
    assert_eq!(stream.frames_rendered(), 0);
    assert_eq!(stream.dropouts(), 0);
    assert!(!stream.is_lost());

    // Nothing is taken until the stream runs.
    assert_eq!(
        stream.capture_from(&[[0.0, 0.0]]),
        Err(AudioError::WrongState)
    );
    assert!(stream.start().is_ok());
    assert_eq!(stream.start(), Err(AudioError::WrongState));

    let material: Vec<[f32; 2]> = (0..MIN_BLOCK * 2 + 3)
        .map(|index| [index as f32, -(index as f32)])
        .collect();
    let count = material.len();
    assert_eq!(stream.capture_all(&material).unwrap(), count);
    assert_eq!(stream.frames_rendered(), count as u64);
    // A block longer than the configured one is refused rather than
    // split behind the caller's back.
    assert_eq!(
        stream.capture_from(&material),
        Err(AudioError::Unsupported("block size"))
    );
    assert!(stream.stop().is_ok());
    assert_eq!(stream.stop(), Err(AudioError::WrongState));

    assert!(stream.into_capturer().is_some());
}

#[test]
fn capture_keeps_every_frame_in_order_and_counts_the_blocks() {
    let backend = OfflineBackend::new();
    // Two whole blocks and a short one, so the split is visible.
    let material: Vec<[f32; 2]> = (0..MIN_BLOCK * 2 + 1)
        .map(|index| [index as f32, index as f32 * 0.5])
        .collect();

    let mut stream = backend
        .open_input(input_config(MIN_BLOCK), Recording::new())
        .expect("the input would not open");
    assert!(stream.start().is_ok());
    assert_eq!(stream.capture_all(&material).unwrap(), material.len());

    let recording = stream.into_capturer().unwrap();
    assert_eq!(recording.frames, material, "the material arrived changed");
    assert_eq!(recording.blocks, 3, "the material was not split by block");
    assert_eq!(recording.first_frame, Some(0));
    assert_eq!(
        recording.prepared.map(|config| config.block_frames),
        Some(MIN_BLOCK),
        "the capturer was not told what it was opened with"
    );
}

#[test]
fn an_input_stream_refuses_the_wrong_device_and_a_bad_rate() {
    let backend = OfflineBackend::new();
    let wrong = StreamConfig {
        device: device(),
        ..input_config(MIN_BLOCK)
    };
    assert!(matches!(
        backend.open_input(wrong, Recording::new()),
        Err(AudioError::DeviceMissing)
    ));
    let unusable = StreamConfig {
        sample_rate: 0,
        ..input_config(MIN_BLOCK)
    };
    assert!(backend.open_input(unusable, Recording::new()).is_err());
}

/// A renderer that writes a rising ramp so the tests can tell which frame
/// each sample came from, and records what it was prepared with.
struct Counting {
    prepared: Option<StreamConfig>,
    calls: usize,
    last_timing: BlockTiming,
}

impl Counting {
    fn new() -> Self {
        Self {
            prepared: None,
            calls: 0,
            last_timing: BlockTiming::default(),
        }
    }
}

impl Renderer for Counting {
    type Frame = [f32; 2];

    fn render(&mut self, output: &mut [[f32; 2]], timing: BlockTiming) {
        self.calls += 1;
        self.last_timing = timing;
        for (index, frame) in output.iter_mut().enumerate() {
            let position = timing.frame + index as u64;
            *frame = [position as f32, -(position as f32)];
        }
    }

    fn prepare(&mut self, config: StreamConfig) {
        self.prepared = Some(config);
    }
}

fn config() -> StreamConfig {
    StreamConfig {
        device: device(),
        sample_rate: 48_000,
        block_frames: 64,
        channels: 2,
    }
}

#[test]
fn the_backend_offers_one_default_output() {
    let backend = OfflineBackend::new();
    assert_eq!(backend.name(), "Offline");
    assert_eq!(backend.default_output(), Ok(device()));

    let mut devices = [OfflineBackend::device_info(); 4];
    assert_eq!(backend.devices(&mut devices), Ok(1));
    assert_eq!(devices[0].id, device());
    assert_eq!(devices[0].direction, Direction::Output);
    assert_eq!(devices[0].channels, 2);
    assert!(devices[0].is_default);
    assert!(devices[0].rates.contains(48_000));
    assert_eq!(devices[0].name.as_str(), "Offline");

    // A caller with no room is told nothing was written.
    assert_eq!(backend.devices(&mut []), Ok(0));
}

#[test]
fn opening_prepares_the_renderer_with_the_granted_configuration() {
    let backend = OfflineBackend::new();
    let stream = backend.open_output(config(), Counting::new()).unwrap();
    assert_eq!(stream.config(), config());
    assert!(!stream.is_running());
    assert!(!stream.is_lost());
    assert_eq!(stream.latency_frames(), 0);
    assert_eq!(stream.frames_rendered(), 0);
    assert_eq!(stream.dropouts(), 0);
    let renderer = stream.into_renderer().unwrap();
    assert_eq!(renderer.prepared, Some(config()));
    assert_eq!(renderer.calls, 0);
}

#[test]
fn an_unknown_device_or_bad_configuration_is_refused() {
    let backend = OfflineBackend::new();
    let mut wrong_device = config();
    wrong_device.device = DeviceId(99);
    assert!(matches!(
        backend.open_output(wrong_device, Counting::new()),
        Err(AudioError::DeviceMissing)
    ));

    let mut wrong_rate = config();
    wrong_rate.sample_rate = 1_234;
    assert!(matches!(
        backend.open_output(wrong_rate, Counting::new()),
        Err(AudioError::Unsupported("sample rate"))
    ));
}

#[test]
fn a_stopped_stream_renders_nothing() {
    let backend = OfflineBackend::new();
    let mut stream = backend.open_output(config(), Counting::new()).unwrap();
    let mut output = [[9.0_f32, 9.0]; 64];
    assert_eq!(stream.render_into(&mut output), Err(AudioError::WrongState));
    // The buffer is untouched.
    assert_eq!(output[0], [9.0, 9.0]);
    assert_eq!(stream.frames_rendered(), 0);
}

#[test]
fn starting_and_stopping_twice_is_refused() {
    let backend = OfflineBackend::new();
    let mut stream = backend.open_output(config(), Counting::new()).unwrap();
    assert_eq!(stream.start(), Ok(()));
    assert!(stream.is_running());
    assert_eq!(stream.start(), Err(AudioError::WrongState));
    assert_eq!(stream.stop(), Ok(()));
    assert!(!stream.is_running());
    assert_eq!(stream.stop(), Err(AudioError::WrongState));
}

#[test]
fn the_frame_counter_carries_across_blocks() {
    let backend = OfflineBackend::new();
    let mut stream = backend.open_output(config(), Counting::new()).unwrap();
    stream.start().unwrap();
    let mut first = [[0.0_f32; 2]; 64];
    let mut second = [[0.0_f32; 2]; 64];
    assert_eq!(stream.render_into(&mut first), Ok(64));
    assert_eq!(stream.render_into(&mut second), Ok(64));
    assert_eq!(stream.frames_rendered(), 128);
    assert_eq!(first[0][0], 0.0);
    assert_eq!(first[63][0], 63.0);
    assert_eq!(second[0][0], 64.0);
    assert_eq!(second[63][0], 127.0);
}

#[test]
fn a_block_longer_than_configured_is_refused() {
    let backend = OfflineBackend::new();
    let mut stream = backend.open_output(config(), Counting::new()).unwrap();
    stream.start().unwrap();
    let mut too_long = [[0.0_f32; 2]; 65];
    assert_eq!(
        stream.render_into(&mut too_long),
        Err(AudioError::Unsupported("block size"))
    );
    assert_eq!(stream.frames_rendered(), 0);
}

#[test]
fn a_shorter_block_is_accepted() {
    let backend = OfflineBackend::new();
    let mut stream = backend.open_output(config(), Counting::new()).unwrap();
    stream.start().unwrap();
    let mut partial = [[0.0_f32; 2]; 10];
    assert_eq!(stream.render_into(&mut partial), Ok(10));
    assert_eq!(stream.frames_rendered(), 10);
    assert_eq!(partial[9][0], 9.0);
}

#[test]
fn a_run_of_frames_is_split_into_blocks_with_a_remainder() {
    let backend = OfflineBackend::new();
    let mut stream = backend.open_output(config(), Counting::new()).unwrap();
    stream.start().unwrap();
    // 150 frames is two whole blocks of 64 and a remainder of 22.
    let mut output = vec![[0.0_f32; 2]; 150];
    assert_eq!(stream.render_frames(150, &mut output), Ok(150));
    assert_eq!(stream.frames_rendered(), 150);
    for (index, frame) in output.iter().enumerate() {
        assert_eq!(frame[0], index as f32, "{index}");
        assert_eq!(frame[1], -(index as f32), "{index}");
    }
    let renderer = stream.into_renderer().unwrap();
    assert_eq!(renderer.calls, 3);
    assert_eq!(renderer.last_timing.frame, 128);
}

#[test]
fn rendering_a_run_into_a_short_buffer_is_refused() {
    let backend = OfflineBackend::new();
    let mut stream = backend.open_output(config(), Counting::new()).unwrap();
    stream.start().unwrap();
    let mut output = [[0.0_f32; 2]; 10];
    assert_eq!(
        stream.render_frames(64, &mut output),
        Err(AudioError::Unsupported("output length"))
    );
    assert_eq!(stream.frames_rendered(), 0);
}

#[test]
fn rendering_no_frames_does_nothing() {
    let backend = OfflineBackend::new();
    let mut stream = backend.open_output(config(), Counting::new()).unwrap();
    stream.start().unwrap();
    let mut output: [[f32; 2]; 0] = [];
    assert_eq!(stream.render_frames(0, &mut output), Ok(0));
    assert_eq!(stream.frames_rendered(), 0);
}

#[test]
fn the_renderer_can_be_taken_back_after_a_bounce() {
    let backend = OfflineBackend::new();
    let mut stream = backend.open_output(config(), Counting::new()).unwrap();
    stream.start().unwrap();
    let mut output = vec![[0.0_f32; 2]; 128];
    stream.render_frames(128, &mut output).unwrap();
    assert!(stream.into_renderer().is_some());
}

#[test]
fn frames_past_the_run_are_left_alone() {
    let backend = OfflineBackend::new();
    let mut stream = backend.open_output(config(), Counting::new()).unwrap();
    stream.start().unwrap();
    let mut output = vec![[7.0_f32; 2]; 100];
    assert_eq!(stream.render_frames(70, &mut output), Ok(70));
    assert_eq!(output[69][0], 69.0);
    assert_eq!(output[70], [7.0, 7.0]);
    assert_eq!(output[99], [7.0, 7.0]);
}

#[test]
fn rendering_is_faster_than_the_audio_it_produces() {
    let backend = OfflineBackend::new();
    let mut stream = backend.open_output(config(), Counting::new()).unwrap();
    stream.start().unwrap();
    let frames = 48_000 * 10;
    let mut output = vec![[0.0_f32; 2]; frames];
    let begin = std::time::Instant::now();
    assert_eq!(stream.render_frames(frames, &mut output), Ok(frames));
    assert!(
        begin.elapsed() < std::time::Duration::from_secs(2),
        "ten seconds of audio took {:?}",
        begin.elapsed()
    );
}

//! Rendering without a device.
//!
//! The offline backend runs a [`Renderer`] as fast as the machine allows
//! rather than against a device clock. That is what a bounce needs, and it
//! is what the tests use: the same renderer that feeds the speakers produces
//! the file, so an export matches what was heard.
//!
//! A stream here holds its renderer and produces audio only when asked.
//! Nothing runs on another thread, so a caller can step a render one block
//! at a time and inspect the result.
use crate::audio::{
    AudioError, BlockTiming, Capturer, DeviceId, DeviceInfo, Direction, MIN_BLOCK, Name, Rates,
    Renderer, SUPPORTED_RATES, Stream, StreamConfig, config_error, config_is_valid,
    supported_rates_seq, truncated_bytes,
};
use vstd::prelude::*;
use vstd::string::StringSliceAdditionalSpecFns;

verus! {

/// Number of the single output device the offline backend offers.
pub const OUTPUT_NUMBER: u64 = 0;
/// Number of the single input device it offers.
pub const INPUT_NUMBER: u64 = 1;

/// Identifier of the single output device the offline backend offers.
pub open spec fn spec_device() -> DeviceId {
    DeviceId(OUTPUT_NUMBER)
}

/// Identifier of the single input device the offline backend offers.
pub open spec fn spec_input_device() -> DeviceId {
    DeviceId(INPUT_NUMBER)
}

/// Identifier of the single output device the offline backend offers.
#[verifier::when_used_as_spec(spec_device)]
pub fn device() -> (id: DeviceId)
    ensures
        id == spec_device(),
{
    DeviceId(OUTPUT_NUMBER)
}

/// Identifier of the single input device the offline backend offers.
#[verifier::when_used_as_spec(spec_input_device)]
pub fn input_device() -> (id: DeviceId)
    ensures
        id == spec_input_device(),
{
    DeviceId(INPUT_NUMBER)
}

/// What the offline backend reports about its device in one direction.
pub open spec fn is_offline_device(info: DeviceInfo, direction: Direction) -> bool {
    &&& info.id == (if direction == Direction::Output { spec_device() } else { spec_input_device() })
    &&& info.name@ == truncated_bytes(
        (if direction == Direction::Output { "Offline" } else { "Offline input" }).spec_bytes(),
    )
    &&& info.direction == direction
    &&& info.channels == 2
    &&& info.rates@ == supported_rates_seq()
    &&& info.is_default
}

/// The error, if any, that opening the device `expected` with `config`
/// gives: an unknown device first, then the configuration's own faults.
pub open spec fn open_error(config: StreamConfig, expected: DeviceId) -> Option<AudioError> {
    if config.device != expected {
        Some(AudioError::DeviceMissing)
    } else {
        config_error(config)
    }
}

/// A backend with one output and one input device that never blocks.
#[derive(Clone, Copy, Debug, Default)]
pub struct OfflineBackend;

impl OfflineBackend {
    /// A backend offering one stereo output and one stereo input.
    pub fn new() -> (backend: Self) {
        Self
    }

    /// Name of the host interface.
    pub fn name(&self) -> (name: &'static str)
        ensures
            name@ == "Offline"@,
    {
        "Offline"
    }

    /// Description of the output device this backend offers.
    pub fn device_info() -> (info: DeviceInfo)
        ensures
            is_offline_device(info, Direction::Output),
    {
        let supported = SUPPORTED_RATES;
        let rates = Rates::from_slice(supported.as_slice());
        assert(supported@ == supported_rates_seq());
        assert(rates@ =~= supported_rates_seq());
        DeviceInfo {
            id: device(),
            name: Name::truncated("Offline"),
            direction: Direction::Output,
            channels: 2,
            rates,
            is_default: true,
        }
    }

    /// Description of the input device this backend offers.
    pub fn input_device_info() -> (info: DeviceInfo)
        ensures
            is_offline_device(info, Direction::Input),
    {
        let supported = SUPPORTED_RATES;
        let rates = Rates::from_slice(supported.as_slice());
        assert(supported@ == supported_rates_seq());
        assert(rates@ =~= supported_rates_seq());
        DeviceInfo {
            id: input_device(),
            name: Name::truncated("Offline input"),
            direction: Direction::Input,
            channels: 2,
            rates,
            is_default: true,
        }
    }

    /// Lists the output device, writing it when `out` has room.
    pub fn devices(&self, out: &mut [DeviceInfo]) -> (result: Result<usize, AudioError>)
        ensures
            final(out)@.len() == old(out)@.len(),
            old(out)@.len() == 0 ==> result == Ok::<usize, AudioError>(0),
            old(out)@.len() > 0 ==> {
                &&& result == Ok::<usize, AudioError>(1)
                &&& is_offline_device(final(out)@[0], Direction::Output)
                &&& final(out)@.subrange(1, old(out)@.len() as int) == old(out)@.subrange(
                    1,
                    old(out)@.len() as int,
                )
            },
    {
        if out.len() == 0 {
            return Ok(0);
        }
        out[0] = Self::device_info();
        assert(out@.subrange(1, out@.len() as int) =~= old(out)@.subrange(
            1,
            old(out)@.len() as int,
        ));
        Ok(1)
    }

    /// Identifier of the default output device.
    pub fn default_output(&self) -> (result: Result<DeviceId, AudioError>)
        ensures
            result == Ok::<DeviceId, AudioError>(spec_device()),
    {
        Ok(device())
    }

    /// Lists the input device, writing it when `out` has room.
    pub fn input_devices(&self, out: &mut [DeviceInfo]) -> (result: Result<usize, AudioError>)
        ensures
            final(out)@.len() == old(out)@.len(),
            old(out)@.len() == 0 ==> result == Ok::<usize, AudioError>(0),
            old(out)@.len() > 0 ==> {
                &&& result == Ok::<usize, AudioError>(1)
                &&& is_offline_device(final(out)@[0], Direction::Input)
                &&& final(out)@.subrange(1, old(out)@.len() as int) == old(out)@.subrange(
                    1,
                    old(out)@.len() as int,
                )
            },
    {
        if out.len() == 0 {
            return Ok(0);
        }
        out[0] = Self::input_device_info();
        assert(out@.subrange(1, out@.len() as int) =~= old(out)@.subrange(
            1,
            old(out)@.len() as int,
        ));
        Ok(1)
    }

    /// Identifier of the default input device.
    pub fn default_input(&self) -> (result: Result<DeviceId, AudioError>)
        ensures
            result == Ok::<DeviceId, AudioError>(spec_input_device()),
    {
        Ok(input_device())
    }

    /// Opens an output stream, created stopped, after preparing the
    /// renderer with the configuration granted.
    pub fn open_output<R: Renderer>(&self, config: StreamConfig, renderer: R) -> (result: Result<
        OfflineStream<R>,
        AudioError,
    >)
        ensures
            result is Err <==> open_error(config, spec_device()) is Some,
            result matches Err(error) ==> open_error(config, spec_device()) == Some(error),
            result matches Ok(stream) ==> stream@ == (OfflineState {
                config,
                running: false,
                frames: 0,
            }),
            result matches Ok(stream) ==> renderer.prepares(config, &stream.held_renderer()),
    {
        if config.device.0 != OUTPUT_NUMBER {
            return Err(AudioError::DeviceMissing);
        }
        match config.validate() {
            Ok(()) => {},
            Err(error) => {
                return Err(error);
            },
        }
        let mut renderer = renderer;
        renderer.prepare(config);
        Ok(OfflineStream { config, renderer, running: false, frames: 0 })
    }

    /// Opens an input stream, created stopped, after preparing the
    /// capturer with the configuration granted.
    pub fn open_input<C: Capturer>(&self, config: StreamConfig, capturer: C) -> (result: Result<
        OfflineCapture<C>,
        AudioError,
    >)
        ensures
            result is Err <==> open_error(config, spec_input_device()) is Some,
            result matches Err(error) ==> open_error(config, spec_input_device()) == Some(error),
            result matches Ok(stream) ==> stream@ == (OfflineState {
                config,
                running: false,
                frames: 0,
            }),
            result matches Ok(stream) ==> capturer.prepares(config, &stream.held_capturer()),
    {
        if config.device.0 != INPUT_NUMBER {
            return Err(AudioError::DeviceMissing);
        }
        match config.validate() {
            Ok(()) => {},
            Err(error) => {
                return Err(error);
            },
        }
        let mut capturer = capturer;
        capturer.prepare(config);
        Ok(OfflineCapture { config, capturer, running: false, frames: 0 })
    }
}

/// The observable state of an offline stream.
pub ghost struct OfflineState {
    /// Configuration the stream was opened with.
    pub config: StreamConfig,
    /// Whether it is running.
    pub running: bool,
    /// Frames produced or taken since it was opened.
    pub frames: u64,
}

/// The state after a start request: a stopped stream starts, a running
/// one is refused and unchanged.
pub open spec fn started(state: OfflineState) -> (OfflineState, Result<(), AudioError>) {
    if state.running {
        (state, Err(AudioError::WrongState))
    } else {
        (OfflineState { running: true, ..state }, Ok(()))
    }
}

/// The state after a stop request: a running stream stops, a stopped one
/// is refused and unchanged.
pub open spec fn stopped(state: OfflineState) -> (OfflineState, Result<(), AudioError>) {
    if !state.running {
        (state, Err(AudioError::WrongState))
    } else {
        (OfflineState { running: false, ..state }, Ok(()))
    }
}

/// Starting a stopped stream and then stopping it gives back the state it
/// had, with both requests granted; a second start or stop in a row is
/// refused and changes nothing. A stream's configuration and frame count
/// are never touched by either.
pub proof fn lemma_start_and_stop(state: OfflineState)
    ensures
        !state.running ==> started(state).1 is Ok && stopped(started(state).0) == (
            state,
            Ok::<(), AudioError>(()),
        ),
        started(started(state).0).1 == Err::<(), AudioError>(AudioError::WrongState),
        started(started(state).0).0 == started(state).0,
        stopped(stopped(state).0).1 == Err::<(), AudioError>(AudioError::WrongState),
        stopped(stopped(state).0).0 == stopped(state).0,
        started(state).0.config == state.config && started(state).0.frames == state.frames,
        stopped(state).0.config == state.config && stopped(state).0.frames == state.frames,
{
}

/// The error, if any, that handing one block of `length` frames to a stream
/// in `state` gives.
pub open spec fn block_error(state: OfflineState, length: nat) -> Option<AudioError> {
    if !state.running {
        Some(AudioError::WrongState)
    } else if length > state.config.block_frames {
        Some(AudioError::Unsupported("block size"))
    } else {
        None
    }
}

/// The timing a block starting `frame` frames into a stream is given.
pub open spec fn timing_at(frame: int) -> BlockTiming {
    BlockTiming { frame: frame as u64, dropouts: 0 }
}

/// Whether `starts` marks where the blocks of a run of `frames` frames
/// begin, blocks of `block` frames with the remainder last, followed by how
/// far the run has got.
pub open spec fn block_starts(starts: Seq<int>, block: int, frames: int) -> bool
    decreases starts.len(),
{
    if starts.len() == 0 {
        false
    } else if starts.len() == 1 {
        starts[0] == 0
    } else {
        let n = starts.len() as int;
        &&& block_starts(starts.drop_last(), block, frames)
        &&& starts[n - 2] < frames
        &&& starts[n - 1] == (if frames - starts[n - 2] < block {
            frames
        } else {
            starts[n - 2] + block
        })
    }
}

/// Whether a renderer going through `renderers`, one per block, renders the
/// blocks of `before` that `starts` marks into those of `after`, the first
/// block `first` frames into the stream.
pub open spec fn renders_blocks<R: Renderer>(
    renderers: Seq<R>,
    starts: Seq<int>,
    first: int,
    before: Seq<R::Frame>,
    after: Seq<R::Frame>,
) -> bool
    decreases starts.len(),
{
    if starts.len() <= 1 {
        renderers.len() == starts.len()
    } else {
        let n = starts.len() as int;
        &&& renderers.len() == n
        &&& renders_blocks(renderers.drop_last(), starts.drop_last(), first, before, after)
        &&& renderers[n - 2].renders(
            timing_at(first + starts[n - 2]),
            before.subrange(starts[n - 2], starts[n - 1]),
            &renderers[n - 1],
            after.subrange(starts[n - 2], starts[n - 1]),
        )
    }
}

/// Whether a capturer going through `capturers`, one per block, takes the
/// blocks of `input` that `starts` marks, the first block `first` frames
/// into the stream.
pub open spec fn captures_blocks<C: Capturer>(
    capturers: Seq<C>,
    starts: Seq<int>,
    first: int,
    input: Seq<C::Frame>,
) -> bool
    decreases starts.len(),
{
    if starts.len() <= 1 {
        capturers.len() == starts.len()
    } else {
        let n = starts.len() as int;
        &&& capturers.len() == n
        &&& captures_blocks(capturers.drop_last(), starts.drop_last(), first, input)
        &&& capturers[n - 2].captures(
            timing_at(first + starts[n - 2]),
            input.subrange(starts[n - 2], starts[n - 1]),
            &capturers[n - 1],
        )
    }
}

/// Blocks marked so far start at zero or later and end no later than the
/// run.
proof fn lemma_block_starts_bounds(starts: Seq<int>, block: int, frames: int)
    requires
        block_starts(starts, block, frames),
        block > 0,
        frames >= 0,
    ensures
        0 <= starts.last() <= frames,
        starts.len() >= 2 ==> 0 <= starts[starts.len() - 2] < starts.last(),
    decreases starts.len(),
{
    if starts.len() >= 2 {
        lemma_block_starts_bounds(starts.drop_last(), block, frames);
    }
}

/// Rendering the blocks depends only on the part of the output they cover.
proof fn lemma_renders_blocks_prefix<R: Renderer>(
    renderers: Seq<R>,
    starts: Seq<int>,
    block: int,
    frames: int,
    first: int,
    before: Seq<R::Frame>,
    one: Seq<R::Frame>,
    other: Seq<R::Frame>,
)
    requires
        block_starts(starts, block, frames),
        block > 0,
        frames >= 0,
        one.len() >= starts.last(),
        other.len() >= starts.last(),
        one.subrange(0, starts.last()) == other.subrange(0, starts.last()),
        renders_blocks(renderers, starts, first, before, one),
    ensures
        renders_blocks(renderers, starts, first, before, other),
    decreases starts.len(),
{
    if starts.len() > 1 {
        let n = starts.len() as int;
        let shorter = starts.drop_last();
        lemma_block_starts_bounds(starts, block, frames);
        assert(shorter.last() == starts[n - 2]);
        assert(one.subrange(0, shorter.last()) =~= one.subrange(0, starts.last()).subrange(
            0,
            shorter.last(),
        ));
        assert(other.subrange(0, shorter.last()) =~= other.subrange(0, starts.last()).subrange(
            0,
            shorter.last(),
        ));
        lemma_renders_blocks_prefix(
            renderers.drop_last(),
            shorter,
            block,
            frames,
            first,
            before,
            one,
            other,
        );
        assert(one.subrange(starts[n - 2], starts[n - 1]) =~= one.subrange(0, starts.last()).subrange(
            starts[n - 2],
            starts[n - 1],
        ));
        assert(other.subrange(starts[n - 2], starts[n - 1]) =~= other.subrange(
            0,
            starts.last(),
        ).subrange(starts[n - 2], starts[n - 1]));
    }
}

/// A stream that renders on demand.
pub struct OfflineStream<R: Renderer> {
    config: StreamConfig,
    renderer: R,
    running: bool,
    frames: u64,
}

impl<R: Renderer> View for OfflineStream<R> {
    type V = OfflineState;

    closed spec fn view(&self) -> OfflineState {
        OfflineState { config: self.config, running: self.running, frames: self.frames }
    }
}

impl<R: Renderer> OfflineStream<R> {
    /// Renders into `output`, which must be no longer than the configured
    /// block. Returns the frames written.
    pub fn render_into(&mut self, output: &mut [R::Frame]) -> (result: Result<usize, AudioError>)
        requires
            block_error(old(self)@, old(output)@.len()) is None ==> old(self)@.frames
                + old(output)@.len() <= u64::MAX,
        ensures
            final(output)@.len() == old(output)@.len(),
            block_error(old(self)@, old(output)@.len()) matches Some(error) ==> {
                &&& result == Err::<usize, AudioError>(error)
                &&& final(self)@ == old(self)@
                &&& final(self).held_renderer() == old(self).held_renderer()
                &&& final(output)@ == old(output)@
            },
            block_error(old(self)@, old(output)@.len()) is None ==> {
                &&& result == Ok::<usize, AudioError>(old(output)@.len() as usize)
                &&& final(self)@ == (OfflineState {
                    frames: (old(self)@.frames + old(output)@.len()) as u64,
                    ..old(self)@
                })
                &&& old(self).held_renderer().renders(
                    timing_at(old(self)@.frames as int),
                    old(output)@,
                    &final(self).held_renderer(),
                    final(output)@,
                )
            },
    {
        if !self.running {
            return Err(AudioError::WrongState);
        }
        if output.len() > self.config.block_frames {
            return Err(AudioError::Unsupported("block size"));
        }
        let timing = BlockTiming { frame: self.frames, dropouts: 0 };
        let length = output.len();
        self.renderer.render(output, timing);
        self.frames = self.frames + length as u64;
        Ok(length)
    }

    /// Renders `frames` frames into the front of `output`, one block at a
    /// time: blocks are the configured size except the last, which carries
    /// the remainder. Frames past `frames` are left alone.
    pub fn render_frames(&mut self, frames: usize, output: &mut [R::Frame]) -> (result: Result<
        usize,
        AudioError,
    >)
        requires
            config_is_valid(old(self)@.config),
            old(self)@.running && frames <= old(output)@.len() ==> old(self)@.frames + frames
                <= u64::MAX,
        ensures
            final(output)@.len() == old(output)@.len(),
            !old(self)@.running ==> result == Err::<usize, AudioError>(AudioError::WrongState)
                && final(self)@ == old(self)@ && final(output)@ == old(output)@
                && final(self).held_renderer() == old(self).held_renderer(),
            old(self)@.running && frames > old(output)@.len() ==> {
                &&& result == Err::<usize, AudioError>(AudioError::Unsupported("output length"))
                &&& final(self)@ == old(self)@
                &&& final(output)@ == old(output)@
                &&& final(self).held_renderer() == old(self).held_renderer()
            },
            old(self)@.running && frames <= old(output)@.len() ==> {
                &&& result == Ok::<usize, AudioError>(frames)
                &&& final(self)@ == (OfflineState {
                    frames: (old(self)@.frames + frames) as u64,
                    ..old(self)@
                })
                &&& final(output)@.subrange(frames as int, old(output)@.len() as int) == old(
                    output,
                )@.subrange(frames as int, old(output)@.len() as int)
                &&& exists|starts: Seq<int>, renderers: Seq<R>|
                    {
                        &&& block_starts(
                            starts,
                            old(self)@.config.block_frames as int,
                            frames as int,
                        )
                        &&& starts.last() == frames
                        &&& renderers[0] == old(self).held_renderer()
                        &&& renderers.last() == final(self).held_renderer()
                        &&& #[trigger] renders_blocks(
                            renderers,
                            starts,
                            old(self)@.frames as int,
                            old(output)@,
                            final(output)@,
                        )
                    }
            },
    {
        if !self.running {
            return Err(AudioError::WrongState);
        }
        if output.len() < frames {
            return Err(AudioError::Unsupported("output length"));
        }
        let block = self.config.block_frames;
        let ghost start_frames = self.frames;
        let ghost total = output@.len();
        let ghost mut starts: Seq<int> = seq![0int];
        let ghost mut renderers: Seq<R> = seq![self.renderer];
        let mut written: usize = 0;
        while written < frames
            invariant
                written <= frames,
                frames <= total,
                output@.len() == total,
                total == old(output)@.len(),
                output@.subrange(written as int, total as int) == old(output)@.subrange(
                    written as int,
                    total as int,
                ),
                self@.running,
                self@.config == old(self)@.config,
                block == self@.config.block_frames,
                config_is_valid(self@.config),
                self@.frames == start_frames + written,
                start_frames == old(self)@.frames,
                start_frames + frames <= u64::MAX,
                block_starts(starts, block as int, frames as int),
                starts.last() == written,
                renderers.len() == starts.len(),
                renderers[0] == old(self).held_renderer(),
                renderers.last() == self.held_renderer(),
                renders_blocks(renderers, starts, start_frames as int, old(output)@, output@),
            decreases frames - written,
        {
            proof {
                assert(block >= MIN_BLOCK) by {
                    assert(config_error(self@.config) is None);
                }
            }
            let end = if frames - written < block {
                frames
            } else {
                written + block
            };
            let ghost before = output@;
            let ghost held_before = self.renderer;
            let (front, rest) = output.split_at_mut(written);
            let (chunk, _) = rest.split_at_mut(end - written);
            let ghost chunk_before = chunk@;
            let rendered = self.render_into(chunk);
            match rendered {
                Ok(_) => {},
                Err(error) => {
                    return Err(error);
                },
            }
            proof {
                assert(chunk_before =~= old(output)@.subrange(written as int, end as int)) by {
                    assert(chunk_before =~= before.subrange(written as int, total as int).subrange(
                        0,
                        end - written,
                    ));
                }
                assert(output@.subrange(0, written as int) =~= before.subrange(0, written as int));
                assert(output@.subrange(written as int, end as int) =~= chunk@);
                lemma_block_starts_bounds(starts, block as int, frames as int);
                lemma_renders_blocks_prefix(
                    renderers,
                    starts,
                    block as int,
                    frames as int,
                    start_frames as int,
                    old(output)@,
                    before,
                    output@,
                );
                let longer = starts.push(end as int);
                let more = renderers.push(self.renderer);
                assert(longer.drop_last() =~= starts);
                assert(more.drop_last() =~= renderers);
                starts = longer;
                renderers = more;
            }
            let ghost previous = written;
            written = end;
            assert(output@.subrange(written as int, total as int) =~= old(output)@.subrange(
                written as int,
                total as int,
            )) by {
                assert(output@.subrange(written as int, total as int) =~= before.subrange(
                    written as int,
                    total as int,
                ));
                assert(before.subrange(written as int, total as int) =~= before.subrange(
                    previous as int,
                    total as int,
                ).subrange(written - previous, total - previous));
                assert(old(output)@.subrange(written as int, total as int) =~= old(
                    output,
                )@.subrange(previous as int, total as int).subrange(
                    written - previous,
                    total - previous,
                ));
            }
        }
        Ok(written)
    }

    /// The renderer the stream drives.
    pub closed spec fn held_renderer(&self) -> R {
        self.renderer
    }

    /// Returns the renderer, ending the stream.
    pub fn into_renderer(self) -> (renderer: Option<R>)
        ensures
            renderer == Some(self.held_renderer()),
    {
        let OfflineStream { config: _, renderer, running: _, frames: _ } = self;
        Some(renderer)
    }
}

impl<R: Renderer> Stream for OfflineStream<R> {
    fn config(&self) -> (config: StreamConfig)
        ensures
            config == self@.config,
    {
        self.config
    }

    fn start(&mut self) -> (result: Result<(), AudioError>)
        ensures
            (final(self)@, result) == started(old(self)@),
            final(self).held_renderer() == old(self).held_renderer(),
    {
        if self.running {
            return Err(AudioError::WrongState);
        }
        self.running = true;
        Ok(())
    }

    fn stop(&mut self) -> (result: Result<(), AudioError>)
        ensures
            (final(self)@, result) == stopped(old(self)@),
            final(self).held_renderer() == old(self).held_renderer(),
    {
        if !self.running {
            return Err(AudioError::WrongState);
        }
        self.running = false;
        Ok(())
    }

    fn is_running(&self) -> (running: bool)
        ensures
            running == self@.running,
    {
        self.running
    }

    fn frames_rendered(&self) -> (frames: u64)
        ensures
            frames == self@.frames,
    {
        self.frames
    }

    fn dropouts(&self) -> (dropouts: u64)
        ensures
            dropouts == 0,
    {
        // Nothing here runs against a clock, so nothing is ever late.
        0
    }
}

/// A stream that captures whatever it is handed, rather than reading a
/// device. It drives a recording path from a test or from material that
/// arrives from a file rather than a jack.
pub struct OfflineCapture<C: Capturer> {
    config: StreamConfig,
    capturer: C,
    running: bool,
    frames: u64,
}

impl<C: Capturer> View for OfflineCapture<C> {
    type V = OfflineState;

    closed spec fn view(&self) -> OfflineState {
        OfflineState { config: self.config, running: self.running, frames: self.frames }
    }
}

impl<C: Capturer> OfflineCapture<C> {
    /// Hands `input` to the capturer as though the device had delivered it.
    /// Returns the frames taken.
    pub fn capture_from(&mut self, input: &[C::Frame]) -> (result: Result<usize, AudioError>)
        requires
            block_error(old(self)@, input@.len()) is None ==> old(self)@.frames + input@.len()
                <= u64::MAX,
        ensures
            block_error(old(self)@, input@.len()) matches Some(error) ==> result == Err::<
                usize,
                AudioError,
            >(error) && final(self)@ == old(self)@ && final(self).held_capturer() == old(
                self,
            ).held_capturer(),
            block_error(old(self)@, input@.len()) is None ==> {
                &&& result == Ok::<usize, AudioError>(input@.len() as usize)
                &&& final(self)@ == (OfflineState {
                    frames: (old(self)@.frames + input@.len()) as u64,
                    ..old(self)@
                })
                &&& old(self).held_capturer().captures(
                    timing_at(old(self)@.frames as int),
                    input@,
                    &final(self).held_capturer(),
                )
            },
    {
        if !self.running {
            return Err(AudioError::WrongState);
        }
        if input.len() > self.config.block_frames {
            return Err(AudioError::Unsupported("block size"));
        }
        let timing = BlockTiming { frame: self.frames, dropouts: 0 };
        self.capturer.capture(input, timing);
        self.frames = self.frames + input.len() as u64;
        Ok(input.len())
    }

    /// Hands over `input` one block at a time: blocks are the configured
    /// size except the last, which carries the remainder.
    pub fn capture_all(&mut self, input: &[C::Frame]) -> (result: Result<usize, AudioError>)
        requires
            config_is_valid(old(self)@.config),
            old(self)@.running ==> old(self)@.frames + input@.len() <= u64::MAX,
        ensures
            !old(self)@.running ==> result == Err::<usize, AudioError>(AudioError::WrongState)
                && final(self)@ == old(self)@ && final(self).held_capturer() == old(
                self,
            ).held_capturer(),
            old(self)@.running ==> {
                &&& result == Ok::<usize, AudioError>(input@.len() as usize)
                &&& final(self)@ == (OfflineState {
                    frames: (old(self)@.frames + input@.len()) as u64,
                    ..old(self)@
                })
                &&& exists|starts: Seq<int>, capturers: Seq<C>|
                    {
                        &&& block_starts(
                            starts,
                            old(self)@.config.block_frames as int,
                            input@.len() as int,
                        )
                        &&& starts.last() == input@.len()
                        &&& capturers[0] == old(self).held_capturer()
                        &&& capturers.last() == final(self).held_capturer()
                        &&& #[trigger] captures_blocks(
                            capturers,
                            starts,
                            old(self)@.frames as int,
                            input@,
                        )
                    }
            },
    {
        if !self.running {
            return Err(AudioError::WrongState);
        }
        let block = self.config.block_frames;
        let ghost start_frames = self.frames;
        let ghost mut starts: Seq<int> = seq![0int];
        let ghost mut capturers: Seq<C> = seq![self.capturer];
        let mut taken: usize = 0;
        while taken < input.len()
            invariant
                taken <= input@.len(),
                self@.running,
                self@.config == old(self)@.config,
                block == self@.config.block_frames,
                config_is_valid(self@.config),
                self@.frames == start_frames + taken,
                start_frames == old(self)@.frames,
                start_frames + input@.len() <= u64::MAX,
                block_starts(starts, block as int, input@.len() as int),
                starts.last() == taken,
                capturers.len() == starts.len(),
                capturers[0] == old(self).held_capturer(),
                capturers.last() == self.held_capturer(),
                captures_blocks(capturers, starts, start_frames as int, input@),
            decreases input@.len() - taken,
        {
            let end = if input.len() - taken < block {
                input.len()
            } else {
                taken + block
            };
            let chunk = &input[taken..end];
            match self.capture_from(chunk) {
                Ok(_) => {},
                Err(error) => {
                    return Err(error);
                },
            }
            proof {
                let longer = starts.push(end as int);
                let more = capturers.push(self.capturer);
                assert(longer.drop_last() =~= starts);
                assert(more.drop_last() =~= capturers);
                assert(chunk@ =~= input@.subrange(taken as int, end as int));
                starts = longer;
                capturers = more;
            }
            taken = end;
        }
        Ok(taken)
    }

    /// The capturer the stream feeds.
    pub closed spec fn held_capturer(&self) -> C {
        self.capturer
    }

    /// Returns the capturer, ending the stream.
    pub fn into_capturer(self) -> (capturer: Option<C>)
        ensures
            capturer == Some(self.held_capturer()),
    {
        let OfflineCapture { config: _, capturer, running: _, frames: _ } = self;
        Some(capturer)
    }
}

impl<C: Capturer> Stream for OfflineCapture<C> {
    fn config(&self) -> (config: StreamConfig)
        ensures
            config == self@.config,
    {
        self.config
    }

    fn start(&mut self) -> (result: Result<(), AudioError>)
        ensures
            (final(self)@, result) == started(old(self)@),
            final(self).held_capturer() == old(self).held_capturer(),
    {
        if self.running {
            return Err(AudioError::WrongState);
        }
        self.running = true;
        Ok(())
    }

    fn stop(&mut self) -> (result: Result<(), AudioError>)
        ensures
            (final(self)@, result) == stopped(old(self)@),
            final(self).held_capturer() == old(self).held_capturer(),
    {
        if !self.running {
            return Err(AudioError::WrongState);
        }
        self.running = false;
        Ok(())
    }

    fn is_running(&self) -> (running: bool)
        ensures
            running == self@.running,
    {
        self.running
    }

    fn frames_rendered(&self) -> (frames: u64)
        ensures
            frames == self@.frames,
    {
        self.frames
    }

    fn dropouts(&self) -> (dropouts: u64)
        ensures
            dropouts == 0,
    {
        // Nothing here runs against a clock, so nothing arrives late.
        0
    }
}

} // verus!

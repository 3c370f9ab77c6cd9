//! Audio device interface: names, rates, devices and stream configuration.
//!
//! A backend enumerates devices and opens a stream. The stream calls a
//! [`Renderer`] once per block; a capture stream hands what it receives to a
//! [`Capturer`]. The offline backend in `offline` drives both without a
//! device clock, which is what a bounce and the tests use.
use vstd::prelude::*;
use vstd::string::*;
use vstd::utf8::*;

verus! {

broadcast use vstd::utf8::group_utf8_lib;

/// Sample rates a device may be asked for.
pub const SUPPORTED_RATES: [u32; 6] = [44_100, 48_000, 88_200, 96_000, 176_400, 192_000];
/// Smallest block a stream may use.
pub const MIN_BLOCK: usize = 16;
/// Largest block a stream may use.
pub const MAX_BLOCK: usize = 2048;
/// Longest device name kept, in bytes of UTF-8.
pub const MAX_NAME: usize = 128;
/// Most sample rates recorded per device.
pub const MAX_RATES: usize = 8;

/// Whether `rate` is one of [`SUPPORTED_RATES`].
pub open spec fn is_supported_rate(rate: u32) -> bool {
    ||| rate == 44_100
    ||| rate == 48_000
    ||| rate == 88_200
    ||| rate == 96_000
    ||| rate == 176_400
    ||| rate == 192_000
}

/// The supported rates in preference order, as a sequence.
pub open spec fn supported_rates_seq() -> Seq<u32> {
    seq![44_100u32, 48_000, 88_200, 96_000, 176_400, 192_000]
}

/// Length of the longest prefix of `bytes`, no longer than `limit`, that
/// ends on a character boundary.
pub open spec fn boundary_at_or_below(bytes: Seq<u8>, limit: int) -> int
    decreases limit,
{
    if limit <= 0 {
        0
    } else if is_char_boundary(bytes, limit) {
        limit
    } else {
        boundary_at_or_below(bytes, limit - 1)
    }
}

/// The bytes a name keeps of `text`: the longest prefix of at most
/// [`MAX_NAME`] bytes that ends on a character boundary.
pub open spec fn truncated_bytes(text: Seq<u8>) -> Seq<u8> {
    let limit = if text.len() < MAX_NAME { text.len() as int } else { MAX_NAME as int };
    text.subrange(0, boundary_at_or_below(text, limit))
}

proof fn lemma_boundary_at_or_below(bytes: Seq<u8>, limit: int)
    requires
        valid_utf8(bytes),
        limit <= bytes.len(),
    ensures
        0 <= boundary_at_or_below(bytes, limit),
        limit >= 0 ==> boundary_at_or_below(bytes, limit) <= limit,
        is_char_boundary(bytes, boundary_at_or_below(bytes, limit)),
    decreases limit,
{
    if limit <= 0 {
    } else if is_char_boundary(bytes, limit) {
    } else {
        lemma_boundary_at_or_below(bytes, limit - 1);
    }
}

/// A short, fixed-capacity name.
///
/// Device names come from the host and are only read, so they are stored
/// inline; a name longer than [`MAX_NAME`] is truncated at a character
/// boundary, which keeps the stored bytes valid UTF-8.
#[derive(Clone, Copy, Debug)]
pub struct Name {
    bytes: [u8; MAX_NAME],
    length: usize,
}

impl View for Name {
    type V = Seq<u8>;

    /// The UTF-8 bytes of the name.
    closed spec fn view(&self) -> Seq<u8> {
        self.bytes@.subrange(0, self.length as int)
    }
}

impl Name {
    #[verifier::type_invariant]
    spec fn well_formed(self) -> bool {
        &&& self.length <= MAX_NAME
        &&& valid_utf8(self.bytes@.subrange(0, self.length as int))
    }

    /// An empty name.
    pub fn new() -> (name: Self)
        ensures
            name@ == Seq::<u8>::empty(),
    {
        let name = Self { bytes: [0u8; MAX_NAME], length: 0 };
        assert(name.bytes@.subrange(0, 0) =~= Seq::<u8>::empty());
        name
    }

    /// A name holding as much of `text` as fits, cut at a character
    /// boundary so the result is always valid UTF-8.
    pub fn truncated(text: &str) -> (name: Self)
        ensures
            name@ == truncated_bytes(text.spec_bytes()),
    {
        let source = text.as_bytes();
        proof {
            encode_utf8_valid_utf8(text@);
        }
        let mut length = if source.len() < MAX_NAME {
            source.len()
        } else {
            MAX_NAME
        };
        let ghost limit = length as int;
        proof {
            lemma_boundary_at_or_below(source@, limit);
        }
        while length > 0 && !text.is_char_boundary(length)
            invariant
                source@ == text.spec_bytes(),
                valid_utf8(source@),
                length <= limit,
                limit <= source@.len(),
                boundary_at_or_below(source@, limit) == boundary_at_or_below(source@, length as int),
            decreases length,
        {
            length -= 1;
        }
        let mut bytes = [0u8; MAX_NAME];
        let mut index: usize = 0;
        while index < length
            invariant
                index <= length,
                length <= MAX_NAME,
                length <= source@.len(),
                forall|k: int| 0 <= k < index ==> bytes@[k] == source@[k],
            decreases length - index,
        {
            bytes[index] = source[index];
            index += 1;
        }
        proof {
            assert(boundary_at_or_below(source@, length as int) == length);
            lemma_boundary_at_or_below(source@, limit);
            valid_utf8_split(source@, length as int);
            assert(bytes@.subrange(0, length as int) =~= source@.subrange(0, length as int));
        }
        let name = Self { bytes, length };
        assert(limit == (if source@.len() < MAX_NAME { source@.len() as int } else { MAX_NAME as int }));
        assert(boundary_at_or_below(source@, limit) == length);
        assert(name@ =~= source@.subrange(0, length as int));
        assert(name@ =~= truncated_bytes(text.spec_bytes()));
        name
    }

    /// The name as text.
    pub fn as_str(&self) -> (text: &str)
        ensures
            text.spec_bytes() == self@,
    {
        proof {
            use_type_invariant(self);
        }
        let slice = self.bytes.as_slice();
        let prefix = slice_prefix(slice, self.length);
        match str_from_utf8(prefix) {
            Some(text) => text,
            None => "",
        }
    }

    /// Whether the name is empty.
    pub fn is_empty(&self) -> (empty: bool)
        ensures
            empty == (self@.len() == 0),
    {
        proof {
            use_type_invariant(self);
        }
        self.length == 0
    }
}

impl Default for Name {
    fn default() -> (name: Self)
        ensures
            name@ == Seq::<u8>::empty(),
    {
        Self::new()
    }
}

impl PartialEq for Name {
    fn eq(&self, other: &Self) -> (same: bool) {
        proof {
            use_type_invariant(self);
            use_type_invariant(other);
        }
        if self.length != other.length {
            return false;
        }
        let mut index: usize = 0;
        while index < self.length
            invariant
                self.length == other.length,
                self.length <= MAX_NAME,
                index <= self.length,
                forall|k: int| 0 <= k < index ==> self.bytes@[k] == other.bytes@[k],
            decreases self.length - index,
        {
            if self.bytes[index] != other.bytes[index] {
                assert(self@[index as int] != other@[index as int]);
                return false;
            }
            index += 1;
        }
        assert(self@ =~= other@);
        true
    }
}

impl vstd::std_specs::cmp::PartialEqSpecImpl for Name {
    open spec fn obeys_eq_spec() -> bool {
        true
    }

    open spec fn eq_spec(&self, other: &Self) -> bool {
        self@ == other@
    }
}

impl Eq for Name {

}

/// The first `length` elements of `slice`.
fn slice_prefix(slice: &[u8], length: usize) -> (prefix: &[u8])
    requires
        length <= slice@.len(),
    ensures
        prefix@ == slice@.subrange(0, length as int),
{
    &slice[0..length]
}

/// Text from bytes when they are valid UTF-8.
///
/// Calls `core::str::from_utf8`, which the standard library documents as
/// succeeding exactly when the bytes are valid UTF-8 and then returning the
/// text those bytes encode.
#[verifier::external_body]
fn str_from_utf8(bytes: &[u8]) -> (text: Option<&str>)
    ensures
        text is Some <==> valid_utf8(bytes@),
        text matches Some(t) ==> t.spec_bytes() == bytes@,
{
    core::str::from_utf8(bytes).ok()
}

/// Sample rates a device accepts, most preferred first.
#[derive(Clone, Copy, Debug, PartialEq, Eq)]
pub struct Rates {
    values: [u32; MAX_RATES],
    length: usize,
}

impl View for Rates {
    type V = Seq<u32>;

    /// The rates recorded, in order.
    closed spec fn view(&self) -> Seq<u32> {
        self.values@.subrange(0, self.length as int)
    }
}

impl Rates {
    #[verifier::type_invariant]
    spec fn well_formed(self) -> bool {
        self.length <= MAX_RATES
    }

    /// An empty list.
    pub fn new() -> (rates: Self)
        ensures
            rates@ == Seq::<u32>::empty(),
    {
        let rates = Self { values: [0u32; MAX_RATES], length: 0 };
        assert(rates.values@.subrange(0, 0) =~= Seq::<u32>::empty());
        rates
    }

    /// A list holding as many of `rates` as fit, in order.
    pub fn from_slice(rates: &[u32]) -> (list: Self)
        ensures
            list@ == rates@.take(
                if rates@.len() < MAX_RATES {
                    rates@.len() as int
                } else {
                    MAX_RATES as int
                },
            ),
    {
        let mut list = Self::new();
        let mut index: usize = 0;
        while index < rates.len()
            invariant
                index <= rates@.len(),
                index <= MAX_RATES,
                list@ == rates@.take(index as int),
            ensures
                index == rates@.len() || index == MAX_RATES,
                list@ == rates@.take(index as int),
            decreases rates@.len() - index,
        {
            proof {
                use_type_invariant(&list);
            }
            let pushed = list.push(rates[index]);
            if pushed.is_err() {
                break;
            }
            index += 1;
            assert(list@ =~= rates@.take(index as int));
        }
        assert(index == rates@.len() || index == MAX_RATES);
        list
    }

    /// Appends a rate. Returns it back when the list is full.
    pub fn push(&mut self, rate: u32) -> (result: Result<(), u32>)
        ensures
            old(self)@.len() < MAX_RATES ==> result == Ok::<(), u32>(()) && final(self)@ == old(
                self,
            )@.push(rate),
            old(self)@.len() >= MAX_RATES ==> result == Err::<(), u32>(rate) && final(self)@
                == old(self)@,
    {
        proof {
            use_type_invariant(&*self);
        }
        if self.length == MAX_RATES {
            return Err(rate);
        }
        let ghost before = self@;
        self.values[self.length] = rate;
        self.length = self.length + 1;
        assert(self@ =~= before.push(rate));
        Ok(())
    }

    /// The rates recorded.
    pub fn as_slice(&self) -> (slice: &[u32])
        ensures
            slice@ == self@,
    {
        proof {
            use_type_invariant(self);
        }
        let all = self.values.as_slice();
        &all[0..self.length]
    }

    /// Whether `rate` is one of them.
    pub fn contains(&self, rate: u32) -> (found: bool)
        ensures
            found == self@.contains(rate),
    {
        let slice = self.as_slice();
        let mut index: usize = 0;
        while index < slice.len()
            invariant
                index <= slice@.len(),
                slice@ == self@,
                forall|k: int| 0 <= k < index ==> slice@[k] != rate,
            decreases slice@.len() - index,
        {
            if slice[index] == rate {
                assert(self@[index as int] == rate);
                return true;
            }
            index += 1;
        }
        false
    }

    /// Number of rates recorded, never more than [`MAX_RATES`].
    pub fn len(&self) -> (count: usize)
        ensures
            count == self@.len(),
            count <= MAX_RATES,
    {
        proof {
            use_type_invariant(self);
        }
        self.length
    }

    /// Whether no rate is recorded.
    pub fn is_empty(&self) -> (empty: bool)
        ensures
            empty == (self@.len() == 0),
    {
        proof {
            use_type_invariant(self);
        }
        self.length == 0
    }
}

impl Default for Rates {
    fn default() -> (rates: Self)
        ensures
            rates@ == Seq::<u32>::empty(),
    {
        Self::new()
    }
}

/// Which way audio flows.
#[derive(Clone, Copy, Debug, PartialEq, Eq)]
pub enum Direction {
    /// Into the application, from a microphone or input jack.
    Input,
    /// Out of the application, to speakers or an output jack.
    Output,
}

/// Identifier of a device, unique within one backend.
#[derive(Clone, Copy, Debug, PartialEq, Eq, PartialOrd, Ord, Hash)]
pub struct DeviceId(pub u64);

/// A device the host offers.
#[derive(Clone, Copy, Debug, PartialEq, Eq)]
pub struct DeviceInfo {
    /// Identifier used to reopen the same device later.
    pub id: DeviceId,
    /// Name to show a person.
    pub name: Name,
    /// Direction the device carries.
    pub direction: Direction,
    /// Channels the device provides.
    pub channels: u16,
    /// Rates the device accepts, most preferred first.
    pub rates: Rates,
    /// Whether the host reports this as the default device.
    pub is_default: bool,
}

/// What a stream was asked to do.
#[derive(Clone, Copy, Debug, PartialEq, Eq)]
pub struct StreamConfig {
    /// Device to open.
    pub device: DeviceId,
    /// Frames per second.
    pub sample_rate: u32,
    /// Frames the renderer is given at a time.
    pub block_frames: usize,
    /// Output channels to produce. Two is stereo.
    pub channels: u16,
}

/// The error, if any, that validating `config` gives: the rate is checked
/// first, then the block size, then the channel count.
pub open spec fn config_error(config: StreamConfig) -> Option<AudioError> {
    if !is_supported_rate(config.sample_rate) {
        Some(AudioError::Unsupported("sample rate"))
    } else if config.block_frames < MIN_BLOCK || config.block_frames > MAX_BLOCK {
        Some(AudioError::Unsupported("block size"))
    } else if config.channels == 0 || config.channels > 2 {
        Some(AudioError::Unsupported("channel count"))
    } else {
        None
    }
}

/// Whether a stream could honor `config`.
pub open spec fn config_is_valid(config: StreamConfig) -> bool {
    config_error(config) is None
}

/// Whether `config` asks for what a stream can do: a supported rate, a
/// block of [`MIN_BLOCK`] to [`MAX_BLOCK`] frames, and one or two channels.
pub open spec fn within_limits(config: StreamConfig) -> bool {
    &&& supported_rates_seq().contains(config.sample_rate)
    &&& MIN_BLOCK <= config.block_frames <= MAX_BLOCK
    &&& 1 <= config.channels <= 2
}

/// A configuration is refused exactly when it asks for more than a stream
/// can do, and the part named is one at fault: a rate outside
/// [`SUPPORTED_RATES`], a block outside [`MIN_BLOCK`] to [`MAX_BLOCK`]
/// (both ends accepted), or a channel count other than one or two.
pub proof fn lemma_config_limits(config: StreamConfig)
    ensures
        config_error(config) is None <==> within_limits(config),
        config_error(config) == Some(AudioError::Unsupported("sample rate"))
            ==> !supported_rates_seq().contains(config.sample_rate),
        config_error(config) == Some(AudioError::Unsupported("block size")) ==> config.block_frames
            < MIN_BLOCK || config.block_frames > MAX_BLOCK,
        config_error(config) == Some(AudioError::Unsupported("channel count")) ==> config.channels
            == 0 || config.channels > 2,
        config_error(config) is Some ==> config_error(config) == Some(
            AudioError::Unsupported("sample rate"),
        ) || config_error(config) == Some(AudioError::Unsupported("block size"))
            || config_error(config) == Some(AudioError::Unsupported("channel count")),
{
    lemma_supported_rates(config.sample_rate);
}

/// The supported rates are exactly those [`SUPPORTED_RATES`] lists.
proof fn lemma_supported_rates(rate: u32)
    ensures
        is_supported_rate(rate) <==> supported_rates_seq().contains(rate),
{
    let rates = supported_rates_seq();
    if is_supported_rate(rate) {
        let k: int = if rate == 44_100 {
            0
        } else if rate == 48_000 {
            1
        } else if rate == 88_200 {
            2
        } else if rate == 96_000 {
            3
        } else if rate == 176_400 {
            4
        } else {
            5
        };
        assert(rates[k] == rate);
    }
    if rates.contains(rate) {
        let k = choose|k: int| 0 <= k < rates.len() && rates[k] == rate;
        assert(0 <= k < 6);
    }
}

impl StreamConfig {
    /// Rejects a configuration no stream could honor, naming the field at
    /// fault.
    pub fn validate(&self) -> (result: Result<(), AudioError>)
        ensures
            result matches Ok(_) <==> config_is_valid(*self),
            result matches Err(error) ==> config_error(*self) == Some(error),
            result is Ok <==> within_limits(*self),
            result == Err::<(), AudioError>(AudioError::Unsupported("block size"))
                ==> self.block_frames < MIN_BLOCK || self.block_frames > MAX_BLOCK,
    {
        proof {
            lemma_config_limits(*self);
        }
        let rates = SUPPORTED_RATES;
        let mut index: usize = 0;
        let mut found = false;
        while index < 6
            invariant
                index <= 6,
                rates@ == supported_rates_seq(),
                found == exists|k: int| 0 <= k < index && rates@[k] == self.sample_rate,
            decreases 6 - index,
        {
            if rates[index] == self.sample_rate {
                found = true;
            }
            index += 1;
        }
        assert(found == is_supported_rate(self.sample_rate)) by {
            if is_supported_rate(self.sample_rate) {
                let k: int = if self.sample_rate == 44_100 {
                    0
                } else if self.sample_rate == 48_000 {
                    1
                } else if self.sample_rate == 88_200 {
                    2
                } else if self.sample_rate == 96_000 {
                    3
                } else if self.sample_rate == 176_400 {
                    4
                } else {
                    5
                };
                assert(rates@[k] == self.sample_rate);
            }
        }
        if !found {
            return Err(AudioError::Unsupported("sample rate"));
        }
        if self.block_frames < MIN_BLOCK || self.block_frames > MAX_BLOCK {
            return Err(AudioError::Unsupported("block size"));
        }
        if self.channels == 0 || self.channels > 2 {
            return Err(AudioError::Unsupported("channel count"));
        }
        Ok(())
    }
}

/// Why an audio operation failed.
#[derive(Clone, Copy, Debug, PartialEq, Eq)]
pub enum AudioError {
    /// No device matched the identifier.
    DeviceMissing,
    /// The configuration names something the device cannot do. The field
    /// is the part at fault.
    Unsupported(&'static str),
    /// The stream is already running, or is not running when it must be.
    WrongState,
    /// The host refused the request.
    Host(&'static str),
}

/// The sentence that describes `error`.
pub open spec fn audio_error_text(error: AudioError) -> Seq<char> {
    match error {
        AudioError::DeviceMissing => "no such audio device"@,
        AudioError::Unsupported(field) => "unsupported "@ + field@,
        AudioError::WrongState => "the stream is in the wrong state"@,
        AudioError::Host(reason) => "the audio host refused: "@ + reason@,
    }
}

impl AudioError {
    /// A sentence describing the failure.
    pub fn to_string(&self) -> (text: String)
        ensures
            text@ == audio_error_text(*self),
    {
        match self {
            AudioError::DeviceMissing => String::from_str("no such audio device"),
            AudioError::Unsupported(field) => String::from_str("unsupported ").concat(field),
            AudioError::WrongState => String::from_str("the stream is in the wrong state"),
            AudioError::Host(reason) => String::from_str("the audio host refused: ").concat(
                reason,
            ),
        }
    }
}

/// Timing a stream reports with each block.
#[derive(Clone, Copy, Debug, PartialEq, Eq, Default)]
pub struct BlockTiming {
    /// Frames the stream produced before this block.
    pub frame: u64,
    /// Blocks the stream dropped because a callback ran long.
    pub dropouts: u64,
}

/// Produces audio for a stream.
///
/// The implementation runs on the audio thread. It must fill every frame it
/// is given: a stream does not clear the buffer first. What a call does is
/// the implementation's to say, through [`Renderer::renders`] and
/// [`Renderer::prepares`].
pub trait Renderer {
    /// One frame of output, such as a stereo pair of samples.
    type Frame;

    /// Whether rendering the block `before` with `timing` may leave the
    /// block as `output` and the renderer as `after`.
    /// An implementation that says nothing more allows any outcome.
    open spec fn renders(
        &self,
        timing: BlockTiming,
        before: Seq<Self::Frame>,
        after: &Self,
        output: Seq<Self::Frame>,
    ) -> bool {
        true
    }

    /// Whether preparing for `config` may leave the renderer as `after`.
    /// An implementation that says nothing more allows any outcome.
    open spec fn prepares(&self, config: StreamConfig, after: &Self) -> bool {
        true
    }

    /// Fills `output` with `output.len()` frames.
    fn render(&mut self, output: &mut [Self::Frame], timing: BlockTiming)
        ensures
            final(output)@.len() == old(output)@.len(),
            old(self).renders(timing, old(output)@, &*final(self), final(output)@),
    ;

    /// Called before the first block with the configuration granted.
    fn prepare(&mut self, config: StreamConfig)
        ensures
            old(self).prepares(config, &*final(self)),
    ;
}

/// Receives audio from an input stream.
///
/// What a call does is the implementation's to say, through
/// [`Capturer::captures`] and [`Capturer::prepares`].
pub trait Capturer {
    /// One frame of input, such as a stereo pair of samples.
    type Frame;

    /// Whether taking the block `input` with `timing` may leave the
    /// capturer as `after`.
    /// An implementation that says nothing more allows any outcome.
    open spec fn captures(&self, timing: BlockTiming, input: Seq<Self::Frame>, after: &Self) -> bool {
        true
    }

    /// Whether preparing for `config` may leave the capturer as `after`.
    /// An implementation that says nothing more allows any outcome.
    open spec fn prepares(&self, config: StreamConfig, after: &Self) -> bool {
        true
    }

    /// Takes `input.len()` frames that arrived from the device.
    fn capture(&mut self, input: &[Self::Frame], timing: BlockTiming)
        ensures
            old(self).captures(timing, input@, &*final(self)),
    ;

    /// Called before the first block with the configuration granted.
    fn prepare(&mut self, config: StreamConfig)
        ensures
            old(self).prepares(config, &*final(self)),
    ;
}

/// A stream that has been opened.
pub trait Stream {
    /// Configuration the stream is running with.
    fn config(&self) -> StreamConfig;

    /// Starts producing audio; refused when already running.
    fn start(&mut self) -> Result<(), AudioError>;

    /// Stops producing audio; refused when not running.
    fn stop(&mut self) -> Result<(), AudioError>;

    /// Whether audio is being produced.
    fn is_running(&self) -> bool;

    /// Frames produced since the stream was opened.
    fn frames_rendered(&self) -> u64;

    /// Blocks dropped because a callback ran past its deadline.
    fn dropouts(&self) -> u64;

    /// Whether the device went away while the stream was open. A stream
    /// that cannot lose its device does not override this and never is.
    fn is_lost(&self) -> (lost: bool)
        default_ensures
            !lost,
    {
        false
    }

    /// Frames between the renderer and a listener. A stream that does not
    /// override this adds none.
    fn latency_frames(&self) -> (frames: u32)
        default_ensures
            frames == 0,
    {
        0
    }
}

} // verus!

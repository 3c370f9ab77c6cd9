//! The CoreAudio host's decisions and constants.
//!
//! Four-character codes are how the host's headers name component types and
//! formats. A device identifier of zero asks for whatever the system
//! currently defaults to.
use crate::audio::{
    AudioError, DeviceId, DeviceInfo, Direction, MIN_BLOCK, Name, Rates, SUPPORTED_RATES, StreamConfig,
    config_error, supported_rates_seq, truncated_bytes,
};
use crate::engine::MAX_FRAMES;
use vstd::utf8::encode_utf8;
use vstd::prelude::*;

verus! {

/// The code the host's headers write as four characters, packed big-end
/// first.
pub open spec fn four_cc_value(code: [u8; 4]) -> int {
    (code[0] as u32) * 0x0100_0000 + (code[1] as u32) * 0x0001_0000 + (code[2] as u32) * 0x0100
        + (code[3] as u32)
}

/// Packs a four-character code the way the host's headers do.
pub fn four_cc(code: &[u8; 4]) -> (value: u32)
    ensures
        value == four_cc_value(*code),
{
    let a = code[0];
    let b = code[1];
    let c = code[2];
    let d = code[3];
    let value = ((a as u32) << 24) | ((b as u32) << 16) | ((c as u32) << 8) | (d as u32);
    assert(value == (a as u32) * 0x0100_0000 + (b as u32) * 0x0001_0000 + (c as u32) * 0x0100
        + (d as u32)) by (bit_vector)
        requires
            value == ((a as u32) << 24) | ((b as u32) << 16) | ((c as u32) << 8) | (d as u32),
    ;
    value
}

/// The platform's audio system as a backend.
#[derive(Clone, Copy, Debug, Default)]
pub struct CoreAudioBackend;

impl CoreAudioBackend {
    /// A backend over the system's audio devices.
    pub fn new() -> (backend: Self) {
        Self
    }

    /// Name of the host interface.
    pub fn name(&self) -> (name: &'static str)
        ensures
            name@ == "CoreAudio"@,
    {
        "CoreAudio"
    }

    /// The host object a stream opens: the system default for identifier
    /// zero, the identifier itself when it fits the host's 32 bits, and no
    /// device otherwise. `default` is what asking the host for its default
    /// gave.
    pub fn device_object(device: DeviceId, default: Result<u32, AudioError>) -> (object: Result<
        u32,
        AudioError,
    >)
        ensures
            device.0 == 0 ==> object == default,
            device.0 != 0 && device.0 <= u32::MAX ==> object == Ok::<u32, AudioError>(
                device.0 as u32,
            ),
            device.0 > u32::MAX ==> object == Err::<u32, AudioError>(AudioError::DeviceMissing),
    {
        if device.0 == 0 {
            default
        } else if device.0 <= 0xffff_ffff {
            Ok(device.0 as u32)
        } else {
            Err(AudioError::DeviceMissing)
        }
    }

    /// The block a stream runs with once the device granted `granted`
    /// frames: that size, brought into [`MIN_BLOCK`] to [`MAX_FRAMES`].
    pub fn stream_block(granted: u32) -> (block: usize)
        ensures
            block == (if granted < MIN_BLOCK {
                MIN_BLOCK as int
            } else if granted > MAX_FRAMES {
                MAX_FRAMES as int
            } else {
                granted as int
            }),
    {
        if granted < MIN_BLOCK as u32 {
            MIN_BLOCK
        } else if granted > MAX_FRAMES as u32 {
            MAX_FRAMES
        } else {
            granted as usize
        }
    }

    /// The buffer size the device runs with after `wanted` was asked for:
    /// what the host reports, or `wanted` when the host reports nothing.
    pub fn granted_buffer_size(wanted: u32, reported: Option<u32>) -> (granted: u32)
        ensures
            granted == (match reported {
                Some(size) => if size == 0 {
                    wanted
                } else {
                    size
                },
                None => wanted,
            }),
    {
        match reported {
            Some(size) => if size == 0 {
                wanted
            } else {
                size
            },
            None => wanted,
        }
    }
}

/// Where the first buffer of a stream configuration list begins: after the
/// 32-bit count, at the buffer's own 8-byte alignment.
pub const FIRST_BUFFER: usize = 8;
/// Bytes one buffer of the list takes: its channel count, its byte size
/// and a data pointer.
pub const BUFFER_BYTES: usize = 16;

/// The 32-bit number stored little-endian at `offset`.
pub open spec fn u32_at(bytes: Seq<u8>, offset: int) -> int {
    bytes[offset] + 0x100 * bytes[offset + 1] + 0x1_0000 * bytes[offset + 2] + 0x100_0000 * bytes[
        offset + 3]
}

/// Buffers of the list that are read: as many as its count says, but only
/// those lying whole inside the bytes.
pub open spec fn buffers_read(bytes: Seq<u8>) -> int {
    let fit = if bytes.len() >= FIRST_BUFFER + BUFFER_BYTES {
        (bytes.len() - FIRST_BUFFER) / (BUFFER_BYTES as int)
    } else {
        0
    };
    if u32_at(bytes, 0) < fit {
        u32_at(bytes, 0)
    } else {
        fit
    }
}

/// Channels the first `buffers` buffers of the list carry, together.
pub open spec fn channels_in(bytes: Seq<u8>, buffers: int) -> int
    decreases buffers,
{
    if buffers <= 0 {
        0
    } else {
        channels_in(bytes, buffers - 1) + u32_at(
            bytes,
            FIRST_BUFFER + BUFFER_BYTES * (buffers - 1),
        )
    }
}

/// The channels a stream configuration carries, from its bytes as the host
/// wrote them and the length it reported: none when it reported less than
/// a count.
pub open spec fn configuration_channels(bytes: Seq<u8>, reported: int) -> int {
    if reported < 4 {
        0
    } else {
        channels_in(bytes, buffers_read(bytes))
    }
}

proof fn lemma_channels_grow(bytes: Seq<u8>, buffers: int, more: int)
    requires
        0 <= buffers <= more,
    ensures
        channels_in(bytes, buffers) <= channels_in(bytes, more),
    decreases more - buffers,
{
    if buffers < more {
        lemma_channels_grow(bytes, buffers, more - 1);
    }
}

/// Sums the channels of a stream configuration list the host wrote into
/// `bytes`, of which it reported `reported` as written.
pub fn configuration_channels_of(bytes: &[u8], reported: usize) -> (channels: u32)
    requires
        reported <= bytes@.len(),
        configuration_channels(bytes@, reported as int) <= u32::MAX,
    ensures
        channels == configuration_channels(bytes@, reported as int),
{
    if reported < 4 {
        return 0;
    }
    let count = (bytes[0] as u32) + 0x100 * (bytes[1] as u32) + 0x1_0000 * (bytes[2] as u32)
        + 0x100_0000 * (bytes[3] as u32);
    let mut channels: u32 = 0;
    let mut index: usize = 0;
    while index < count as usize
        invariant
            4 <= bytes@.len(),
            count == u32_at(bytes@, 0),
            index <= count,
            index <= buffers_read(bytes@),
            channels == channels_in(bytes@, index as int),
            channels_in(bytes@, buffers_read(bytes@)) <= u32::MAX,
        ensures
            index == buffers_read(bytes@),
            channels == channels_in(bytes@, index as int),
        decreases count - index,
    {
        if bytes.len() < FIRST_BUFFER + BUFFER_BYTES || index > (bytes.len() - FIRST_BUFFER
            - BUFFER_BYTES) / BUFFER_BYTES {
            break;
        }
        let offset = FIRST_BUFFER + index * BUFFER_BYTES;
        let buffer = (bytes[offset] as u32) + 0x100 * (bytes[offset + 1] as u32) + 0x1_0000 * (
        bytes[offset + 2] as u32) + 0x100_0000 * (bytes[offset + 3] as u32);
        proof {
            lemma_channels_grow(bytes@, index as int + 1, buffers_read(bytes@));
        }
        channels = channels + buffer;
        index += 1;
    }
    channels
}

/// One audio object as the host describes it in one direction.
#[derive(Clone, Debug, PartialEq, Eq)]
pub struct HostDevice {
    /// The host's object identifier.
    pub object: u32,
    /// Name to show a person.
    pub name: String,
    /// Channels the object carries in the direction asked about; zero when
    /// it carries none.
    pub channels: u32,
    /// The rate the object currently runs at; zero when it cannot be read.
    pub nominal_rate: u32,
}

/// Whether a supported rate is listed after `nominal`.
pub open spec fn other_than(nominal: u32) -> spec_fn(u32) -> bool {
    |candidate: u32| candidate != nominal
}

/// The rates listed for a device running at `nominal`: that rate first when
/// it is known, then every other supported rate in preference order.
pub open spec fn host_rates(nominal: u32) -> Seq<u32> {
    let others = supported_rates_seq().filter(other_than(nominal));
    if nominal == 0 {
        others
    } else {
        seq![nominal] + others
    }
}

/// Whether the object carries audio in the direction asked about.
pub open spec fn carries_audio() -> spec_fn(HostDevice) -> bool {
    |device: HostDevice| device.channels > 0
}

/// How a host object is described to a caller.
pub open spec fn describes_object(
    info: DeviceInfo,
    device: HostDevice,
    default: u32,
    direction: Direction,
) -> bool {
    &&& info.id == DeviceId(device.object as u64)
    &&& info.name@ == truncated_bytes(encode_utf8(device.name@))
    &&& info.direction == direction
    &&& info.channels == (if device.channels < 0xffff {
        device.channels
    } else {
        0xffff
    })
    &&& info.rates@ == host_rates(device.nominal_rate)
    &&& info.is_default == (device.object == default)
}

/// In either direction, a described device is marked default exactly when
/// it is the host's default object, and it keeps that object's identifier.
pub proof fn lemma_described_default(
    info: DeviceInfo,
    device: HostDevice,
    default: u32,
    direction: Direction,
)
    requires
        describes_object(info, device, default, direction),
    ensures
        info.is_default <==> device.object == default,
        info.is_default <==> info.id == DeviceId(default as u64),
        info.direction == direction,
{
}

impl CoreAudioBackend {
    /// The rates listed for a device running at `nominal`.
    pub fn rates_for(nominal: u32) -> (rates: Rates)
        ensures
            rates@ == host_rates(nominal),
    {
        let mut rates = Rates::new();
        if nominal != 0 {
            let _ = rates.push(nominal);
        }
        let ghost first = rates@;
        let supported = SUPPORTED_RATES;
        let mut index: usize = 0;
        while index < 6
            invariant
                index <= 6,
                supported@ == supported_rates_seq(),
                first == (if nominal == 0 {
                    Seq::<u32>::empty()
                } else {
                    seq![nominal]
                }),
                rates@ == first + supported@.take(index as int).filter(other_than(nominal)),
            decreases 6 - index,
        {
            proof {
                supported@.take(index as int).lemma_filter_push(
                    supported@[index as int],
                    other_than(nominal),
                );
                assert(supported@.take(index as int + 1) =~= supported@.take(index as int).push(
                    supported@[index as int],
                ));
                supported@.take(index as int).lemma_filter_len(other_than(nominal));
            }
            let candidate = supported[index];
            if candidate != nominal {
                let _ = rates.push(candidate);
                assert(rates@ =~= first + supported@.take(index as int + 1).filter(
                    other_than(nominal),
                ));
            }
            index += 1;
        }
        assert(supported@.take(6) =~= supported@);
        assert(nominal == 0 ==> first + supported_rates_seq().filter(other_than(nominal))
            =~= supported_rates_seq().filter(other_than(nominal)));
        rates
    }

    /// Describes the objects the host listed that carry audio in
    /// `direction`, as many as fit in `out`, in the host's order. Objects
    /// carrying no channels that way are skipped. Returns how many were
    /// written; the rest of `out` is left alone.
    pub fn describe_devices(
        listed: &[HostDevice],
        default: u32,
        direction: Direction,
        out: &mut [DeviceInfo],
    ) -> (written: usize)
        ensures
            final(out)@.len() == old(out)@.len(),
            written <= old(out)@.len(),
            written <= listed@.filter(carries_audio()).len(),
            written < old(out)@.len() ==> written == listed@.filter(carries_audio()).len(),
            forall|k: int|
                0 <= k < written ==> describes_object(
                    final(out)@[k],
                    listed@.filter(carries_audio())[k],
                    default,
                    direction,
                ),
            forall|k: int|
                0 <= k < written ==> ((#[trigger] final(out)@[k]).is_default
                    <==> listed@.filter(carries_audio())[k].object == default),
            forall|k: int|
                0 <= k < written ==> ((#[trigger] final(out)@[k]).is_default
                    <==> final(out)@[k].id == DeviceId(default as u64)),
            forall|k: int| written <= k < old(out)@.len() ==> final(out)@[k] == old(out)@[k],
    {
        let mut written: usize = 0;
        let mut index: usize = 0;
        while index < listed.len() && written < out.len()
            invariant
                index <= listed@.len(),
                out@.len() == old(out)@.len(),
                written <= out@.len(),
                written == listed@.take(index as int).filter(carries_audio()).len(),
                forall|k: int|
                    0 <= k < written ==> describes_object(
                        out@[k],
                        listed@.take(index as int).filter(carries_audio())[k],
                        default,
                        direction,
                    ),
                forall|k: int| written <= k < out@.len() ==> out@[k] == old(out)@[k],
            decreases listed@.len() - index,
        {
            let ghost before = listed@.take(index as int).filter(carries_audio());
            proof {
                listed@.take(index as int).lemma_filter_push(listed@[index as int], carries_audio());
                assert(listed@.take(index as int + 1) =~= listed@.take(index as int).push(
                    listed@[index as int],
                ));
            }
            let device = &listed[index];
            if device.channels != 0 {
                let channels: u16 = if device.channels < 0xffff {
                    device.channels as u16
                } else {
                    0xffff
                };
                out[written] = DeviceInfo {
                    id: DeviceId(device.object as u64),
                    name: Name::truncated(device.name.as_str()),
                    direction,
                    channels,
                    rates: Self::rates_for(device.nominal_rate),
                    is_default: device.object == default,
                };
                written += 1;
            }
            index += 1;
        }
        proof {
            let all = listed@.filter(carries_audio());
            let front = listed@.take(index as int);
            let back = listed@.skip(index as int);
            assert(front + back =~= listed@);
            Seq::filter_distributes_over_add(front, back, carries_audio());
            assert forall|k: int| 0 <= k < written implies front.filter(carries_audio())[k]
                == all[k] by {}
            if index == listed@.len() {
                assert(front =~= listed@);
            }
        }
        written
    }

    /// The channels an input stream takes: what was asked for, but no more
    /// than the device carries and at least one. A device carrying no input
    /// is missing.
    pub fn input_channels(config: &StreamConfig, available: u32) -> (result: Result<
        u16,
        AudioError,
    >)
        ensures
            config_error(*config) matches Some(error) ==> result == Err::<u16, AudioError>(error),
            config_error(*config) is None && available == 0 ==> result == Err::<u16, AudioError>(
                AudioError::DeviceMissing,
            ),
            config_error(*config) is None && available > 0 ==> result == Ok::<u16, AudioError>(
                (if (config.channels as u32) < available {
                    config.channels
                } else {
                    available as u16
                }),
            ),
    {
        match config.validate() {
            Ok(()) => {},
            Err(error) => {
                return Err(error);
            },
        }
        if config.channels == 0 || config.channels > 2 {
            return Err(AudioError::Unsupported("channel count"));
        }
        if available == 0 {
            return Err(AudioError::DeviceMissing);
        }
        if (config.channels as u32) < available {
            Ok(config.channels)
        } else {
            Ok(available as u16)
        }
    }
}

} // verus!

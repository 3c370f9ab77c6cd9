//! The ALSA host's device list, once its hints have been read.
//!
//! The host lists playback devices as hints: a name, an optional
//! description whose first line is what a person should see, and an
//! optional direction that is absent for devices that both play and
//! record. The device called "default" is the host's default.
use crate::audio::{MAX_BLOCK, StreamConfig, config_is_valid};
use crate::engine::MAX_FRAMES;
use crate::host::Endpoint;
use vstd::prelude::*;
use vstd::string::{StringExecFns, StringSliceAdditionalSpecFns};
use vstd::utf8::{
    decode_utf8_encode_utf8, encode_utf8, encode_utf8_decode_utf8, encode_utf8_valid_utf8,
    is_char_boundary_iff_not_is_continuation_byte,
};

pub use crate::host::identifier;

verus! {

broadcast use vstd::utf8::group_utf8_lib;

/// Most devices one listing describes.
pub const MAX_DEVICES: usize = 32;

/// How far above the lowest real-time priority the audio thread asks for.
pub const PRIORITY_STEP: i32 = 10;

/// The real-time priority the audio thread asks for, given the range the
/// system reports for its first-in-first-out policy: a step above the
/// lowest, but no higher than the highest. `None` when the range is
/// unusable.
pub fn realtime_priority(lowest: i32, highest: i32) -> (priority: Option<i32>)
    requires
        0 <= lowest <= highest ==> lowest <= i32::MAX - PRIORITY_STEP,
    ensures
        lowest < 0 || highest < lowest ==> priority is None,
        0 <= lowest <= highest ==> priority == Some(
            if lowest + PRIORITY_STEP < highest {
                (lowest + PRIORITY_STEP) as i32
            } else {
                highest
            },
        ),
{
    if lowest < 0 || highest < lowest {
        return None;
    }
    let stepped = lowest + PRIORITY_STEP;
    Some(
        if stepped < highest {
            stepped
        } else {
            highest
        },
    )
}

/// The latency, in microseconds, a stream asks the device to keep: two
/// blocks, which a loop that writes and waits needs to stay ahead without
/// adding delay of its own.
pub fn requested_latency(config: &StreamConfig) -> (micros: u32)
    requires
        config_is_valid(*config),
    ensures
        micros == config.block_frames * 2 * 1_000_000 / (config.sample_rate as int),
{
    let frames = config.block_frames as u64;
    let rate = config.sample_rate as u64;
    assert(rate >= 44_100 && frames <= MAX_BLOCK);
    let doubled = frames * 2 * 1_000_000;
    proof {
        vstd::arithmetic::div_mod::lemma_div_is_ordered_by_denominator(
            doubled as int,
            44_100int,
            rate as int,
        );
        vstd::arithmetic::div_mod::lemma_div_is_ordered(doubled as int, 4_096_000_000int, 44_100int);
        assert(4_096_000_000int / 44_100int < 0x1_0000_0000int);
    }
    (doubled / rate) as u32
}

/// The block a stream runs with: the period the device settled on, at
/// most [`MAX_FRAMES`], when asking for it succeeded (`status` zero) and
/// gave one; otherwise the block that was asked for.
pub fn granted_block(status: i32, period_frames: u64, requested: usize) -> (block: usize)
    ensures
        block == (if status == 0 && period_frames > 0 {
            if period_frames > MAX_FRAMES {
                MAX_FRAMES as int
            } else {
                period_frames as int
            }
        } else {
            requested as int
        }),
{
    if status == 0 && period_frames > 0 {
        if period_frames > MAX_FRAMES as u64 {
            MAX_FRAMES
        } else {
            period_frames as usize
        }
    } else {
        requested
    }
}

/// Name of the host interface.
pub fn name() -> (name: &'static str)
    ensures
        name@ == "ALSA"@,
{
    "ALSA"
}

/// Index of the first line feed in `bytes`, or its length when there is
/// none.
pub open spec fn first_line_end(bytes: Seq<u8>) -> int
    decreases bytes.len(),
{
    if bytes.len() == 0 || bytes[0] == 10 {
        0
    } else {
        1 + first_line_end(bytes.drop_first())
    }
}

/// The first line of text encoded as `bytes`: everything before the first
/// line feed, without a carriage return just before that line feed.
pub open spec fn first_line(bytes: Seq<u8>) -> Seq<u8> {
    let end = first_line_end(bytes);
    if end < bytes.len() && end > 0 && bytes[end - 1] == 13 {
        bytes.take(end - 1)
    } else {
        bytes.take(end)
    }
}

proof fn lemma_first_line_end(bytes: Seq<u8>)
    ensures
        0 <= first_line_end(bytes) <= bytes.len(),
        forall|k: int| 0 <= k < first_line_end(bytes) ==> bytes[k] != 10,
        first_line_end(bytes) < bytes.len() ==> bytes[first_line_end(bytes)] == 10,
    decreases bytes.len(),
{
    if bytes.len() > 0 && bytes[0] != 10 {
        let rest = bytes.drop_first();
        lemma_first_line_end(rest);
        assert forall|k: int| 0 <= k < first_line_end(bytes) implies bytes[k] != 10 by {
            if k > 0 {
                assert(bytes[k] == rest[k - 1]);
            }
        }
        if first_line_end(bytes) < bytes.len() {
            assert(bytes[first_line_end(bytes)] == rest[first_line_end(rest)]);
        }
    }
}

/// The first line of `text`, as a person should see it in a list.
pub fn first_line_of(text: &str) -> (line: String)
    ensures
        encode_utf8(line@) == first_line(text.spec_bytes()),
{
    let bytes = text.as_bytes();
    let mut end: usize = 0;
    while end < bytes.len() && bytes[end] != 10
        invariant
            end <= bytes@.len(),
            forall|k: int| 0 <= k < end ==> bytes@[k] != 10,
        decreases bytes@.len() - end,
    {
        end += 1;
    }
    proof {
        lemma_first_line_end(bytes@);
        // The first line feed is where the loop stopped.
        if end < bytes@.len() {
            assert(first_line_end(bytes@) == end) by {
                if first_line_end(bytes@) < end {
                    assert(bytes@[first_line_end(bytes@)] == 10);
                }
            }
        } else {
            assert(first_line_end(bytes@) == end);
        }
    }
    let cut = if end < bytes.len() && end > 0 && bytes[end - 1] == 13 {
        end - 1
    } else {
        end
    };
    proof {
        encode_utf8_valid_utf8(text@);
        if cut < bytes@.len() {
            is_char_boundary_iff_not_is_continuation_byte(bytes@, cut as int);
        }
    }
    let (front, _) = text.split_at(cut);
    proof {
        decode_utf8_encode_utf8(front.spec_bytes());
        encode_utf8_decode_utf8(front@);
    }
    String::from_str(front)
}

/// Whether the host calls this device its default.
pub fn is_default_name(name: &str) -> (default: bool)
    ensures
        default == (name.spec_bytes() == "default".spec_bytes()),
{
    let wanted = "default".as_bytes();
    let bytes = name.as_bytes();
    if bytes.len() != wanted.len() {
        return false;
    }
    let mut index: usize = 0;
    while index < bytes.len()
        invariant
            index <= bytes@.len(),
            bytes@.len() == wanted@.len(),
            bytes@ == name.spec_bytes(),
            wanted@ == "default".spec_bytes(),
            forall|k: int| 0 <= k < index ==> bytes@[k] == wanted@[k],
        decreases bytes@.len() - index,
    {
        if bytes[index] != wanted[index] {
            assert(bytes@[index as int] != wanted@[index as int]);
            return false;
        }
        index += 1;
    }
    assert(bytes@ =~= wanted@);
    true
}

/// Whether a hint's direction field names a playback device: absent means
/// the device both plays and records.
pub open spec fn plays(direction: Option<Seq<u8>>) -> bool {
    direction matches Some(value) ==> value == "Output".spec_bytes()
}

/// The bytes of an optional piece of text.
pub open spec fn text_bytes(text: Option<&str>) -> Option<Seq<u8>> {
    match text {
        Some(value) => Some(value.spec_bytes()),
        None => None,
    }
}

/// The endpoint a hint describes, or `None` for a device that only records.
/// A hint without a description is shown by its name.
pub fn listed_endpoint(name: &str, description: Option<&str>, direction: Option<&str>) -> (endpoint: Option<Endpoint>)
    ensures
        !plays(text_bytes(direction)) ==> endpoint is None,
        plays(text_bytes(direction)) ==> (endpoint matches Some(e) && {
            &&& e.id@ == name@
            &&& encode_utf8(e.name@) == first_line(
                (match description {
                    Some(text) => text,
                    None => name,
                }).spec_bytes(),
            )
            &&& e.is_default == (name.spec_bytes() == "default".spec_bytes())
        }),
{
    match direction {
        Some(value) => {
            if !same_bytes(value, "Output") {
                return None;
            }
        },
        None => {},
    }
    let shown = match description {
        Some(text) => text,
        None => name,
    };
    Some(
        Endpoint {
            id: String::from_str(name),
            name: first_line_of(shown),
            is_default: is_default_name(name),
        },
    )
}

/// Whether two pieces of text are the same.
fn same_bytes(left: &str, right: &str) -> (same: bool)
    ensures
        same == (left.spec_bytes() == right.spec_bytes()),
{
    let a = left.as_bytes();
    let b = right.as_bytes();
    if a.len() != b.len() {
        return false;
    }
    let mut index: usize = 0;
    while index < a.len()
        invariant
            index <= a@.len(),
            a@.len() == b@.len(),
            a@ == left.spec_bytes(),
            b@ == right.spec_bytes(),
            forall|k: int| 0 <= k < index ==> a@[k] == b@[k],
        decreases a@.len() - index,
    {
        if a[index] != b[index] {
            assert(a@[index as int] != b@[index as int]);
            return false;
        }
        index += 1;
    }
    assert(a@ =~= b@);
    true
}

/// The host name of the listed device with identifier `device`; when
/// several names share it, the last one listed.
pub fn name_of(endpoints: &[Endpoint], device: u64) -> (name: Option<String>)
    ensures
        name is None <==> forall|k: int|
            0 <= k < endpoints@.len() ==> crate::host::identifier_of(encode_utf8(endpoints@[k].id@))
                != device,
        name matches Some(found) ==> exists|k: int|
            0 <= k < endpoints@.len() && crate::host::identifier_of(encode_utf8(endpoints@[k].id@))
                == device && found@ == endpoints@[k].id@ && forall|j: int|
                k < j < endpoints@.len() ==> crate::host::identifier_of(
                    encode_utf8(endpoints@[j].id@),
                ) != device,
{
    let mut found: Option<String> = None;
    let mut found_at: usize = 0;
    let mut index: usize = 0;
    while index < endpoints.len()
        invariant
            index <= endpoints@.len(),
            found is None ==> forall|k: int|
                0 <= k < index ==> crate::host::identifier_of(encode_utf8(endpoints@[k].id@))
                    != device,
            found matches Some(s) ==> {
                &&& found_at < index
                &&& crate::host::identifier_of(encode_utf8(endpoints@[found_at as int].id@))
                    == device
                &&& s@ == endpoints@[found_at as int].id@
                &&& forall|j: int|
                    found_at < j < index ==> crate::host::identifier_of(
                        encode_utf8(endpoints@[j].id@),
                    ) != device
            },
        decreases endpoints@.len() - index,
    {
        if identifier(endpoints[index].id.as_str()) == device {
            found = Some(endpoints[index].id.clone());
            found_at = index;
        }
        index += 1;
    }
    found
}

} // verus!

//! The protocol a plugin worker process speaks on its standard streams.
//!
//! The host and the worker open with the same eight-byte header. Each
//! request then starts with a little-endian 32-bit frame count: zero ends
//! the session, two reserved values ask the worker to save or load the
//! plugin's state, and anything else is a block of that many frames, which
//! may not exceed the limit the worker was started with. A block carries a
//! little-endian 32-bit count of parameter events before its audio.
use vstd::prelude::*;

verus! {

/// The header both ends send first: "NYWORK3" and a zero byte.
pub const HEADER: [u8; 8] = [78, 89, 87, 79, 82, 75, 51, 0];
/// Largest block limit a worker accepts.
pub const MAX_BLOCK_FRAMES: usize = 8192;
/// Frame count that asks the worker to save the plugin's state.
pub const SAVE_STATE: u32 = 0xffff_ffff;
/// Frame count that asks the worker to load the plugin's state.
pub const LOAD_STATE: u32 = 0xffff_fffe;

/// The number four little-endian bytes encode.
pub open spec fn le_u32(bytes: [u8; 4]) -> int {
    bytes[0] + 0x100 * bytes[1] + 0x1_0000 * bytes[2] + 0x100_0000 * bytes[3]
}

/// The number eight little-endian bytes encode.
pub open spec fn le_u64(bytes: [u8; 8]) -> int {
    le_u32([bytes[0], bytes[1], bytes[2], bytes[3]]) + 0x1_0000_0000 * le_u32(
        [bytes[4], bytes[5], bytes[6], bytes[7]],
    )
}

/// The four bytes a sender writes for `value`, lowest first.
pub open spec fn le_bytes_u32(value: u32) -> [u8; 4] {
    [
        (value % 0x100) as u8,
        (value / 0x100 % 0x100) as u8,
        (value / 0x1_0000 % 0x100) as u8,
        (value / 0x100_0000 % 0x100) as u8,
    ]
}

/// Decoding the four bytes a sender wrote for a number gives the number
/// back.
pub proof fn lemma_le_u32_round_trip(value: u32)
    ensures
        le_u32(le_bytes_u32(value)) == value,
{
}

/// The eight bytes a sender writes for `value`, lowest first.
pub open spec fn le_bytes_u64(value: u64) -> [u8; 8] {
    let low = le_bytes_u32((value % 0x1_0000_0000) as u32);
    let high = le_bytes_u32((value / 0x1_0000_0000) as u32);
    [low[0], low[1], low[2], low[3], high[0], high[1], high[2], high[3]]
}

/// Decoding the eight bytes a sender wrote for a number gives the number
/// back.
pub proof fn lemma_le_u64_round_trip(value: u64)
    ensures
        le_u64(le_bytes_u64(value)) == value,
{
    lemma_le_u32_round_trip((value % 0x1_0000_0000) as u32);
    lemma_le_u32_round_trip((value / 0x1_0000_0000) as u32);
}

/// The two bytes a sender writes for `value`, lowest first.
pub open spec fn le_bytes_u16(value: u16) -> [u8; 2] {
    [(value % 0x100) as u8, (value / 0x100) as u8]
}

/// Frames a variable-length field of a reply: its length as 16 bits,
/// lowest byte first, then the field itself. A field longer than 16 bits
/// can count is refused.
pub fn length_prefixed(field: &[u8]) -> (framed: Option<Vec<u8>>)
    ensures
        field@.len() <= 0xffff ==> (framed matches Some(bytes) && bytes@ == le_bytes_u16(
            field@.len() as u16,
        )@ + field@),
        field@.len() > 0xffff ==> framed is None,
{
    if field.len() > 0xffff {
        return None;
    }
    let length = field.len() as u16;
    let mut bytes: Vec<u8> = Vec::new();
    bytes.push((length % 0x100) as u8);
    bytes.push((length / 0x100) as u8);
    let ghost prefix = bytes@;
    assert(prefix =~= le_bytes_u16(length)@);
    let mut index: usize = 0;
    while index < field.len()
        invariant
            index <= field@.len(),
            bytes@ == prefix + field@.take(index as int),
        decreases field@.len() - index,
    {
        bytes.push(field[index]);
        index += 1;
        assert(bytes@ =~= prefix + field@.take(index as int));
    }
    assert(field@.take(field@.len() as int) =~= field@);
    Some(bytes)
}

/// The reply to a request to save the plugin's state: the save code, the
/// state's length as 64 bits, then the state, all lowest byte first.
pub fn state_reply(state: &[u8]) -> (reply: Vec<u8>)
    ensures
        reply@ == le_bytes_u32(SAVE_STATE)@ + le_bytes_u64(state@.len() as u64)@ + state@,
{
    let length = state.len() as u64;
    let mut reply: Vec<u8> = Vec::new();
    let code = SAVE_STATE;
    reply.push((code % 0x100) as u8);
    reply.push((code / 0x100 % 0x100) as u8);
    reply.push((code / 0x1_0000 % 0x100) as u8);
    reply.push((code / 0x100_0000 % 0x100) as u8);
    let low = (length % 0x1_0000_0000) as u32;
    let high = (length / 0x1_0000_0000) as u32;
    reply.push((low % 0x100) as u8);
    reply.push((low / 0x100 % 0x100) as u8);
    reply.push((low / 0x1_0000 % 0x100) as u8);
    reply.push((low / 0x100_0000 % 0x100) as u8);
    reply.push((high % 0x100) as u8);
    reply.push((high / 0x100 % 0x100) as u8);
    reply.push((high / 0x1_0000 % 0x100) as u8);
    reply.push((high / 0x100_0000 % 0x100) as u8);
    let ghost prefix = reply@;
    assert(prefix =~= le_bytes_u32(SAVE_STATE)@ + le_bytes_u64(length)@);
    let mut index: usize = 0;
    while index < state.len()
        invariant
            index <= state@.len(),
            reply@ == prefix + state@.take(index as int),
        decreases state@.len() - index,
    {
        reply.push(state[index]);
        index += 1;
        assert(reply@ =~= prefix + state@.take(index as int));
    }
    assert(state@.take(state@.len() as int) =~= state@);
    reply
}

/// The reply to a request to load the plugin's state: the load code,
/// lowest byte first.
pub fn load_reply() -> (reply: [u8; 4])
    ensures
        reply == le_bytes_u32(LOAD_STATE),
{
    [0xfe, 0xff, 0xff, 0xff]
}

/// Decodes four little-endian bytes.
pub fn u32_from_le(bytes: [u8; 4]) -> (value: u32)
    ensures
        value == le_u32(bytes),
{
    (bytes[0] as u32) + 0x100 * (bytes[1] as u32) + 0x1_0000 * (bytes[2] as u32) + 0x100_0000 * (
    bytes[3] as u32)
}

/// Decodes eight little-endian bytes.
pub fn u64_from_le(bytes: [u8; 8]) -> (value: u64)
    ensures
        value == le_u64(bytes),
{
    let low = u32_from_le([bytes[0], bytes[1], bytes[2], bytes[3]]) as u64;
    let high = u32_from_le([bytes[4], bytes[5], bytes[6], bytes[7]]) as u64;
    low + 0x1_0000_0000 * high
}

/// Whether a block limit given on the command line can be used.
pub fn valid_block_limit(frames: usize) -> (valid: bool)
    ensures
        valid == (1 <= frames <= MAX_BLOCK_FRAMES),
{
    1 <= frames && frames <= MAX_BLOCK_FRAMES
}

/// Whether the header a host sent is the one this worker speaks.
pub fn header_matches(header: &[u8; 8]) -> (matches: bool)
    ensures
        matches == (header@ == HEADER@),
{
    let expected = HEADER;
    let mut index: usize = 0;
    while index < 8
        invariant
            index <= 8,
            expected@ == HEADER@,
            forall|k: int| 0 <= k < index ==> header@[k] == expected@[k],
        decreases 8 - index,
    {
        if header[index] != expected[index] {
            assert(header@[index as int] != HEADER@[index as int]);
            return false;
        }
        index += 1;
    }
    assert(header@ =~= HEADER@);
    true
}

/// Checks the header a host opened with: `None` when the stream ended
/// before eight bytes arrived.
pub fn check_header(received: Option<[u8; 8]>) -> (result: Result<(), &'static str>)
    ensures
        received is None ==> result == Err::<(), &'static str>("Worker header is missing"),
        received matches Some(header) ==> (header@ == HEADER@ ==> result is Ok) && (header@
            != HEADER@ ==> result == Err::<(), &'static str>("Worker header is invalid")),
{
    match received {
        None => Err("Worker header is missing"),
        Some(header) => if header_matches(&header) {
            Ok(())
        } else {
            Err("Worker header is invalid")
        },
    }
}

/// What a file being written is named after, until it is complete:
/// ".partial".
pub const PARTIAL_SUFFIX: [u8; 8] = [46, 112, 97, 114, 116, 105, 97, 108];

/// The name a rendered file is written under until it is complete: its
/// final name followed by [`PARTIAL_SUFFIX`].
pub fn partial_name(name: &[u8]) -> (partial: Vec<u8>)
    ensures
        partial@ == name@ + PARTIAL_SUFFIX@,
{
    let mut partial: Vec<u8> = Vec::new();
    let mut index: usize = 0;
    while index < name.len()
        invariant
            index <= name@.len(),
            partial@ == name@.take(index as int),
        decreases name@.len() - index,
    {
        partial.push(name[index]);
        index += 1;
        assert(partial@ =~= name@.take(index as int));
    }
    let suffix = PARTIAL_SUFFIX;
    let mut at: usize = 0;
    while at < 8
        invariant
            at <= 8,
            suffix@ == PARTIAL_SUFFIX@,
            partial@ == name@ + suffix@.take(at as int),
        decreases 8 - at,
    {
        partial.push(suffix[at]);
        at += 1;
        assert(partial@ =~= name@ + suffix@.take(at as int));
    }
    assert(suffix@.take(8) =~= suffix@);
    partial
}

/// What a request asks of the worker.
#[derive(Clone, Copy, Debug, PartialEq, Eq)]
pub enum Request {
    /// End the session.
    Finish,
    /// Save the plugin's state and send it back.
    SaveState,
    /// Load a state that follows.
    LoadState,
    /// Process a block of this many frames.
    Process(usize),
}

/// The request a frame count stands for, given the worker's block limit.
pub open spec fn request_of(count: int, max_frames: int) -> Result<Request, &'static str> {
    if count == 0 {
        Ok(Request::Finish)
    } else if count == SAVE_STATE {
        Ok(Request::SaveState)
    } else if count == LOAD_STATE {
        Ok(Request::LoadState)
    } else if count > max_frames {
        Err("Audio block exceeds the configured limit")
    } else {
        Ok(Request::Process(count as usize))
    }
}

/// Decodes the frame count that opens a request.
pub fn decode_request(count: [u8; 4], max_frames: usize) -> (request: Result<Request, &'static str>)
    ensures
        request == request_of(le_u32(count), max_frames as int),
{
    let frames = u32_from_le(count);
    if frames == 0 {
        Ok(Request::Finish)
    } else if frames == SAVE_STATE {
        Ok(Request::SaveState)
    } else if frames == LOAD_STATE {
        Ok(Request::LoadState)
    } else if frames as usize > max_frames {
        Err("Audio block exceeds the configured limit")
    } else {
        Ok(Request::Process(frames as usize))
    }
}

/// Decodes the count of parameter events a block carries, refusing more
/// than `limit`.
pub fn decode_event_count(count: [u8; 4], limit: usize) -> (result: Result<usize, &'static str>)
    ensures
        le_u32(count) <= limit ==> result == Ok::<usize, &'static str>(le_u32(count) as usize),
        le_u32(count) > limit ==> result == Err::<usize, &'static str>(
            "Parameter event count exceeds the configured limit",
        ),
{
    let events = u32_from_le(count);
    if events as usize > limit {
        Err("Parameter event count exceeds the configured limit")
    } else {
        Ok(events as usize)
    }
}

/// Decodes the length of a state that is about to be loaded, refusing more
/// than `limit` bytes.
pub fn decode_state_length(length: [u8; 8], limit: usize) -> (result: Result<usize, &'static str>)
    ensures
        le_u64(length) <= limit ==> result == Ok::<usize, &'static str>(le_u64(length) as usize),
        le_u64(length) > limit ==> result == Err::<usize, &'static str>(
            "Plugin state exceeds the size limit",
        ),
{
    let bytes = u64_from_le(length);
    if bytes > limit as u64 {
        Err("Plugin state exceeds the size limit")
    } else {
        Ok(bytes as usize)
    }
}

/// Bytes of audio a block of `frames` stereo frames of 32-bit samples
/// carries.
pub fn block_bytes(frames: usize) -> (result: Result<usize, &'static str>)
    ensures
        frames * 8 <= usize::MAX ==> result == Ok::<usize, &'static str>((frames * 8) as usize),
        frames * 8 > usize::MAX ==> result == Err::<usize, &'static str>(
            "Audio block is too large",
        ),
{
    match frames.checked_mul(8) {
        Some(bytes) => Ok(bytes),
        None => Err("Audio block is too large"),
    }
}

} // verus!

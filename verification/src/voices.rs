//! Which voice of a polyphonic instrument a note goes to.
//!
//! A bank holds a fixed number of voices. A note already sounding at the
//! same pitch is restarted rather than doubled; otherwise a free voice is
//! used; only when every voice is busy does the bank take a sounding one,
//! which it chooses by loudness.
use vstd::prelude::*;

verus! {

/// Voices one bank can sound at once.
pub const MAX_VOICES: usize = 32;
/// Detuned oscillator copies one voice can render.
pub const MAX_UNISON: usize = 4;
/// Lowest note number.
pub const MIN_PITCH: u8 = 0;
/// Highest note number.
pub const MAX_PITCH: u8 = 127;

/// What the allocator needs to know of one voice.
#[derive(Clone, Copy, Debug, PartialEq, Eq)]
pub struct VoiceSlot {
    /// Whether the voice is sounding.
    pub active: bool,
    /// The note it sounds.
    pub pitch: u8,
}

/// Whether slot `index` is the first one sounding `pitch`.
pub open spec fn first_sounding(slots: Seq<VoiceSlot>, pitch: u8, index: int) -> bool {
    &&& 0 <= index < slots.len()
    &&& slots[index].active && slots[index].pitch == pitch
    &&& forall|k: int| 0 <= k < index ==> !(slots[k].active && slots[k].pitch == pitch)
}

/// Whether slot `index` is the first free one.
pub open spec fn first_free(slots: Seq<VoiceSlot>, index: int) -> bool {
    &&& 0 <= index < slots.len()
    &&& !slots[index].active
    &&& forall|k: int| 0 <= k < index ==> slots[k].active
}

/// The voice a note at `pitch` takes without interrupting another note:
/// the first voice already sounding that pitch, else the first free voice.
/// `None` means every voice is busy with another pitch.
pub fn reusable_voice(slots: &[VoiceSlot], pitch: u8) -> (index: Option<usize>)
    ensures
        (exists|k: int| 0 <= k < slots@.len() && slots@[k].active && slots@[k].pitch == pitch)
            ==> (index matches Some(i) && first_sounding(slots@, pitch, i as int)),
        !(exists|k: int| 0 <= k < slots@.len() && slots@[k].active && slots@[k].pitch == pitch)
            && (exists|k: int| 0 <= k < slots@.len() && !slots@[k].active) ==> (index matches Some(
            i,
        ) && first_free(slots@, i as int)),
        (forall|k: int| 0 <= k < slots@.len() ==> slots@[k].active && slots@[k].pitch != pitch)
            ==> index is None,
{
    let mut index: usize = 0;
    while index < slots.len()
        invariant
            index <= slots@.len(),
            forall|k: int| 0 <= k < index ==> !(slots@[k].active && slots@[k].pitch == pitch),
        decreases slots@.len() - index,
    {
        if slots[index].active && slots[index].pitch == pitch {
            return Some(index);
        }
        index += 1;
    }
    let mut free: usize = 0;
    while free < slots.len()
        invariant
            free <= slots@.len(),
            forall|k: int| 0 <= k < slots@.len() ==> !(slots@[k].active && slots@[k].pitch == pitch),
            forall|k: int| 0 <= k < free ==> slots@[k].active,
        decreases slots@.len() - free,
    {
        if !slots[free].active {
            return Some(free);
        }
        free += 1;
    }
    None
}

/// Voices a bank may sound when asked for `voices`: at least one, at most
/// [`MAX_VOICES`].
pub fn clamp_polyphony(voices: usize) -> (allowed: usize)
    ensures
        1 <= allowed <= MAX_VOICES,
        1 <= voices <= MAX_VOICES ==> allowed == voices,
        voices == 0 ==> allowed == 1,
        voices > MAX_VOICES ==> allowed == MAX_VOICES,
{
    if voices < 1 {
        1
    } else if voices > MAX_VOICES {
        MAX_VOICES
    } else {
        voices
    }
}

/// Number of sounding voices among `slots`.
pub open spec fn sounding(slots: Seq<VoiceSlot>) -> nat
    decreases slots.len(),
{
    if slots.len() == 0 {
        0
    } else {
        sounding(slots.drop_last()) + (if slots.last().active {
            1nat
        } else {
            0nat
        })
    }
}

/// Counts the sounding voices.
pub fn active_voices(slots: &[VoiceSlot]) -> (count: usize)
    ensures
        count == sounding(slots@),
{
    let mut count: usize = 0;
    let mut index: usize = 0;
    while index < slots.len()
        invariant
            index <= slots@.len(),
            count == sounding(slots@.take(index as int)),
            count <= index,
        decreases slots@.len() - index,
    {
        assert(slots@.take(index as int + 1).drop_last() =~= slots@.take(index as int));
        if slots[index].active {
            count += 1;
        }
        index += 1;
    }
    assert(slots@.take(slots@.len() as int) =~= slots@);
    count
}

/// The note number a request for `pitch` plays: clamped to the valid range.
pub fn clamp_pitch(pitch: u8) -> (clamped: u8)
    ensures
        clamped == (if pitch > MAX_PITCH {
            MAX_PITCH
        } else {
            pitch
        }),
{
    if pitch > MAX_PITCH {
        MAX_PITCH
    } else {
        pitch
    }
}

/// Multiplier spreading note numbers across the noise seed.
pub const SEED_MULTIPLIER: u64 = 0x9e37_79b9_7f4a_7c15;

/// The seed a voice's noise source starts from for a note at `pitch`, the
/// `counter`-th note the bank started. It is never zero.
pub fn noise_seed(pitch: u8, counter: u64) -> (seed: u64)
    ensures
        seed == (if vstd::wrapping::u64_specs::wrapping_add(
            vstd::wrapping::u64_specs::wrapping_mul((pitch as u64 + 1) as u64, SEED_MULTIPLIER),
            counter,
        ) == 0 {
            1
        } else {
            vstd::wrapping::u64_specs::wrapping_add(
                vstd::wrapping::u64_specs::wrapping_mul((pitch as u64 + 1) as u64, SEED_MULTIPLIER),
                counter,
            )
        }),
        seed != 0,
{
    let mixed = (pitch as u64 + 1).wrapping_mul(SEED_MULTIPLIER).wrapping_add(counter);
    if mixed == 0 {
        1
    } else {
        mixed
    }
}

} // verus!

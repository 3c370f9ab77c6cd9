//! Delay line over caller-owned storage.
//!
//! The buffer belongs to the caller, which allocates it on the control
//! thread; the line itself only holds a write position. The line works on
//! any copyable sample type, so the same cursor serves a mono line, a
//! stereo line, or a line of frames.
use vstd::prelude::*;

verus! {

/// Write cursor into a caller-owned buffer.
#[derive(Clone, Copy, Debug, Default)]
pub struct DelayLine {
    write: usize,
}

/// The position after one write at `position` into a buffer of `length`.
pub open spec fn next_position(position: int, length: int) -> int {
    if position + 1 == length {
        0
    } else {
        position + 1
    }
}

/// The index a read `delay` samples back lands on, with the write cursor at
/// `position` in a buffer of `length` samples. A delay beyond the buffer is
/// clamped to `length - 1`.
pub open spec fn read_position(position: int, length: int, delay: int) -> int {
    let clamped = if delay < length - 1 {
        delay
    } else {
        length - 1
    };
    (position + length - 1 - clamped) % length
}

impl DelayLine {
    /// A line positioned at the start of its buffer.
    pub fn new() -> (line: Self)
        ensures
            line.position_spec() == 0,
    {
        Self { write: 0 }
    }

    /// Position the next write will use.
    pub closed spec fn position_spec(&self) -> usize {
        self.write
    }

    /// Position the next write will use.
    #[verifier::when_used_as_spec(position_spec)]
    pub fn position(&self) -> (position: usize)
        ensures
            position == self.position_spec(),
    {
        self.write
    }

    /// Fills the buffer with `silence` and returns to the start.
    pub fn reset<T: Copy>(&mut self, buffer: &mut [T], silence: T)
        ensures
            final(self).position() == 0,
            final(buffer)@.len() == old(buffer)@.len(),
            forall|k: int| 0 <= k < final(buffer)@.len() ==> final(buffer)@[k] == silence,
    {
        self.write = 0;
        let mut index: usize = 0;
        while index < buffer.len()
            invariant
                index <= buffer@.len(),
                buffer@.len() == old(buffer)@.len(),
                forall|k: int| 0 <= k < index ==> buffer@[k] == silence,
            decreases buffer@.len() - index,
        {
            buffer[index] = silence;
            index += 1;
        }
    }

    /// Writes one sample and advances, wrapping at the end of the buffer.
    /// An empty buffer takes nothing.
    pub fn write<T: Copy>(&mut self, buffer: &mut [T], sample: T)
        requires
            old(buffer)@.len() > 0 ==> old(self).position() < old(buffer)@.len(),
        ensures
            old(buffer)@.len() == 0 ==> final(self).position() == old(self).position()
                && final(buffer)@ == old(buffer)@,
            old(buffer)@.len() > 0 ==> {
                &&& final(buffer)@ == old(buffer)@.update(old(self).position() as int, sample)
                &&& final(self).position() == next_position(
                    old(self).position() as int,
                    old(buffer)@.len() as int,
                )
            },
    {
        if buffer.len() == 0 {
            return;
        }
        buffer[self.write] = sample;
        self.write = self.write + 1;
        if self.write == buffer.len() {
            self.write = 0;
        }
    }

    /// Index a read `delay` samples back lands on, for a buffer of `length`.
    pub fn read_index(&self, length: usize, delay: usize) -> (index: usize)
        requires
            0 < length,
            self.position() + length <= usize::MAX,
        ensures
            index == read_position(self.position() as int, length as int, delay as int),
            index < length,
    {
        let clamped = if delay < length - 1 {
            delay
        } else {
            length - 1
        };
        // The cursor points one past the newest sample.
        (self.write + (length - 1 - clamped)) % length
    }

    /// Reads the sample written `delay` samples ago. A delay of zero returns
    /// the most recent write; delays beyond the buffer are clamped to its
    /// length. An empty buffer reads as `silence`.
    pub fn read<T: Copy>(&self, buffer: &[T], delay: usize, silence: T) -> (sample: T)
        requires
            self.position() + buffer@.len() <= usize::MAX,
        ensures
            buffer@.len() == 0 ==> sample == silence,
            buffer@.len() > 0 ==> sample == buffer@[read_position(
                self.position() as int,
                buffer@.len() as int,
                delay as int,
            )],
    {
        if buffer.len() == 0 {
            return silence;
        }
        buffer[self.read_index(buffer.len(), delay)]
    }
}

/// A read with no delay after a write gives back the sample just written,
/// and a read `delay` samples back after a write gives what a read
/// `delay - 1` back gave before it.
pub proof fn lemma_read_after_write(position: int, length: int, delay: int)
    requires
        0 <= position < length,
        0 <= delay,
    ensures
        read_position(next_position(position, length), length, 0) == position,
        0 < delay < length ==> read_position(next_position(position, length), length, delay)
            == read_position(position, length, delay - 1),
{
    let next = next_position(position, length);
    if position + 1 == length {
        assert(read_position(next, length, 0) == position) by {
            vstd::arithmetic::div_mod::lemma_small_mod(position as nat, length as nat);
        }
    } else {
        assert(read_position(next, length, 0) == position) by {
            vstd::arithmetic::div_mod::lemma_fundamental_div_mod_converse(
                position + length,
                length,
                1,
                position,
            );
        }
    }
    if 0 < delay < length {
        let clamped = if delay < length - 1 {
            delay
        } else {
            length - 1
        };
        let earlier = if delay - 1 < length - 1 {
            delay - 1
        } else {
            length - 1
        };
        assert(earlier == delay - 1);
        assert(clamped == delay);
        assert(next + length - 1 - clamped == position + length - 1 - earlier || next + length
            - 1 - clamped == position + length - 1 - earlier - length);
        if next + length - 1 - clamped == position + length - 1 - earlier - length {
            vstd::arithmetic::div_mod::lemma_mod_sub_multiples_vanish(
                position + length - 1 - earlier,
                length,
            );
        }
    }
}

/// Every read lands inside the buffer, however long the delay asked for.
pub proof fn lemma_reads_stay_in_the_buffer(position: int, length: int, delay: int)
    requires
        0 <= position < length,
        0 <= delay,
    ensures
        0 <= read_position(position, length, delay) < length,
        delay >= length - 1 ==> read_position(position, length, delay) == read_position(
            position,
            length,
            length - 1,
        ),
{
    vstd::arithmetic::div_mod::lemma_mod_bound(position + length - 1 - (if delay < length - 1 {
        delay
    } else {
        length - 1
    }), length);
}

} // verus!

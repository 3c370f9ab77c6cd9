//! The transport, and the limits a render block works within.
use vstd::prelude::*;

verus! {

/// Maximum supported callback size in frames.
pub const MAX_FRAMES: usize = 2048;
/// Maximum parameter changes per callback.
pub const MAX_EVENTS: usize = 256;

/// Why a block could not be rendered.
#[derive(Clone, Copy, Debug, PartialEq, Eq)]
pub enum RenderError {
    /// Input and output differ in length, or exceed [`MAX_FRAMES`].
    BufferSize,
    /// More than [`MAX_EVENTS`] events were given.
    EventCapacity,
    /// Event offsets went backwards.
    EventOrder,
    /// An event lies past the end of the block.
    EventOffset,
    /// A gain was negative or not finite.
    InvalidGain,
    /// The frame clock would overflow.
    ClockOverflow,
}

/// The first fault among a block's events, each an offset into a block of
/// `frames` frames and whether its gain is finite and not negative. Offsets
/// must not pass the end of the block nor go backwards; an event is checked
/// for its offset, then its order, then its gain.
pub open spec fn event_error(frames: nat, events: Seq<(usize, bool)>) -> Option<RenderError>
    decreases events.len(),
{
    if events.len() == 0 {
        None
    } else {
        match event_error(frames, events.drop_last()) {
            Some(error) => Some(error),
            None => {
                let previous: int = if events.len() == 1 {
                    0
                } else {
                    events[events.len() - 2].0 as int
                };
                if events.last().0 > frames {
                    Some(RenderError::EventOffset)
                } else if events.last().0 < previous {
                    Some(RenderError::EventOrder)
                } else if !events.last().1 {
                    Some(RenderError::InvalidGain)
                } else {
                    None
                }
            },
        }
    }
}

/// The fault, if any, that stops a block with `input` frames in, `output`
/// frames out and `events` from being rendered: the buffers first, then the
/// number of events, then each event in order.
pub open spec fn block_error(input: nat, output: nat, events: Seq<(usize, bool)>) -> Option<
    RenderError,
> {
    if input != output || input > MAX_FRAMES {
        Some(RenderError::BufferSize)
    } else if events.len() > MAX_EVENTS {
        Some(RenderError::EventCapacity)
    } else {
        event_error(input, events)
    }
}

/// Whether a block of `frames` frames can take `events`: every offset lies
/// within the block, no offset goes back from the one before it, and every
/// gain is usable.
pub open spec fn events_in_order(frames: nat, events: Seq<(usize, bool)>) -> bool {
    &&& forall|i: int| 0 <= i < events.len() ==> (#[trigger] events[i]).0 <= frames
    &&& forall|i: int| 0 <= i < events.len() ==> (#[trigger] events[i]).1
    &&& forall|i: int, j: int| 0 <= i <= j < events.len() ==> events[i].0 <= events[j].0
}

/// Events are accepted exactly when every offset lies in the block, the
/// offsets never decrease along the list, and every gain is usable; an
/// order fault names a place where an offset goes back from the one before
/// it, an offset fault one past the block, a gain fault an unusable gain.
pub proof fn lemma_event_order(frames: nat, events: Seq<(usize, bool)>)
    ensures
        event_error(frames, events) is None <==> events_in_order(frames, events),
        event_error(frames, events) == Some(RenderError::EventOrder) ==> exists|i: int|
            0 < i < events.len() && (#[trigger] events[i]).0 < events[i - 1].0,
        event_error(frames, events) == Some(RenderError::EventOffset) ==> exists|i: int|
            0 <= i < events.len() && (#[trigger] events[i]).0 > frames,
        event_error(frames, events) == Some(RenderError::InvalidGain) ==> exists|i: int|
            0 <= i < events.len() && !(#[trigger] events[i]).1,
        event_error(frames, events) is Some ==> event_error(frames, events) == Some(
            RenderError::EventOrder,
        ) || event_error(frames, events) == Some(RenderError::EventOffset) || event_error(
            frames,
            events,
        ) == Some(RenderError::InvalidGain),
    decreases events.len(),
{
    if events.len() > 0 {
        let front = events.drop_last();
        let n = events.len() as int;
        lemma_event_order(frames, front);
        assert forall|i: int| 0 <= i < front.len() implies front[i] == events[i] by {}
        if event_error(frames, front) is Some {
            if event_error(frames, front) == Some(RenderError::EventOrder) {
                let i = choose|i: int| 0 < i < front.len() && (#[trigger] front[i]).0 < front[i - 1].0;
                assert(events[i].0 < events[i - 1].0);
            }
            if event_error(frames, front) == Some(RenderError::EventOffset) {
                let i = choose|i: int| 0 <= i < front.len() && (#[trigger] front[i]).0 > frames;
                assert(events[i].0 > frames);
            }
            if event_error(frames, front) == Some(RenderError::InvalidGain) {
                let i = choose|i: int| 0 <= i < front.len() && !(#[trigger] front[i]).1;
                assert(!events[i].1);
            }
            assert(!events_in_order(frames, front));
            if events_in_order(frames, events) {
                assert(events_in_order(frames, front));
            }
        } else {
            if events_in_order(frames, events) {
                if n >= 2 {
                    assert(events[n - 2].0 <= events[n - 1].0);
                }
                assert(events[n - 1].0 <= frames);
                assert(events[n - 1].1);
            }
            if event_error(frames, events) is None {
                assert forall|i: int, j: int| 0 <= i <= j < events.len() implies events[i].0
                    <= events[j].0 by {
                    if j == n - 1 && i < j {
                        assert(front[i].0 <= front[n - 2].0);
                    }
                }
            }
            if event_error(frames, events) == Some(RenderError::EventOrder) {
                assert(events[n - 1].0 < events[n - 2].0);
            }
        }
    }
}

/// Checks a block and its gain events before anything is rendered.
pub fn check_block(input: usize, output: usize, events: &[(usize, bool)]) -> (result: Result<
    (),
    RenderError,
>)
    ensures
        result is Ok <==> block_error(input as nat, output as nat, events@) is None,
        result matches Err(error) ==> block_error(input as nat, output as nat, events@) == Some(
            error,
        ),
        result is Ok <==> input == output && input <= MAX_FRAMES && events@.len() <= MAX_EVENTS
            && events_in_order(input as nat, events@),
        result == Err::<(), RenderError>(RenderError::EventOrder) ==> exists|i: int|
            0 < i < events@.len() && (#[trigger] events@[i]).0 < events@[i - 1].0,
{
    proof {
        lemma_event_order(input as nat, events@);
    }
    if input != output || input > MAX_FRAMES {
        return Err(RenderError::BufferSize);
    }
    if events.len() > MAX_EVENTS {
        return Err(RenderError::EventCapacity);
    }
    let mut previous: usize = 0;
    let mut index: usize = 0;
    while index < events.len()
        invariant
            index <= events@.len() <= MAX_EVENTS,
            input == output,
            input <= MAX_FRAMES,
            event_error(input as nat, events@.take(index as int)) is None,
            previous == (if index == 0 {
                0
            } else {
                events@[index - 1].0
            }),
        decreases events@.len() - index,
    {
        let ghost after = events@.take(index as int + 1);
        assert(after.drop_last() =~= events@.take(index as int));
        let (offset, gain_valid) = events[index];
        if offset > input {
            proof {
                lemma_event_error_persists(input as nat, events@, index as int + 1);
            }
            return Err(RenderError::EventOffset);
        }
        if offset < previous {
            proof {
                lemma_event_error_persists(input as nat, events@, index as int + 1);
            }
            return Err(RenderError::EventOrder);
        }
        if !gain_valid {
            proof {
                lemma_event_error_persists(input as nat, events@, index as int + 1);
            }
            return Err(RenderError::InvalidGain);
        }
        previous = offset;
        index += 1;
    }
    assert(events@.take(events@.len() as int) =~= events@);
    Ok(())
}

/// Once a prefix of the events holds a fault, the whole list reports that
/// fault.
proof fn lemma_event_error_persists(frames: nat, events: Seq<(usize, bool)>, prefix: int)
    requires
        0 <= prefix <= events.len(),
        event_error(frames, events.take(prefix)) is Some,
    ensures
        event_error(frames, events) == event_error(frames, events.take(prefix)),
    decreases events.len() - prefix,
{
    if prefix < events.len() {
        assert(events.take(prefix + 1).drop_last() =~= events.take(prefix));
        lemma_event_error_persists(frames, events, prefix + 1);
    } else {
        assert(events.take(prefix) =~= events);
    }
}

/// The playhead: where playback is, in frames, and whether it moves.
#[derive(Clone, Copy, Debug, PartialEq, Eq)]
pub struct Transport {
    position: u64,
    playing: bool,
}

/// The observable state of a transport.
pub ghost struct TransportState {
    /// Frame the playhead is on.
    pub position: u64,
    /// Whether the playhead moves as blocks are rendered.
    pub playing: bool,
}

impl View for Transport {
    type V = TransportState;

    closed spec fn view(&self) -> TransportState {
        TransportState { position: self.position, playing: self.playing }
    }
}

/// Where the playhead of `state` is after a block of `frames` frames, or
/// `None` when the frame clock would overflow. A stopped playhead stays.
pub open spec fn position_after(state: TransportState, frames: nat) -> Option<u64> {
    if !state.playing {
        Some(state.position)
    } else if state.position + frames <= u64::MAX {
        Some((state.position + frames) as u64)
    } else {
        None
    }
}

/// A call that changes a transport without rendering.
pub ghost enum TransportCall {
    /// [`Transport::play`].
    Play,
    /// [`Transport::stop`].
    Stop,
    /// [`Transport::locate`] to a frame.
    Locate(u64),
}

/// The state a transport in `state` is in after `call`.
pub open spec fn after_call(state: TransportState, call: TransportCall) -> TransportState {
    match call {
        TransportCall::Play => TransportState { playing: true, ..state },
        TransportCall::Stop => TransportState { playing: false, ..state },
        TransportCall::Locate(frame) => TransportState { position: frame, ..state },
    }
}

/// The state a transport in `state` is in after `calls`, in order.
pub open spec fn after_calls(state: TransportState, calls: Seq<TransportCall>) -> TransportState
    decreases calls.len(),
{
    if calls.len() == 0 {
        state
    } else {
        after_call(after_calls(state, calls.drop_last()), calls.last())
    }
}

/// The frame the last locate among `calls` went to, or `otherwise` when
/// there is none.
pub open spec fn last_located(calls: Seq<TransportCall>, otherwise: u64) -> u64
    decreases calls.len(),
{
    if calls.len() == 0 {
        otherwise
    } else {
        match calls.last() {
            TransportCall::Locate(frame) => frame,
            _ => last_located(calls.drop_last(), otherwise),
        }
    }
}

/// Whether the last play or stop among `calls` was a play, or `otherwise`
/// when there is neither.
pub open spec fn last_started(calls: Seq<TransportCall>, otherwise: bool) -> bool
    decreases calls.len(),
{
    if calls.len() == 0 {
        otherwise
    } else {
        match calls.last() {
            TransportCall::Play => true,
            TransportCall::Stop => false,
            TransportCall::Locate(_) => last_started(calls.drop_last(), otherwise),
        }
    }
}

/// After any sequence of plays, stops and locates, the playhead is where
/// the last locate put it (where it was, when there was none), and it plays
/// exactly when the last play or stop was a play (as it did, when there was
/// neither): playing and stopping never move it, and locating never starts
/// or stops it. A new transport starts at zero, stopped.
pub proof fn lemma_transport_calls(state: TransportState, calls: Seq<TransportCall>)
    ensures
        after_calls(state, calls).position == last_located(calls, state.position),
        after_calls(state, calls).playing == last_started(calls, state.playing),
    decreases calls.len(),
{
    if calls.len() > 0 {
        lemma_transport_calls(state, calls.drop_last());
    }
}

impl Default for Transport {
    fn default() -> (transport: Self)
        ensures
            transport@ == (TransportState { position: 0, playing: false }),
    {
        Self::new()
    }
}

impl Transport {
    /// A stopped transport at the start.
    pub fn new() -> (transport: Self)
        ensures
            transport@ == (TransportState { position: 0, playing: false }),
    {
        Self { position: 0, playing: false }
    }

    /// Frame the playhead is on.
    pub fn position(&self) -> (position: u64)
        ensures
            position == self@.position,
    {
        self.position
    }

    /// Whether the playhead moves.
    pub fn is_playing(&self) -> (playing: bool)
        ensures
            playing == self@.playing,
    {
        self.playing
    }

    /// Starts the playhead where it is.
    pub fn play(&mut self)
        ensures
            final(self)@ == after_call(old(self)@, TransportCall::Play),
    {
        self.playing = true;
    }

    /// Stops the playhead where it is.
    pub fn stop(&mut self)
        ensures
            final(self)@ == after_call(old(self)@, TransportCall::Stop),
    {
        self.playing = false;
    }

    /// Moves the playhead to `frame`, playing or not.
    pub fn locate(&mut self, frame: u64)
        ensures
            final(self)@ == after_call(old(self)@, TransportCall::Locate(frame)),
    {
        self.position = frame;
    }

    /// Moves a playing playhead past a block of `frames` frames. A stopped
    /// one stays; one whose clock would overflow stays too and reports it.
    pub fn advance(&mut self, frames: usize) -> (result: Result<(), RenderError>)
        ensures
            position_after(old(self)@, frames as nat) matches Some(position) ==> result == Ok::<
                (),
                RenderError,
            >(()) && final(self)@ == (TransportState { position, ..old(self)@ }),
            position_after(old(self)@, frames as nat) is None ==> result == Err::<
                (),
                RenderError,
            >(RenderError::ClockOverflow) && final(self)@ == old(self)@,
    {
        if !self.playing {
            return Ok(());
        }
        match self.position.checked_add(frames as u64) {
            Some(position) => {
                self.position = position;
                Ok(())
            },
            None => Err(RenderError::ClockOverflow),
        }
    }
}

} // verus!

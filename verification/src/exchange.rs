//! Bounded state publication with deferred reclamation.
//!
//! The control thread publishes a new value through a [`ControlSlot`]; the
//! audio thread swaps it in at a block boundary through its [`AudioSlot`]
//! and hands the value it replaced back for the control thread to drop.
//! Each direction holds at most one value in flight, so publication never
//! allocates on the audio thread and never clones a payload. The control
//! thread reports each value it reclaims, and until that report arrives the
//! audio thread defers the next swap, so a replaced value always has room
//! to go back.
use std::sync::mpsc::{Receiver, SyncSender, TrySendError, sync_channel};
use vstd::prelude::*;

verus! {

#[verifier::external_type_specification]
#[verifier::external_body]
#[verifier::reject_recursive_types(T)]
pub struct ExSyncSender<T>(SyncSender<T>);

#[verifier::external_type_specification]
#[verifier::external_body]
#[verifier::reject_recursive_types(T)]
pub struct ExReceiver<T>(Receiver<T>);

/// A channel that holds at most one value in flight.
///
/// Calls `std::sync::mpsc::sync_channel` with a bound of one. Nothing is
/// claimed about the ends it returns.
#[verifier::external_body]
fn channel_of_one<T>() -> (ends: (SyncSender<T>, Receiver<T>)) {
    sync_channel(1)
}

/// Offers `value` to the channel without waiting.
///
/// Calls `SyncSender::try_send`. Its documentation says that a full or
/// disconnected channel hands the value back inside the error; this wrapper
/// returns exactly that value. Whether the channel had room depends on the
/// other thread, so nothing is claimed about which outcome occurs.
#[verifier::external_body]
fn offer<T>(sender: &SyncSender<T>, value: T) -> (result: Result<(), T>)
    ensures
        result matches Err(returned) ==> returned == value,
{
    match sender.try_send(value) {
        Ok(()) => Ok(()),
        Err(TrySendError::Full(returned)) => Err(returned),
        Err(TrySendError::Disconnected(returned)) => Err(returned),
    }
}

/// Takes a waiting value from the channel without waiting.
///
/// Calls `Receiver::try_recv`. Whether a value is waiting depends on the
/// other thread, so nothing is claimed about the result.
#[verifier::external_body]
fn take_waiting<T>(receiver: &Receiver<T>) -> (value: Option<T>) {
    receiver.try_recv().ok()
}

/// The sending end of a channel, with a record of what it was given.
#[verifier::reject_recursive_types(T)]
struct Outbox<T> {
    sender: SyncSender<T>,
    offered: Ghost<Seq<T>>,
    accepted: Ghost<Seq<T>>,
}

impl<T> Outbox<T> {
    /// Every value offered to the channel, in order.
    closed spec fn offered(&self) -> Seq<T> {
        self.offered@
    }

    /// The values the channel took, in order.
    closed spec fn accepted(&self) -> Seq<T> {
        self.accepted@
    }

    fn new(sender: SyncSender<T>) -> (outbox: Self)
        ensures
            outbox.offered() == Seq::<T>::empty(),
            outbox.accepted() == Seq::<T>::empty(),
    {
        Outbox { sender, offered: Ghost(Seq::empty()), accepted: Ghost(Seq::empty()) }
    }

    /// Offers `value` to the channel: it is taken, or comes back.
    fn send(&mut self, value: T) -> (result: Result<(), T>)
        ensures
            final(self).offered() == old(self).offered().push(value),
            result is Ok ==> final(self).accepted() == old(self).accepted().push(value),
            result matches Err(returned) ==> returned == value && final(self).accepted() == old(
                self,
            ).accepted(),
    {
        let ghost given = value;
        let result = offer(&self.sender, value);
        self.offered = Ghost(self.offered@.push(given));
        if result.is_ok() {
            self.accepted = Ghost(self.accepted@.push(given));
        }
        result
    }
}

/// The receiving end of a channel, with a record of what it was asked for
/// and what it gave.
#[verifier::reject_recursive_types(T)]
struct Inbox<T> {
    receiver: Receiver<T>,
    asks: Ghost<nat>,
    received: Ghost<Seq<T>>,
}

impl<T> Inbox<T> {
    /// How many times the channel was asked for a value.
    closed spec fn asks(&self) -> nat {
        self.asks@
    }

    /// The values the channel gave, in order.
    closed spec fn received(&self) -> Seq<T> {
        self.received@
    }

    fn new(receiver: Receiver<T>) -> (inbox: Self)
        ensures
            inbox.asks() == 0,
            inbox.received() == Seq::<T>::empty(),
    {
        Inbox { receiver, asks: Ghost(0), received: Ghost(Seq::empty()) }
    }

    /// Takes a waiting value, if there is one.
    fn take(&mut self) -> (value: Option<T>)
        ensures
            final(self).asks() == old(self).asks() + 1,
            value matches Some(v) ==> final(self).received() == old(self).received().push(v),
            value is None ==> final(self).received() == old(self).received(),
    {
        let value = take_waiting(&self.receiver);
        self.asks = Ghost(self.asks@ + 1);
        match value {
            Some(v) => {
                self.received = Ghost(self.received@.push(v));
                Some(v)
            },
            None => None,
        }
    }
}

/// The control thread's end: publishes new values and reclaims old ones.
#[verifier::reject_recursive_types(T)]
pub struct ControlSlot<T> {
    pending: Outbox<T>,
    retired: Inbox<T>,
    reclaimed: Outbox<()>,
}

/// What the control end has done with its channels.
pub ghost struct ControlState<T> {
    /// Every value offered for publication, in order.
    pub offered: Seq<T>,
    /// The values publication storage took, in order.
    pub published: Seq<T>,
    /// How many times the return storage was asked for a replaced value.
    pub asks: nat,
    /// The replaced values taken back, in order.
    pub reclaimed: Seq<T>,
    /// How many reclaims were reported to the audio end.
    pub reports: nat,
}

impl<T> View for ControlSlot<T> {
    type V = ControlState<T>;

    closed spec fn view(&self) -> ControlState<T> {
        ControlState {
            offered: self.pending.offered(),
            published: self.pending.accepted(),
            asks: self.retired.asks(),
            reclaimed: self.retired.received(),
            reports: self.reclaimed.offered().len(),
        }
    }
}

/// The audio thread's end: holds the current value.
///
/// Destroy this endpoint only after stopping the callback, on the control
/// thread.
#[verifier::reject_recursive_types(T)]
pub struct AudioSlot<T> {
    current: T,
    held: Option<T>,
    awaiting: bool,
    pending: Inbox<T>,
    retired: Outbox<T>,
    reclaimed: Inbox<()>,
}

/// What the audio end holds, and what it has done with its channels.
pub ghost struct AudioState<T> {
    /// The value in use.
    pub current: T,
    /// A replaced value the return storage refused, kept to be handed back
    /// before anything else.
    pub held: Option<T>,
    /// Whether a replaced value handed back has not yet been reported
    /// reclaimed, so that the return storage counts as occupied.
    pub awaiting: bool,
    /// How many times publication storage was asked for a value.
    pub publication_asks: nat,
    /// How many times the control end was asked for a report of a reclaim.
    pub report_asks: nat,
    /// The published values taken, in order.
    pub taken: Seq<T>,
    /// Every replaced value offered back, in order.
    pub handed: Seq<T>,
    /// The replaced values the return storage took, in order.
    pub returned: Seq<T>,
}

impl<T> View for AudioSlot<T> {
    type V = AudioState<T>;

    closed spec fn view(&self) -> AudioState<T> {
        AudioState {
            current: self.current,
            held: self.held,
            awaiting: self.awaiting,
            publication_asks: self.pending.asks(),
            report_asks: self.reclaimed.asks(),
            taken: self.pending.received(),
            handed: self.retired.offered(),
            returned: self.retired.accepted(),
        }
    }
}

/// The audio end in `state` after offering `value` back: the return
/// storage took it, or it is held.
pub open spec fn after_handing<T>(state: AudioState<T>, value: T, accepted: bool) -> AudioState<T> {
    AudioState {
        held: if accepted {
            None
        } else {
            Some(value)
        },
        awaiting: accepted,
        handed: state.handed.push(value),
        returned: if accepted {
            state.returned.push(value)
        } else {
            state.returned
        },
        ..state
    }
}

/// What one block boundary does to the audio end in `state`, given what the
/// channels answered: whether the control end has reported the last
/// replaced value reclaimed, the published value that was waiting, if it
/// was asked for, and whether the return storage took the value offered to
/// it. Returns the next state and whether a swap happened.
///
/// While the return storage counts as occupied the control end is asked
/// for a report, and without one nothing else changes. Otherwise a held
/// value is offered back first, and nothing else happens that boundary.
/// Otherwise publication storage is asked for a value; a waiting one
/// becomes current, and the value it replaces is offered back; if the
/// storage refuses it, it is held.
pub open spec fn apply_step<T>(
    state: AudioState<T>,
    reclaimed: bool,
    next: Option<T>,
    accepted: bool,
) -> (AudioState<T>, bool) {
    let asked = if state.awaiting {
        AudioState { report_asks: state.report_asks + 1, ..state }
    } else {
        state
    };
    if state.awaiting && !reclaimed {
        (asked, false)
    } else {
        let free = AudioState { awaiting: false, ..asked };
        match state.held {
            Some(value) => (after_handing(free, value, accepted), false),
            None => {
                let looked = AudioState { publication_asks: free.publication_asks + 1, ..free };
                match next {
                    None => (looked, false),
                    Some(value) => (
                        after_handing(
                            AudioState {
                                current: value,
                                taken: looked.taken.push(value),
                                ..looked
                            },
                            state.current,
                            accepted,
                        ),
                        true,
                    ),
                }
            },
        }
    }
}

/// Whether the return storage still counts as occupied, once the control
/// end was asked for a report: it stays occupied until one arrives.
pub fn still_awaiting(awaiting: bool, report: Option<()>) -> (occupied: bool)
    ensures
        occupied == (awaiting && report is None),
{
    awaiting && report.is_none()
}

/// Where the audio end stands once the return storage answered an offer:
/// the value it handed back, if any, is held, and a value it took awaits
/// reclamation.
pub fn after_offer<T>(answer: Result<(), T>) -> (state: (Option<T>, bool))
    ensures
        answer is Ok ==> state.0 is None && state.1,
        answer matches Err(value) ==> state.0 == Some(value) && !state.1,
{
    match answer {
        Ok(()) => (None, true),
        Err(value) => (Some(value), false),
    }
}

/// Creates the two ends around `initial`, which the audio end holds as its
/// current value. Storage is allocated here, before playback; published
/// values transfer ownership and are never cloned.
pub fn exchange<T>(initial: T) -> (slots: (ControlSlot<T>, AudioSlot<T>))
    ensures
        slots.0@ == (ControlState::<T> {
            offered: Seq::empty(),
            published: Seq::empty(),
            asks: 0,
            reclaimed: Seq::empty(),
            reports: 0,
        }),
        slots.1@ == (AudioState {
            current: initial,
            held: None,
            awaiting: false,
            publication_asks: 0,
            report_asks: 0,
            taken: Seq::empty(),
            handed: Seq::empty(),
            returned: Seq::empty(),
        }),
{
    let (pending_tx, pending_rx) = channel_of_one();
    let (retired_tx, retired_rx) = channel_of_one();
    let (reclaimed_tx, reclaimed_rx) = channel_of_one();
    (
        ControlSlot {
            pending: Outbox::new(pending_tx),
            retired: Inbox::new(retired_rx),
            reclaimed: Outbox::new(reclaimed_tx),
        },
        AudioSlot {
            current: initial,
            held: None,
            awaiting: false,
            pending: Inbox::new(pending_rx),
            retired: Outbox::new(retired_tx),
            reclaimed: Inbox::new(reclaimed_rx),
        },
    )
}

impl<T> ControlSlot<T> {
    /// Publishes `value`: publication storage takes it, or, when still
    /// occupied, the value comes back to the caller unchanged.
    pub fn publish(&mut self, value: T) -> (result: Result<(), T>)
        ensures
            final(self)@.offered == old(self)@.offered.push(value),
            result is Ok ==> final(self)@ == (ControlState {
                offered: old(self)@.offered.push(value),
                published: old(self)@.published.push(value),
                ..old(self)@
            }),
            result matches Err(returned) ==> returned == value && final(self)@ == (ControlState {
                offered: old(self)@.offered.push(value),
                ..old(self)@
            }),
    {
        self.pending.send(value)
    }

    /// Asks the return storage once for a value the audio thread has
    /// replaced. One that is waiting is taken back, so it can be dropped
    /// here rather than on the audio thread, and its reclaim is reported to
    /// the audio end, which frees the return storage for the next swap.
    pub fn reclaim(&mut self) -> (value: Option<T>)
        ensures
            value matches Some(v) ==> final(self)@ == (ControlState {
                asks: old(self)@.asks + 1,
                reclaimed: old(self)@.reclaimed.push(v),
                reports: old(self)@.reports + 1,
                ..old(self)@
            }),
            value is None ==> final(self)@ == (ControlState {
                asks: old(self)@.asks + 1,
                ..old(self)@
            }),
    {
        match self.retired.take() {
            Some(value) => {
                let _ = self.reclaimed.send(());
                Some(value)
            },
            None => None,
        }
    }
}

impl<T> AudioSlot<T> {
    /// The value in use.
    pub open spec fn current_spec(&self) -> T {
        self@.current
    }

    /// A replaced value the control thread has not been handed yet,
    /// because its return storage refused it.
    pub open spec fn held_back(&self) -> Option<T> {
        self@.held
    }

    /// Whether no replaced value is still waiting to go back to the control
    /// thread.
    pub open spec fn nothing_to_return(&self) -> bool {
        self.held_back() is None
    }

    /// The value in use.
    pub fn current(&self) -> (value: &T)
        ensures
            *value == self.current_spec(),
    {
        &self.current
    }

    /// The value in use, for changing in place.
    pub fn current_mut(&mut self) -> (value: &mut T)
        ensures
            *value == old(self)@.current,
            final(self)@ == (AudioState { current: *final(value), ..old(self)@ }),
    {
        &mut self.current
    }

    /// Swaps in a published value at a block boundary and returns whether a
    /// swap happened (see [`apply_step`]). Publication is deferred while
    /// the value replaced last has not been reclaimed. A replaced value is
    /// always offered back, and kept while refused: no payload is
    /// allocated, cloned or destroyed here.
    pub fn apply_pending(&mut self) -> (swapped: bool)
        ensures
            exists|reclaimed: bool, next: Option<T>, accepted: bool|
                #[trigger] apply_step(old(self)@, reclaimed, next, accepted) == (
                    final(self)@,
                    swapped,
                ),
    {
        let ghost start = self@;
        let ghost mut reclaimed = false;
        if self.awaiting {
            let report = self.reclaimed.take();
            proof {
                reclaimed = report is Some;
            }
            let occupied = still_awaiting(self.awaiting, report);
            if occupied {
                assert(apply_step(start, reclaimed, None, false) == (self@, false));
                return false;
            }
            self.awaiting = false;
        }
        let held = self.held.take();
        match held {
            Some(value) => {
                let ghost handed = value;
                let answer = self.retired.send(value);
                let ghost accepted = answer is Ok;
                let (back, awaiting) = after_offer(answer);
                self.held = back;
                self.awaiting = awaiting;
                assert(start.held == Some(handed));
                assert(apply_step(start, reclaimed, None, accepted) == (self@, false));
                return false;
            },
            None => {},
        }
        let next = match self.pending.take() {
            Some(next) => next,
            None => {
                assert(apply_step(start, reclaimed, None, false) == (self@, false));
                return false;
            },
        };
        let ghost taken = next;
        let mut previous = next;
        std::mem::swap(&mut self.current, &mut previous);
        let answer = self.retired.send(previous);
        let ghost accepted = answer is Ok;
        let (back, awaiting) = after_offer(answer);
        self.held = back;
        self.awaiting = awaiting;
        assert(apply_step(start, reclaimed, Some(taken), accepted) == (self@, true));
        true
    }
}

} // verus!

//! Note events placed on a block, and the bookkeeping that keeps them in
//! order.
//!
//! A clip stores notes in beats; a block needs to know at which frame each
//! note starts and ends. The events for one block are collected into a
//! caller-supplied buffer, counted, and then put in ascending offset order
//! without disturbing the order of events that share an offset. Nothing
//! here allocates.
use vstd::prelude::*;

verus! {

/// Note events one block can carry. A block asking for more than this loses
/// the rest, which is reported so a caller can notice.
pub const MAX_NOTE_EVENTS: usize = 256;

/// What a scheduled event asks the instrument to do.
#[derive(Clone, Copy, Debug, PartialEq, Eq)]
pub enum NoteAction {
    /// Start the note.
    On,
    /// Release it.
    Off,
}

/// A note event placed on a block.
#[derive(Clone, Copy, Debug, PartialEq, Eq)]
pub struct NoteEvent {
    /// Frame within the block the event lands on.
    pub offset: usize,
    /// Note number.
    pub pitch: u8,
    /// Velocity, meaningful for a note starting.
    pub velocity: u8,
    /// What to do.
    pub action: NoteAction,
}

/// Result of scheduling one block.
#[derive(Clone, Copy, Debug, PartialEq, Eq, Default)]
pub struct Scheduled {
    /// Events written to the buffer, in ascending offset order.
    pub count: usize,
    /// Events that did not fit. Nonzero means notes were lost.
    pub dropped: usize,
}

/// Records `event` in the next free slot of `events`, or counts it as
/// dropped when the buffer is full.
pub fn push_note_event(event: NoteEvent, events: &mut [NoteEvent], result: &mut Scheduled)
    requires
        old(result).count >= old(events)@.len() ==> old(result).dropped < usize::MAX,
    ensures
        final(events)@.len() == old(events)@.len(),
        old(result).count < old(events)@.len() ==> {
            &&& final(events)@ == old(events)@.update(old(result).count as int, event)
            &&& *final(result) == Scheduled { count: (old(result).count + 1) as usize, ..*old(result) }
        },
        old(result).count >= old(events)@.len() ==> {
            &&& final(events)@ == old(events)@
            &&& *final(result) == Scheduled {
                dropped: (old(result).dropped + 1) as usize,
                ..*old(result)
            }
        },
{
    if result.count < events.len() {
        events[result.count] = event;
        result.count = result.count + 1;
    } else {
        result.dropped = result.dropped + 1;
    }
}

/// Where a stable insertion places `event` in `sorted`: after the last
/// element whose offset is not greater than the event's, counting from the
/// end.
pub open spec fn insertion_point(sorted: Seq<NoteEvent>, event: NoteEvent) -> int
    decreases sorted.len(),
{
    if sorted.len() == 0 {
        0
    } else if sorted.last().offset > event.offset {
        insertion_point(sorted.drop_last(), event)
    } else {
        sorted.len() as int
    }
}

/// `sorted` with `event` inserted at its insertion point.
pub open spec fn insert_event(sorted: Seq<NoteEvent>, event: NoteEvent) -> Seq<NoteEvent> {
    let point = insertion_point(sorted, event);
    sorted.take(point).push(event) + sorted.skip(point)
}

/// The events of `events` in ascending offset order, events with equal
/// offsets keeping the order they had.
pub open spec fn sorted_events(events: Seq<NoteEvent>) -> Seq<NoteEvent>
    decreases events.len(),
{
    if events.len() == 0 {
        events
    } else {
        insert_event(sorted_events(events.drop_last()), events.last())
    }
}

/// Whether offsets never decrease along `events`.
pub open spec fn is_ordered(events: Seq<NoteEvent>) -> bool {
    forall|i: int, j: int| 0 <= i < j < events.len() ==> events[i].offset <= events[j].offset
}

/// The events of `events` that land on frame `offset`, in order.
pub open spec fn at_offset(events: Seq<NoteEvent>, offset: usize) -> Seq<NoteEvent> {
    events.filter(lands_on(offset))
}

/// Whether an event lands on frame `offset`.
pub open spec fn lands_on(offset: usize) -> spec_fn(NoteEvent) -> bool {
    |event: NoteEvent| event.offset == offset
}

proof fn lemma_insertion_point_bounds(sorted: Seq<NoteEvent>, event: NoteEvent)
    ensures
        0 <= insertion_point(sorted, event) <= sorted.len(),
        forall|k: int|
            insertion_point(sorted, event) <= k < sorted.len() ==> sorted[k].offset > event.offset,
        insertion_point(sorted, event) > 0 ==> sorted[insertion_point(sorted, event) - 1].offset
            <= event.offset,
    decreases sorted.len(),
{
    if sorted.len() > 0 && sorted.last().offset > event.offset {
        let rest = sorted.drop_last();
        lemma_insertion_point_bounds(rest, event);
        assert forall|k: int|
            insertion_point(sorted, event) <= k < sorted.len() implies sorted[k].offset
            > event.offset by {
            if k < sorted.len() - 1 {
                assert(rest[k] == sorted[k]);
            }
        }
        if insertion_point(sorted, event) > 0 {
            assert(rest[insertion_point(sorted, event) - 1] == sorted[insertion_point(sorted, event)
                - 1]);
        }
    }
}

/// Appending elements that all land after `event` does not move its
/// insertion point.
proof fn lemma_insertion_point_skips_later(
    front: Seq<NoteEvent>,
    back: Seq<NoteEvent>,
    event: NoteEvent,
)
    requires
        forall|k: int| 0 <= k < back.len() ==> back[k].offset > event.offset,
    ensures
        insertion_point(front + back, event) == insertion_point(front, event),
    decreases back.len(),
{
    if back.len() > 0 {
        assert((front + back).drop_last() =~= front + back.drop_last());
        lemma_insertion_point_skips_later(front, back.drop_last(), event);
    } else {
        assert(front + back =~= front);
    }
}

/// Puts `events` in ascending offset order. Events with equal offsets keep
/// the order they were generated in: a short note keeps its start before its
/// end, and a loop edge keeps the preceding cycle's end before the next
/// cycle's start.
pub fn sort_note_events(events: &mut [NoteEvent])
    ensures
        final(events)@ == sorted_events(old(events)@),
{
    let ghost original = events@;
    let length = events.len();
    if length == 0 {
        return;
    }
    let mut index: usize = 1;
    assert(original.take(1).drop_last() =~= Seq::<NoteEvent>::empty());
    assert(events@.take(1) =~= sorted_events(original.take(1))) by {
        let empty = Seq::<NoteEvent>::empty();
        assert(sorted_events(empty) == empty);
        assert(insertion_point(empty, original[0]) == 0);
        assert(insert_event(empty, original[0]) =~= seq![original[0]]);
        assert(original.take(1).last() == original[0]);
    }
    while index < length
        invariant
            1 <= index <= length,
            length == events@.len(),
            length == original.len(),
            events@.take(index as int) == sorted_events(original.take(index as int)),
            events@.skip(index as int) == original.skip(index as int),
        decreases length - index,
    {
        let ghost prefix = events@.take(index as int);
        let ghost moving = original[index as int];
        assert(events@[index as int] == moving) by {
            assert(events@.skip(index as int)[0] == original.skip(index as int)[0]);
        }
        assert(events@.skip(index as int + 1) =~= original.skip(index as int + 1)) by {
            assert(events@.skip(index as int + 1) =~= events@.skip(index as int).skip(1));
            assert(original.skip(index as int + 1) =~= original.skip(index as int).skip(1));
        }
        assert(events@.subrange(index as int + 1, index as int + 1) =~= prefix.skip(index as int));
        let mut position: usize = index;
        while position > 0 && events[position - 1].offset > events[position].offset
            invariant
                position <= index,
                index < length,
                prefix.len() == index,
                length == events@.len(),
                events@[position as int] == moving,
                events@.take(position as int) == prefix.take(position as int),
                events@.subrange(position as int + 1, index as int + 1) == prefix.skip(
                    position as int,
                ),
                events@.skip(index as int + 1) == original.skip(index as int + 1),
                forall|k: int| position <= k < index ==> prefix[k].offset > moving.offset,
            decreases position,
        {
            let ghost before = events@;
            let earlier = events[position - 1];
            let later = events[position];
            events[position - 1] = later;
            events[position] = earlier;
            assert(events@.take(position as int - 1) =~= prefix.take(position as int - 1)) by {
                assert(before.take(position as int - 1) =~= prefix.take(position as int - 1)) by {
                    assert(before.take(position as int).take(position as int - 1)
                        =~= before.take(position as int - 1));
                    assert(prefix.take(position as int).take(position as int - 1)
                        =~= prefix.take(position as int - 1));
                }
            }
            assert(before[position as int - 1] == prefix[position as int - 1]) by {
                assert(before.take(position as int)[position as int - 1] == before[position as int
                    - 1]);
                assert(prefix.take(position as int)[position as int - 1] == prefix[position as int
                    - 1]);
            }
            assert forall|k: int| 0 <= k < index + 1 - position implies #[trigger] events@.subrange(
                position as int,
                index as int + 1,
            )[k] == prefix.skip(position as int - 1)[k] by {
                if k > 0 {
                    assert(before.subrange(position as int + 1, index as int + 1)[k - 1] == prefix.skip(
                        position as int,
                    )[k - 1]);
                }
            }
            assert(events@.subrange(position as int, index as int + 1) =~= prefix.skip(
                position as int - 1,
            ));
            assert(events@.skip(index as int + 1) =~= before.skip(index as int + 1));
            position -= 1;
        }
        proof {
            lemma_insertion_point_skips_later(
                prefix.take(position as int),
                prefix.skip(position as int),
                moving,
            );
            assert(prefix.take(position as int) + prefix.skip(position as int) =~= prefix);
            if position > 0 {
                assert(prefix.take(position as int).last() == prefix[position as int - 1]);
                assert(events@[position as int - 1] == prefix[position as int - 1]) by {
                    assert(events@.take(position as int)[position as int - 1]
                        == events@[position as int - 1]);
                }
            }
            assert(insertion_point(prefix.take(position as int), moving) == position) by {
                if position > 0 {
                    assert(prefix.take(position as int).len() == position);
                }
            }
            assert(original.take(index as int + 1).drop_last() =~= original.take(index as int));
            assert(original.take(index as int + 1).last() == moving);
            assert(events@.take(index as int + 1) =~= insert_event(prefix, moving)) by {
                assert(events@.take(index as int + 1) =~= events@.take(position as int).push(
                    moving,
                ) + events@.subrange(position as int + 1, index as int + 1));
            }
            assert(events@.skip(index as int + 1) == original.skip(index as int + 1));
        }
        index += 1;
    }
    assert(events@ =~= events@.take(length as int));
    assert(original =~= original.take(length as int));
}

/// Sorting leaves the events in ascending offset order.
pub proof fn lemma_sorted_events_are_ordered(events: Seq<NoteEvent>)
    ensures
        is_ordered(sorted_events(events)),
        sorted_events(events).len() == events.len(),
    decreases events.len(),
{
    if events.len() > 0 {
        let rest = sorted_events(events.drop_last());
        let event = events.last();
        lemma_sorted_events_are_ordered(events.drop_last());
        lemma_insertion_point_bounds(rest, event);
        let point = insertion_point(rest, event);
        let result = insert_event(rest, event);
        assert forall|i: int, j: int| 0 <= i < j < result.len() implies result[i].offset
            <= result[j].offset by {
            let ri = if i < point {
                rest[i]
            } else if i == point {
                event
            } else {
                rest[i - 1]
            };
            let rj = if j < point {
                rest[j]
            } else if j == point {
                event
            } else {
                rest[j - 1]
            };
            assert(result[i] == ri);
            assert(result[j] == rj);
            if i < point && j == point {
                assert(rest[i].offset <= rest[point - 1].offset);
            }
        }
    }
}

/// Sorting keeps, for every frame, exactly the events that land on it and
/// in the order they had: it is stable, and nothing is lost or invented.
pub proof fn lemma_sorted_events_are_stable(events: Seq<NoteEvent>, offset: usize)
    ensures
        at_offset(sorted_events(events), offset) == at_offset(events, offset),
    decreases events.len(),
{
    broadcast use vstd::seq_lib::group_filter_ensures;

    if events.len() > 0 {
        let rest = sorted_events(events.drop_last());
        let event = events.last();
        lemma_sorted_events_are_stable(events.drop_last(), offset);
        lemma_insertion_point_bounds(rest, event);
        let point = insertion_point(rest, event);
        let front = rest.take(point);
        let back = rest.skip(point);
        let pred = lands_on(offset);
        Seq::filter_distributes_over_add(front.push(event), back, pred);
        Seq::filter_distributes_over_add(front, back, pred);
        front.lemma_filter_push(event, pred);
        events.drop_last().lemma_filter_push(event, pred);
        assert(front + back =~= rest);
        assert(events.drop_last().push(event) =~= events);
        if event.offset == offset {
            assert(back.filter(pred) =~= Seq::<NoteEvent>::empty()) by {
                if back.filter(pred).len() > 0 {
                    let e = back.filter(pred)[0];
                    assert(back.filter(pred).contains(e));
                    back.lemma_filter_contains_rev(pred, e);
                    assert(back.contains(e));
                }
            }
        }
    }
}

} // verus!

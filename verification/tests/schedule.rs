use nylon::schedule::{
    MAX_NOTE_EVENTS, NoteAction, NoteEvent, Scheduled, push_note_event, sort_note_events,
};

fn event(offset: usize, pitch: u8, action: NoteAction) -> NoteEvent {
    NoteEvent {
        offset,
        pitch,
        velocity: if action == NoteAction::On { 100 } else { 0 },
        action,
    }
}

#[test]
fn events_come_out_sorted_by_offset() {
    let mut events = [
        event(360, 72, NoteAction::On),
        event(48, 60, NoteAction::On),
        event(240, 67, NoteAction::On),
        event(120, 64, NoteAction::On),
        event(96, 60, NoteAction::Off),
    ];
    sort_note_events(&mut events);
    let mut previous = 0;
    for event in &events {
        assert!(event.offset >= previous, "{event:?} after {previous}");
        previous = event.offset;
    }
    assert_eq!(events[0].pitch, 60);
    assert_eq!(events[4].pitch, 72);
}

#[test]
fn equal_offsets_keep_the_order_they_were_generated_in() {
    // A loop edge: the preceding cycle's release comes before the next
    // cycle's start at the same frame, and a short note keeps its start
    // before its end.
    let mut events = [
        event(80, 67, NoteAction::Off),
        event(0, 60, NoteAction::On),
        event(80, 67, NoteAction::On),
        event(0, 60, NoteAction::Off),
    ];
    sort_note_events(&mut events);
    assert_eq!(events[0], event(0, 60, NoteAction::On));
    assert_eq!(events[1], event(0, 60, NoteAction::Off));
    assert_eq!(events[2], event(80, 67, NoteAction::Off));
    assert_eq!(events[3], event(80, 67, NoteAction::On));
}

#[test]
fn sorting_nothing_or_one_event_changes_nothing() {
    let mut none: [NoteEvent; 0] = [];
    sort_note_events(&mut none);
    let mut one = [event(3, 1, NoteAction::On)];
    sort_note_events(&mut one);
    assert_eq!(one[0], event(3, 1, NoteAction::On));
}

#[test]
fn a_full_buffer_reports_what_it_dropped() {
    let mut events = [event(0, 0, NoteAction::On); 2];
    let mut result = Scheduled::default();
    push_note_event(event(1, 60, NoteAction::On), &mut events, &mut result);
    push_note_event(event(2, 61, NoteAction::On), &mut events, &mut result);
    push_note_event(event(3, 62, NoteAction::On), &mut events, &mut result);
    assert_eq!(result, Scheduled { count: 2, dropped: 1 });
    assert_eq!(events[1].pitch, 61);
    assert!(MAX_NOTE_EVENTS >= 2);
}

#[test]
fn an_event_past_a_buffer_already_overrun_is_counted_as_dropped() {
    let mut events = [event(0, 60, NoteAction::On); 2];
    let mut result = Scheduled { count: 5, dropped: 1 };
    push_note_event(event(3, 62, NoteAction::Off), &mut events, &mut result);
    assert_eq!(result, Scheduled { count: 5, dropped: 2 });
    assert_eq!(events, [event(0, 60, NoteAction::On); 2]);
}

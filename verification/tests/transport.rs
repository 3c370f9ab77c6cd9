use nylon::engine::check_block;
use nylon::engine::{MAX_EVENTS, MAX_FRAMES, RenderError, Transport};

#[test]
fn the_transport_starts_stopped_at_zero_and_moves_only_while_playing() {
    let mut transport = Transport::new();
    assert_eq!(transport.position(), 0);
    assert!(!transport.is_playing());
    assert_eq!(transport.advance(128), Ok(()));
    assert_eq!(transport.position(), 0);
    transport.play();
    assert!(transport.is_playing());
    assert_eq!(transport.advance(128), Ok(()));
    assert_eq!(transport.position(), 128);
    transport.stop();
    transport.locate(1_000);
    assert_eq!(transport.position(), 1_000);
    assert!(!transport.is_playing());
    assert_eq!(Transport::default(), Transport::new());
}

#[test]
fn a_clock_overflow_is_reported_and_leaves_the_playhead() {
    let mut transport = Transport::new();
    transport.locate(u64::MAX - 10);
    transport.play();
    assert_eq!(transport.advance(11), Err(RenderError::ClockOverflow));
    assert_eq!(transport.position(), u64::MAX - 10);
    assert_eq!(transport.advance(10), Ok(()));
    assert_eq!(transport.position(), u64::MAX);
    assert_eq!(MAX_FRAMES, 2048);
    assert_eq!(MAX_EVENTS, 256);
}

#[test]
fn a_block_and_its_events_are_checked_before_rendering() {
    assert_eq!(check_block(64, 64, &[(0, true), (32, true), (32, true), (64, true)]), Ok(()));
    assert_eq!(check_block(64, 32, &[]), Err(RenderError::BufferSize));
    assert_eq!(check_block(MAX_FRAMES + 1, MAX_FRAMES + 1, &[]), Err(RenderError::BufferSize));
    assert_eq!(check_block(64, 64, &vec![(0, true); MAX_EVENTS + 1]), Err(RenderError::EventCapacity));
    assert_eq!(check_block(64, 64, &[(65, true)]), Err(RenderError::EventOffset));
    assert_eq!(check_block(64, 64, &[(32, true), (16, true)]), Err(RenderError::EventOrder));
    assert_eq!(check_block(64, 64, &[(16, false), (8, true)]), Err(RenderError::InvalidGain));
    assert_eq!(check_block(0, 0, &[(0, true)]), Ok(()));
}

#[test]
fn the_playhead_follows_the_last_locate_and_plays_after_the_last_play() {
    let mut transport = Transport::new();
    transport.play();
    transport.locate(500);
    transport.stop();
    transport.play();
    assert_eq!(transport.position(), 500);
    assert!(transport.is_playing());
    transport.locate(20);
    transport.stop();
    transport.locate(7);
    assert_eq!(transport.position(), 7);
    assert!(!transport.is_playing());
}

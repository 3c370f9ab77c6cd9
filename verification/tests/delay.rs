use nylon::delay::DelayLine;

fn read(line: &DelayLine, buffer: &[f32], delay: usize) -> f32 {
    line.read(buffer, delay, 0.0)
}

#[test]
fn integer_delay_is_exact() {
    let mut buffer = [0.0_f32; 8];
    let mut line = DelayLine::new();
    for index in 0..8 {
        line.write(&mut buffer, index as f32 + 1.0);
    }
    // The newest sample is 8, one back is 7, and so on.
    assert_eq!(read(&line, &buffer, 0), 8.0);
    assert_eq!(read(&line, &buffer, 1), 7.0);
    assert_eq!(read(&line, &buffer, 7), 1.0);
}

#[test]
fn writes_wrap_around() {
    let mut buffer = [0.0_f32; 4];
    let mut line = DelayLine::new();
    for index in 0..10 {
        line.write(&mut buffer, index as f32);
    }
    assert_eq!(read(&line, &buffer, 0), 9.0);
    assert_eq!(read(&line, &buffer, 3), 6.0);
    assert_eq!(line.position(), 10 % 4);
}

#[test]
fn out_of_range_delays_are_clamped() {
    let mut buffer = [0.0_f32; 4];
    let mut line = DelayLine::new();
    for index in 0..4 {
        line.write(&mut buffer, index as f32);
    }
    assert_eq!(read(&line, &buffer, 100), read(&line, &buffer, 3));
    assert_eq!(line.read_index(4, 100), line.read_index(4, 3));
}

#[test]
fn an_empty_buffer_is_silent_rather_than_a_panic() {
    let mut buffer: [f32; 0] = [];
    let mut line = DelayLine::new();
    line.write(&mut buffer, 1.0);
    assert_eq!(line.read(&buffer, 0, 0.0), 0.0);
    assert_eq!(line.position(), 0);
}

#[test]
fn reset_clears_the_buffer_and_position() {
    let mut buffer = [0.0_f32; 8];
    let mut line = DelayLine::new();
    for index in 0..5 {
        line.write(&mut buffer, index as f32 + 1.0);
    }
    line.reset(&mut buffer, 0.0);
    assert_eq!(line.position(), 0);
    assert!(buffer.iter().all(|value| *value == 0.0));
}

#[test]
fn a_write_is_read_back_at_delay_zero_and_moves_one_back_per_write() {
    let mut buffer = [0_u32; 5];
    let mut line = DelayLine::new();
    line.write(&mut buffer, 11);
    assert_eq!(line.read(&buffer, 0, 0), 11);
    line.write(&mut buffer, 12);
    assert_eq!(line.read(&buffer, 0, 0), 12);
    assert_eq!(line.read(&buffer, 1, 0), 11);
}

#[test]
fn stereo_frames_are_delayed_whole() {
    let mut buffer = [[0.0_f32; 2]; 3];
    let mut line = DelayLine::new();
    line.write(&mut buffer, [1.0, -1.0]);
    line.write(&mut buffer, [2.0, -2.0]);
    assert_eq!(line.read(&buffer, 1, [0.0; 2]), [1.0, -1.0]);
}

use nylon::worker::{
    HEADER, LOAD_STATE, PARTIAL_SUFFIX, check_header, partial_name, MAX_BLOCK_FRAMES, Request, SAVE_STATE, block_bytes, decode_event_count,
    decode_request, decode_state_length, header_matches, length_prefixed, load_reply, state_reply,
    u32_from_le, u64_from_le,
    valid_block_limit,
};

#[test]
fn the_header_names_the_protocol() {
    assert_eq!(&HEADER, b"NYWORK3\0");
    assert!(header_matches(b"NYWORK3\0"));
    assert!(!header_matches(b"NYWORK2\0"));
}

#[test]
fn a_frame_count_selects_the_request() {
    assert_eq!(decode_request(0_u32.to_le_bytes(), 512), Ok(Request::Finish));
    assert_eq!(decode_request(SAVE_STATE.to_le_bytes(), 512), Ok(Request::SaveState));
    assert_eq!(decode_request(LOAD_STATE.to_le_bytes(), 512), Ok(Request::LoadState));
    assert_eq!(decode_request(512_u32.to_le_bytes(), 512), Ok(Request::Process(512)));
    assert_eq!(
        decode_request(513_u32.to_le_bytes(), 512),
        Err("Audio block exceeds the configured limit")
    );
}

#[test]
fn counts_and_lengths_are_little_endian_and_bounded() {
    assert_eq!(u32_from_le([1, 2, 3, 4]), 0x0403_0201);
    assert_eq!(u64_from_le([1, 0, 0, 0, 0, 0, 0, 0x80]), 0x8000_0000_0000_0001);
    assert_eq!(decode_event_count(16_u32.to_le_bytes(), 16), Ok(16));
    assert_eq!(
        decode_event_count(17_u32.to_le_bytes(), 16),
        Err("Parameter event count exceeds the configured limit")
    );
    assert_eq!(decode_state_length(1024_u64.to_le_bytes(), 4096), Ok(1024));
    assert_eq!(
        decode_state_length(u64::MAX.to_le_bytes(), 4096),
        Err("Plugin state exceeds the size limit")
    );
    assert_eq!(block_bytes(512), Ok(4096));
    assert_eq!(block_bytes(usize::MAX), Err("Audio block is too large"));
}

#[test]
fn a_block_limit_must_be_between_one_and_the_maximum() {
    assert!(!valid_block_limit(0));
    assert!(valid_block_limit(1));
    assert!(valid_block_limit(MAX_BLOCK_FRAMES));
    assert!(!valid_block_limit(MAX_BLOCK_FRAMES + 1));
}

#[test]
fn what_a_sender_encodes_decodes_to_the_same_number() {
    for value in [0u32, 1, 255, 256, 0x1234_5678, u32::MAX - 1, u32::MAX] {
        assert_eq!(u32_from_le(value.to_le_bytes()), value);
    }
    for value in [0u64, 1, 0x1_0000_0000, 0x0123_4567_89ab_cdef, u64::MAX] {
        assert_eq!(u64_from_le(value.to_le_bytes()), value);
    }
}

#[test]
fn replies_frame_their_fields_lowest_byte_first() {
    assert_eq!(length_prefixed(b"Gain"), Some(vec![4, 0, b'G', b'a', b'i', b'n']));
    assert_eq!(length_prefixed(&[]), Some(vec![0, 0]));
    let long = vec![7u8; 0x1_0000];
    assert_eq!(length_prefixed(&long), None);
    let framed = length_prefixed(&long[..0xffff]).unwrap();
    assert_eq!(&framed[..2], &[0xff, 0xff]);
    assert_eq!(framed.len(), 0x1_0001);

    let mut expected = SAVE_STATE.to_le_bytes().to_vec();
    expected.extend_from_slice(&3u64.to_le_bytes());
    expected.extend_from_slice(&[9, 8, 7]);
    assert_eq!(state_reply(&[9, 8, 7]), expected);
    assert_eq!(load_reply(), LOAD_STATE.to_le_bytes());
}

#[test]
fn a_header_that_never_arrived_is_told_from_a_wrong_one() {
    assert_eq!(check_header(None), Err("Worker header is missing"));
    assert_eq!(check_header(Some(HEADER)), Ok(()));
    assert_eq!(check_header(Some(*b"NYWORK2\0")), Err("Worker header is invalid"));
}

#[test]
fn a_file_is_written_under_a_partial_name_first() {
    assert_eq!(partial_name(b"out.wav"), b"out.wav.partial".to_vec());
    assert_eq!(partial_name(b""), b".partial".to_vec());
    assert_eq!(&PARTIAL_SUFFIX, b".partial");
}

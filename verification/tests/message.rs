use ws_net::message::{
    decode_data_frame, decode_data_frame_owned, encode_data_frame, new_data_frame_buffer,
    try_merge_data_frames, DATA_FRAME_HEADER_LEN,
};

#[test]
fn merges_consecutive_frames_for_the_same_stream() {
    let mut current = encode_data_frame(7, b"hello ");
    let next = encode_data_frame(7, b"world");

    assert!(try_merge_data_frames(&mut current, &next, 64));
    assert_eq!(
        decode_data_frame(&current),
        Some((7, b"hello world".to_vec()))
    );
}

#[test]
fn does_not_merge_frames_from_different_streams() {
    let mut current = encode_data_frame(7, b"hello");
    let original = current.clone();
    let next = encode_data_frame(8, b"world");

    assert!(!try_merge_data_frames(&mut current, &next, 64));
    assert_eq!(current, original);
}

#[test]
fn respects_the_merged_payload_limit() {
    let mut current = encode_data_frame(7, b"1234");
    let original = current.clone();
    let next = encode_data_frame(7, b"5678");

    assert!(!try_merge_data_frames(&mut current, &next, 7));
    assert_eq!(current, original);
}

#[test]
fn rejects_invalid_frames_without_modifying_the_current_frame() {
    let mut current = vec![1, 2, 3];
    let original = current.clone();
    let next = encode_data_frame(7, b"payload");

    assert!(!try_merge_data_frames(&mut current, &next, 64));
    assert_eq!(current, original);

    let mut current = encode_data_frame(7, b"payload");
    let original = current.clone();
    assert!(!try_merge_data_frames(&mut current, &[1, 2, 3], 64));
    assert_eq!(current, original);
}

#[test]
fn merges_up_to_the_limit_exactly() {
    let mut current = encode_data_frame(7, b"1234");
    assert!(try_merge_data_frames(&mut current, &encode_data_frame(7, b"5678"), 8));
    assert_eq!(decode_data_frame(&current), Some((7, b"12345678".to_vec())));
}

#[test]
fn data_frame_begins_with_the_big_endian_stream_number() {
    assert_eq!(
        encode_data_frame(0x0102_0304_0506_0708, b"x"),
        vec![1, 2, 3, 4, 5, 6, 7, 8, b'x']
    );
    assert_eq!(encode_data_frame(u64::MAX, b""), vec![255; 8]);
}

#[test]
fn decoding_gives_back_what_was_encoded() {
    for stream_id in [0, 1, 255, 256, u64::MAX] {
        let frame = encode_data_frame(stream_id, b"payload");
        assert_eq!(decode_data_frame(&frame), Some((stream_id, b"payload".to_vec())));
        let (owned_id, payload) = decode_data_frame_owned(frame).unwrap();
        assert_eq!(owned_id, stream_id);
        assert_eq!(payload.as_slice(), b"payload");
        assert_eq!(payload.into_vec(), b"payload".to_vec());
    }
}

#[test]
fn frames_without_a_header_do_not_decode() {
    assert_eq!(decode_data_frame(&[0; 7]), None);
    assert!(decode_data_frame_owned(vec![0; 7]).is_none());
    assert_eq!(decode_data_frame(&[0; 8]), Some((0, Vec::new())));
}

#[test]
fn new_buffers_hold_the_header_and_zeros() {
    let frame = new_data_frame_buffer(9, 3);
    assert_eq!(frame, vec![0, 0, 0, 0, 0, 0, 0, 9, 0, 0, 0]);
    assert_eq!(frame.len(), DATA_FRAME_HEADER_LEN + 3);
}

use event_replay::codec::decode_all;
use event_replay::codec::encode;
use event_replay::codec::FrameError;

#[test]
fn correct_empty_frame() {
    let mut message = [0u8; 1024];
    let size = 3 as usize;

    message[0] = 2; // Start marker
    message[1] = 0; // Length
    message[2] = 3; // End marker

    let res = decode_all(&message, size).unwrap();

    assert_eq!(res.len(), 1);

    let expected_frame: Vec<u8> = vec![];
    assert_eq!(res[0].len(), 0);
    assert_eq!(res[0], expected_frame);
}

#[test]
fn correct_single_frame() {
    let mut message = [4u8; 1024];
    let size = 35 as usize;

    message[0] = 2; // Start marker
    message[1] = 32; // Length
    message[34] = 3; // End marker

    let res = decode_all(&message, size).unwrap();

    assert_eq!(res.len(), 1);

    let expected_frame: Vec<u8> = vec![4; 32];
    assert_eq!(res[0].len(), 32);
    assert_eq!(res[0], expected_frame);
}

#[test]
fn correct_two_frames() {
    let mut message = [4u8; 1024];
    let size = 30 as usize;

    message[0] = 2; // Start marker
    message[1] = 16; // Length
    message[18] = 3; // End marker

    // Second message
    message[19] = 2; // Start marker
    message[20] = 8; // Length
    message[29] = 3; // End marker

    let res = decode_all(&message, size).unwrap();

    assert_eq!(res.len(), 2);

    let expected_frame1: Vec<u8> = vec![4; 16];
    assert_eq!(res[0].len(), 16);
    assert_eq!(res[0], expected_frame1);

    let expected_frame2: Vec<u8> = vec![4; 8];
    assert_eq!(res[1].len(), 8);
    assert_eq!(res[1], expected_frame2);
}

#[test]
#[should_panic]
fn no_start_marker() {
    let message = [0u8; 1024];
    let size = 5 as usize;

    let _ = decode_all(&message, size).unwrap();
}

#[test]
#[should_panic]
fn no_end_marker() {
    let mut message = [0u8; 1024];
    let size = 5 as usize;

    message[0] = 2; // Start marker

    let _ = decode_all(&message, size).unwrap();
}

#[test]
#[should_panic]
fn more_than_full_frame() {
    let mut message = [0u8; 1024];
    let size = 5 as usize;

    // Put a full message in but size is longer
    message[0] = 2; // Start marker
    message[1] = 1; // Length
    message[2] = 3; // End marker
    message[3] = 0; // No start marker here...

    let _ = decode_all(&message, size).unwrap();
}

#[test]
fn frame_round_trip() {
    let payload: Vec<u8> = (0..=254u8).collect();
    let frame = encode(payload.as_slice()).unwrap();

    assert_eq!(frame.len(), payload.len() + 3);
    assert_eq!(frame[0], 2);
    assert_eq!(frame[1], 255);
    assert_eq!(frame[frame.len() - 1], 3);

    let decoded = decode_all(frame.as_slice(), frame.len()).unwrap();
    assert_eq!(decoded, vec![payload]);
}

#[test]
fn empty_payload_round_trip() {
    let frame = encode(&[]).unwrap();
    assert_eq!(frame, vec![2, 0, 3]);

    let decoded = decode_all(frame.as_slice(), frame.len()).unwrap();
    assert_eq!(decoded.len(), 1);
    assert_eq!(decoded[0], Vec::<u8>::new());
}

#[test]
fn two_frames_concatenated_round_trip() {
    let p1: Vec<u8> = vec![10, 20, 30];
    let p2: Vec<u8> = vec![40];

    let mut wire = encode(p1.as_slice()).unwrap();
    wire.extend(encode(p2.as_slice()).unwrap());

    let decoded = decode_all(wire.as_slice(), wire.len()).unwrap();
    assert_eq!(decoded, vec![p1, p2]);
}

#[test]
fn missing_start_marker_is_reported() {
    let message = [7u8; 8];
    assert_eq!(decode_all(&message, 8), Err(FrameError::MissingStartMarker));
}

#[test]
fn overrunning_length_is_reported() {
    // Declared length 200 with only five valid bytes.
    let message = [2u8, 200, 3, 0, 0];
    assert_eq!(decode_all(&message, 5), Err(FrameError::TruncatedFrame));
}

#[test]
fn start_marker_alone_is_truncated() {
    let message = [2u8];
    assert_eq!(decode_all(&message, 1), Err(FrameError::TruncatedFrame));
}

#[test]
fn wrong_terminator_is_reported() {
    // One payload byte, then a byte that is not the end marker.
    let message = [2u8, 1, 7, 0, 0];
    assert_eq!(decode_all(&message, 5), Err(FrameError::MissingEndMarker));
}

#[test]
fn oversized_payload_is_rejected() {
    let payload = [9u8; 256];
    assert_eq!(encode(&payload), Err(FrameError::PayloadTooLarge));
}

#[test]
fn decode_stops_at_valid_length() {
    // Valid frames beyond the valid length are not decoded.
    let mut message = [0u8; 1024];
    message[0] = 2;
    message[1] = 0;
    message[2] = 3;
    message[3] = 2;
    message[4] = 0;
    message[5] = 3;

    let res = decode_all(&message, 3).unwrap();
    assert_eq!(res.len(), 1);
}

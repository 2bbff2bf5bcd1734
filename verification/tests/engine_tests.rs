use event_replay::codec::FrameError;
use event_replay::engine::encode_scenario;
use event_replay::engine::engine_step;
use event_replay::engine::Capture;
use event_replay::engine::EngineEvent;
use event_replay::engine::EngineState;
use event_replay::scenario::Event;

fn zero_delay_events(payloads: &[&str]) -> Vec<Event> {
    payloads
        .iter()
        .map(|p| Event { payload: String::from(*p), delay_nanos: 0 })
        .collect()
}

#[test]
fn scenario_is_framed_in_order() {
    let events = vec![
        Event { payload: String::from("First message"), delay_nanos: 5 },
        Event { payload: String::from("Second message"), delay_nanos: 7 },
    ];

    let pairs = encode_scenario(&events).unwrap();

    assert_eq!(pairs.len(), 2);
    assert_eq!(pairs[0].0, 5);
    assert_eq!(pairs[1].0, 7);

    let mut expected = vec![2u8, 13];
    expected.extend("First message".as_bytes());
    expected.push(3);
    assert_eq!(pairs[0].1, expected);

    let mut expected = vec![2u8, 14];
    expected.extend("Second message".as_bytes());
    expected.push(3);
    assert_eq!(pairs[1].1, expected);
}

#[test]
fn oversized_event_aborts_before_replay() {
    let big = "x".repeat(256);
    let events = vec![
        Event { payload: String::from("small"), delay_nanos: 0 },
        Event { payload: big, delay_nanos: 0 },
    ];

    assert_eq!(encode_scenario(&events), Err(FrameError::PayloadTooLarge));
}

#[test]
fn byte_length_not_character_count_limits_payloads() {
    // 150 two-byte characters: well under 255 characters, but 300 bytes.
    let payload: String = "\u{00e9}".repeat(150);
    let events = vec![Event { payload, delay_nanos: 0 }];

    assert_eq!(encode_scenario(&events), Err(FrameError::PayloadTooLarge));
}

#[test]
fn multibyte_payload_round_trips_through_the_codec() {
    let payload: String = "\u{00e9}".repeat(20);
    let events = vec![Event { payload: payload.clone(), delay_nanos: 0 }];

    let pairs = encode_scenario(&events).unwrap();
    assert_eq!(pairs[0].1.len(), 43);

    let mut capture = Capture::new();
    let n = pairs[0].1.len();
    capture.ingest(pairs[0].1.as_slice(), n).unwrap();
    let frames = capture.into_frames();
    assert_eq!(frames[0].as_slice(), payload.as_bytes());
}

#[test]
fn replay_completeness_over_an_echoing_peer() {
    // A peer that echoes every frame back unmodified hands the receiver the
    // concatenation of the encoded payloads: the capture equals the original
    // payloads, in order.
    let payloads = ["one", "two", "three", "", "five"];
    let events = zero_delay_events(&payloads);

    let pairs = encode_scenario(&events).unwrap();
    let mut wire: Vec<u8> = Vec::new();
    for (_, frame) in &pairs {
        wire.extend(frame);
    }

    let mut capture = Capture::new();
    let n = wire.len();
    let added = capture.ingest(wire.as_slice(), n).unwrap();
    assert_eq!(added, payloads.len());

    let frames = capture.into_frames();
    assert_eq!(frames.len(), payloads.len());
    for (frame, payload) in frames.iter().zip(payloads.iter()) {
        assert_eq!(frame.as_slice(), payload.as_bytes());
    }
}

#[test]
fn flawed_read_is_reported_and_capture_goes_on() {
    let mut capture = Capture::new();

    let good = vec![2u8, 2, 65, 66, 3];
    assert_eq!(capture.ingest(good.as_slice(), good.len()), Ok(1));
    assert_eq!(capture.len(), 1);

    let bad = vec![9u8, 9, 9];
    assert_eq!(capture.ingest(bad.as_slice(), bad.len()), Err(FrameError::MissingStartMarker));
    assert_eq!(capture.len(), 1);

    let good2 = vec![2u8, 1, 67, 3];
    assert_eq!(capture.ingest(good2.as_slice(), good2.len()), Ok(1));

    let frames = capture.into_frames();
    assert_eq!(frames, vec![vec![65u8, 66], vec![67u8]]);
}

#[test]
fn a_read_prefix_only_is_ingested() {
    let mut capture = Capture::new();

    // Only the first three bytes of the buffer came from the read.
    let buffer = vec![2u8, 0, 3, 2, 0, 3];
    assert_eq!(capture.ingest(buffer.as_slice(), 3), Ok(1));
    assert_eq!(capture.len(), 1);
}

#[test]
fn phases_move_as_the_run_unfolds() {
    let s = EngineState::Listening;

    let s = engine_step(s, EngineEvent::PeerConnected);
    assert_eq!(s, EngineState::Replaying);

    let s = engine_step(s, EngineEvent::LastEventSent);
    assert_eq!(s, EngineState::Draining);

    let s = engine_step(s, EngineEvent::ReceiverJoined);
    assert_eq!(s, EngineState::Closed);
}

#[test]
fn failed_bind_closes_the_run_at_once() {
    let s = engine_step(EngineState::Listening, EngineEvent::BindFailed);
    assert_eq!(s, EngineState::Closed);
}

#[test]
fn failed_send_still_drains_the_receiver() {
    let s = engine_step(EngineState::Replaying, EngineEvent::TransmitFailed);
    assert_eq!(s, EngineState::Draining);

    let s = engine_step(s, EngineEvent::ReceiverJoined);
    assert_eq!(s, EngineState::Closed);
}

#[test]
fn unrelated_events_leave_the_phase_alone() {
    let s = engine_step(EngineState::Replaying, EngineEvent::PeerConnected);
    assert_eq!(s, EngineState::Replaying);

    let s = engine_step(EngineState::Closed, EngineEvent::ReceiverJoined);
    assert_eq!(s, EngineState::Closed);
}

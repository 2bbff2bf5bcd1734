//! The replay engine's decisions. A run moves through four phases — listening,
//! replaying, draining, closed — while a sender walks the scenario in order
//! and an independent receiver captures and unframes whatever comes back.
//! The I/O itself (binding, reading, writing, sleeping, the receiver's thread)
//! stays outside; everything decided here — what bytes each event puts on the
//! wire, what a read adds to the capture, how the phases move — is verified.

use vstd::prelude::*;
use vstd::utf8::encode_utf8;
use crate::codec::FrameError;
use crate::codec::MAX_PAYLOAD;
use crate::codec::spec_encode;
use crate::codec::spec_decode;
use crate::codec::spec_encode_all;
use crate::codec::lemma_replay_completeness;
use crate::codec::encode;
use crate::codec::decode_all;
use crate::scenario::Event;

verus! {

/// A fatal fault of a run, or the diagnostic of a flawed inbound read.
#[derive(Debug, Clone, Copy, PartialEq, Eq, Structural)]
pub enum ReplayError {
    /// The configured local port could not be bound; fatal and never retried.
    BindError,
    /// A frame could not be written to the peer; fatal, but the receiver is
    /// still told to stop and joined before the run reports it.
    TransmitError,
    /// Inbound bytes did not unframe; reported, and capture goes on.
    ReceiveDecodeWarning,
}

/// The phases of one run.
#[derive(Debug, Clone, Copy, PartialEq, Eq, Structural)]
pub enum EngineState {
    /// Bound and waiting for the single peer to connect.
    Listening,
    /// Sending events in order while the receiver captures replies.
    Replaying,
    /// Every event sent (or a send failed): the shutdown signal is raised and
    /// the run waits for the receiver to exit.
    Draining,
    /// The receiver has exited; the run yields its capture or its first fault.
    Closed,
}

/// What can befall a run.
#[derive(Debug, Clone, Copy, PartialEq, Eq, Structural)]
pub enum EngineEvent {
    /// The local port was unavailable.
    BindFailed,
    /// The single inbound connection arrived.
    PeerConnected,
    /// The last event of the scenario went out.
    LastEventSent,
    /// A write to the peer failed.
    TransmitFailed,
    /// The receiver observed the shutdown signal and exited.
    ReceiverJoined,
}

/// How the phases move: a failed bind closes the run at once; a connection
/// starts the replay; the last send — or a failed one — starts the drain; the
/// joined receiver closes the run. Any other event leaves the phase alone.
pub open spec fn spec_step(s: EngineState, e: EngineEvent) -> EngineState {
    match (s, e) {
        (EngineState::Listening, EngineEvent::BindFailed) => EngineState::Closed,
        (EngineState::Listening, EngineEvent::PeerConnected) => EngineState::Replaying,
        (EngineState::Replaying, EngineEvent::LastEventSent) => EngineState::Draining,
        (EngineState::Replaying, EngineEvent::TransmitFailed) => EngineState::Draining,
        (EngineState::Draining, EngineEvent::ReceiverJoined) => EngineState::Closed,
        (_, _) => s,
    }
}

/// Moves the run one phase forward.
pub fn engine_step(s: EngineState, e: EngineEvent) -> (r: EngineState)
    ensures
        r == spec_step(s, e),
{
    match (s, e) {
        (EngineState::Listening, EngineEvent::BindFailed) => EngineState::Closed,
        (EngineState::Listening, EngineEvent::PeerConnected) => EngineState::Replaying,
        (EngineState::Replaying, EngineEvent::LastEventSent) => EngineState::Draining,
        (EngineState::Replaying, EngineEvent::TransmitFailed) => EngineState::Draining,
        (EngineState::Draining, EngineEvent::ReceiverJoined) => EngineState::Closed,
        (_, _) => s,
    }
}

/// The bytes an event's text payload puts inside its frame.
pub open spec fn spec_payload_bytes(payload: Seq<char>) -> Seq<u8> {
    encode_utf8(payload)
}

/// Frames the whole scenario before any network activity: each event becomes
/// its delay paired with its wire frame, in order. A payload of more than 255
/// bytes fails the whole call, so a replay never starts half-validated.
pub fn encode_scenario(events: &Vec<Event>) -> (r: Result<Vec<(u64, Vec<u8>)>, FrameError>)
    ensures
        r matches Ok(pairs) ==> (pairs@.len() == events@.len() && (forall|i: int|
            0 <= i < events@.len() ==> spec_payload_bytes(
                (#[trigger] events@[i]).payload@,
            ).len() <= MAX_PAYLOAD) && (forall|i: int|
            0 <= i < events@.len() ==> (#[trigger] pairs@[i]).0 == events@[i].delay_nanos) && (
        forall|i: int|
            0 <= i < events@.len() ==> (#[trigger] pairs@[i]).1@ == spec_encode(
                spec_payload_bytes(events@[i].payload@),
            ))),
        r matches Err(e) ==> (e == FrameError::PayloadTooLarge && exists|i: int|
            0 <= i < events@.len() && spec_payload_bytes(
                (#[trigger] events@[i]).payload@,
            ).len() > MAX_PAYLOAD),
{
    let mut pairs: Vec<(u64, Vec<u8>)> = Vec::new();
    let n = events.len();
    let mut i: usize = 0;
    while i < n
        invariant
            i <= n == events@.len(),
            pairs@.len() == i,
            forall|j: int|
                0 <= j < i ==> spec_payload_bytes(
                    (#[trigger] events@[j]).payload@,
                ).len() <= MAX_PAYLOAD,
            forall|j: int| 0 <= j < i ==> (#[trigger] pairs@[j]).0 == events@[j].delay_nanos,
            forall|j: int|
                0 <= j < i ==> (#[trigger] pairs@[j]).1@ == spec_encode(
                    spec_payload_bytes(events@[j].payload@),
                ),
        decreases n - i,
    {
        let ev: &Event = &events[i];
        let bytes = ev.payload.as_str().as_bytes_vec();
        match encode(bytes.as_slice()) {
            Ok(frame) => {
                pairs.push((ev.delay_nanos, frame));
            },
            Err(_) => {
                return Err(FrameError::PayloadTooLarge);
            },
        }
        i = i + 1;
    }
    Ok(pairs)
}

/// Law: replay completeness — a peer that echoes every frame back unmodified
/// hands the receiver the scenario's frames back to back, and decoding those
/// bytes yields exactly the events' payload bytes, in order.
pub proof fn lemma_echoed_scenario_is_captured(payloads: Seq<Seq<char>>)
    requires
        forall|i: int|
            0 <= i < payloads.len() ==> spec_payload_bytes(
                #[trigger] payloads[i],
            ).len() <= MAX_PAYLOAD,
    ensures
        spec_decode(spec_encode_all(payloads.map_values(|p: Seq<char>| spec_payload_bytes(p))))
            == Ok::<Seq<Seq<u8>>, FrameError>(
            payloads.map_values(|p: Seq<char>| spec_payload_bytes(p)),
        ),
{
    let bytes = payloads.map_values(|p: Seq<char>| spec_payload_bytes(p));
    assert forall|i: int| 0 <= i < bytes.len() implies (#[trigger] bytes[i]).len()
        <= MAX_PAYLOAD by {
        assert(bytes[i] == spec_payload_bytes(payloads[i]));
    }
    lemma_replay_completeness(bytes);
}

/// The receiver's state: every payload unframed from inbound reads so far, in
/// arrival order.
pub struct Capture {
    frames: Vec<Vec<u8>>,
}

impl Capture {
    /// The captured payloads, in arrival order.
    pub closed spec fn frames_seq(&self) -> Seq<Seq<u8>> {
        self.frames.deep_view()
    }

    /// An empty capture, made when the receiver starts.
    pub fn new() -> (c: Capture)
        ensures
            c.frames_seq() == Seq::<Seq<u8>>::empty(),
    {
        let c = Capture { frames: Vec::new() };
        proof {
            assert(c.frames_seq() =~~= Seq::<Seq<u8>>::empty());
        }
        c
    }

    /// Takes one read's bytes, `buffer[0..n]`, and appends every payload
    /// unframed from them, in order; returns how many. A flawed buffer changes
    /// nothing and reports the flaw — capture goes on with the next read.
    pub fn ingest(&mut self, buffer: &[u8], n: usize) -> (r: Result<usize, FrameError>)
        requires
            n <= buffer@.len(),
        ensures
            r matches Ok(k) ==> (spec_decode(buffer@.take(n as int)) matches Ok(fs)
                && final(self).frames_seq() == old(self).frames_seq() + fs && k == fs.len()),
            r matches Err(e) ==> (spec_decode(buffer@.take(n as int)) == Err::<
                Seq<Seq<u8>>,
                FrameError,
            >(e) && final(self).frames_seq() == old(self).frames_seq()),
    {
        match decode_all(buffer, n) {
            Ok(mut fs) => {
                let k = fs.len();
                let ghost previous = self.frames.deep_view();
                let ghost arrived = fs.deep_view();
                self.frames.append(&mut fs);
                proof {
                    assert(self.frames.deep_view() =~~= previous + arrived);
                }
                Ok(k)
            },
            Err(e) => Err(e),
        }
    }

    /// How many payloads were captured so far.
    pub fn len(&self) -> (n: usize)
        ensures
            n == self.frames_seq().len(),
    {
        self.frames.len()
    }

    /// Hands the captured payloads over, in arrival order.
    pub fn into_frames(self) -> (v: Vec<Vec<u8>>)
        ensures
            v.deep_view() == self.frames_seq(),
    {
        self.frames
    }
}

} // verus!

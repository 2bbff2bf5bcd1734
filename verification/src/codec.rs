//! The frame codec: a payload travels as `STX | length | payload | ETX`,
//! where the length is a single byte, so a payload holds at most 255 bytes.

use vstd::prelude::*;

verus! {

/// Start marker of every frame on the wire.
pub const STX: u8 = 2;

/// End marker of every frame on the wire.
pub const ETX: u8 = 3;

/// Longest payload a one-byte length field can describe.
pub const MAX_PAYLOAD: usize = 255;

/// Everything that can go wrong while framing or unframing bytes.
#[derive(Debug, Clone, Copy, PartialEq, Eq, Structural)]
pub enum FrameError {
    /// A payload longer than 255 bytes cannot be framed.
    PayloadTooLarge,
    /// The byte where a frame must begin is not the start marker.
    MissingStartMarker,
    /// The byte just after a frame's payload is not the end marker.
    MissingEndMarker,
    /// The declared payload length reads past the valid part of the buffer.
    TruncatedFrame,
}

/// The wire image of one payload: start marker, length byte, payload, end marker.
pub open spec fn spec_encode(p: Seq<u8>) -> Seq<u8>
    recommends
        p.len() <= MAX_PAYLOAD,
{
    seq![STX, p.len() as u8] + p + seq![ETX]
}

/// Prefixes frames onto the outcome of decoding the remaining bytes.
pub open spec fn spec_prepend(fs: Seq<Seq<u8>>, rest: Result<Seq<Seq<u8>>, FrameError>) -> Result<
    Seq<Seq<u8>>,
    FrameError,
> {
    match rest {
        Ok(more) => Ok(fs + more),
        Err(e) => Err(e),
    }
}

/// What scanning a byte sequence left to right yields: every frame's payload in
/// order, or the first flaw found. A scan succeeds only when the bytes are
/// consumed exactly.
pub open spec fn spec_decode(b: Seq<u8>) -> Result<Seq<Seq<u8>>, FrameError>
    decreases b.len(),
{
    if b.len() == 0 {
        Ok(Seq::empty())
    } else if b[0] != STX {
        Err(FrameError::MissingStartMarker)
    } else if b.len() < 3 + b[1] as int {
        Err(FrameError::TruncatedFrame)
    } else if b[2 + b[1] as int] != ETX {
        Err(FrameError::MissingEndMarker)
    } else {
        spec_prepend(
            seq![b.subrange(2, 2 + b[1] as int)],
            spec_decode(b.skip(3 + b[1] as int)),
        )
    }
}

/// Frames one payload: succeeds exactly on payloads of at most 255 bytes.
pub fn encode(payload: &[u8]) -> (r: Result<Vec<u8>, FrameError>)
    ensures
        payload@.len() <= MAX_PAYLOAD ==> (r matches Ok(f) && f@ == spec_encode(payload@)),
        payload@.len() > MAX_PAYLOAD ==> r == Err::<Vec<u8>, FrameError>(
            FrameError::PayloadTooLarge,
        ),
{
    let n = payload.len();
    if n > MAX_PAYLOAD {
        return Err(FrameError::PayloadTooLarge);
    }
    let mut frame: Vec<u8> = Vec::new();
    frame.push(STX);
    frame.push(n as u8);
    let mut i: usize = 0;
    while i < n
        invariant
            i <= n,
            n == payload@.len() <= MAX_PAYLOAD,
            frame@ == seq![STX, payload@.len() as u8] + payload@.take(i as int),
        decreases n - i,
    {
        frame.push(payload[i]);
        proof {
            assert(frame@ =~= seq![STX, payload@.len() as u8] + payload@.take(i + 1));
        }
        i = i + 1;
    }
    frame.push(ETX);
    proof {
        assert(payload@.take(n as int) =~= payload@);
        assert(frame@ =~= spec_encode(payload@));
    }
    Ok(frame)
}

/// Unframes `buffer[0..valid_len]`: returns every payload in order, or the
/// first flaw found; a single corrupt frame fails the whole scan.
pub fn decode_all(buffer: &[u8], valid_len: usize) -> (r: Result<Vec<Vec<u8>>, FrameError>)
    requires
        valid_len <= buffer@.len(),
    ensures
        match r {
            Ok(frames) => spec_decode(buffer@.take(valid_len as int)) == Ok::<
                Seq<Seq<u8>>,
                FrameError,
            >(frames.deep_view()),
            Err(e) => spec_decode(buffer@.take(valid_len as int)) == Err::<
                Seq<Seq<u8>>,
                FrameError,
            >(e),
        },
{
    let ghost full: Seq<u8> = buffer@.take(valid_len as int);
    let mut frames: Vec<Vec<u8>> = Vec::new();
    let mut pos: usize = 0;
    proof {
        assert(full.skip(0) =~= full);
        assert(frames.deep_view() =~~= Seq::<Seq<u8>>::empty());
        match spec_decode(full) {
            Ok(more) => {
                assert(Seq::<Seq<u8>>::empty() + more =~= more);
            },
            Err(_) => {},
        }
    }
    while pos < valid_len
        invariant
            pos <= valid_len <= buffer@.len(),
            full == buffer@.take(valid_len as int),
            spec_decode(full) == spec_prepend(frames.deep_view(), spec_decode(full.skip(pos as int))),
        decreases valid_len - pos,
    {
        let ghost rem = full.skip(pos as int);
        proof {
            assert(rem.len() == valid_len - pos);
            assert(rem[0] == buffer@[pos as int]);
        }
        if buffer[pos] != STX {
            proof {
                assert(spec_decode(rem) == Err::<Seq<Seq<u8>>, FrameError>(
                    FrameError::MissingStartMarker,
                ));
            }
            return Err(FrameError::MissingStartMarker);
        }
        if pos + 1 >= valid_len {
            proof {
                assert(rem.len() < 2);
                assert(spec_decode(rem) == Err::<Seq<Seq<u8>>, FrameError>(
                    FrameError::TruncatedFrame,
                ));
            }
            return Err(FrameError::TruncatedFrame);
        }
        let len = buffer[pos + 1] as usize;
        proof {
            assert(rem[1] == buffer@[pos + 1]);
            assert(rem[1] as int == len as int);
        }
        if len + 1 > valid_len - (pos + 2) {
            proof {
                assert(rem.len() < 3 + rem[1] as int);
                assert(spec_decode(rem) == Err::<Seq<Seq<u8>>, FrameError>(
                    FrameError::TruncatedFrame,
                ));
            }
            return Err(FrameError::TruncatedFrame);
        }
        proof {
            assert(pos + 2 + len < valid_len);
            assert(rem[2 + len as int] == buffer@[pos + 2 + len]);
        }
        if buffer[pos + 2 + len] != ETX {
            proof {
                assert(spec_decode(rem) == Err::<Seq<Seq<u8>>, FrameError>(
                    FrameError::MissingEndMarker,
                ));
            }
            return Err(FrameError::MissingEndMarker);
        }
        let mut payload: Vec<u8> = Vec::new();
        let mut j: usize = 0;
        while j < len
            invariant
                j <= len,
                pos + 2 + len < valid_len <= buffer@.len(),
                payload@ == buffer@.subrange(pos + 2, pos + 2 + j as int),
            decreases len - j,
        {
            payload.push(buffer[pos + 2 + j]);
            proof {
                assert(payload@ =~= buffer@.subrange(pos + 2, pos + 2 + (j + 1)));
            }
            j = j + 1;
        }
        proof {
            assert(payload@ =~= rem.subrange(2, 2 + len as int));
            assert(spec_decode(rem) == spec_prepend(
                seq![payload@],
                spec_decode(rem.skip(3 + len as int)),
            ));
            assert(rem.skip(3 + len as int) =~= full.skip(pos + 3 + len));
            lemma_prepend_assoc(frames.deep_view(), seq![payload@], spec_decode(full.skip(pos + 3 + len)));
            assert(frames.deep_view() + seq![payload@] =~~= frames.deep_view().push(payload@));
        }
        let ghost old_frames = frames.deep_view();
        frames.push(payload);
        proof {
            assert(frames.deep_view() =~~= old_frames.push(payload@));
        }
        pos = pos + 3 + len;
    }
    proof {
        assert(full.skip(pos as int) =~= Seq::<u8>::empty());
        assert(spec_decode(full.skip(pos as int)) == Ok::<Seq<Seq<u8>>, FrameError>(Seq::empty()));
        assert(frames.deep_view() + Seq::<Seq<u8>>::empty() =~~= frames.deep_view());
    }
    Ok(frames)
}

/// Prefixing a batch of frames and then another is prefixing their concatenation.
proof fn lemma_prepend_assoc(a: Seq<Seq<u8>>, b: Seq<Seq<u8>>, r: Result<Seq<Seq<u8>>, FrameError>)
    ensures
        spec_prepend(a, spec_prepend(b, r)) == spec_prepend(a + b, r),
{
    match r {
        Ok(more) => {
            assert(a + (b + more) =~= (a + b) + more);
        },
        Err(_) => {},
    }
}

/// Decoding an encoded payload followed by anything decodes the payload first
/// and the remainder on its own.
pub proof fn lemma_decode_prefix(p: Seq<u8>, rest: Seq<u8>)
    requires
        p.len() <= MAX_PAYLOAD,
    ensures
        spec_decode(spec_encode(p) + rest) == spec_prepend(seq![p], spec_decode(rest)),
{
    let b = spec_encode(p) + rest;
    assert(b.len() == p.len() + 3 + rest.len());
    assert(b[0] == STX);
    assert(b[1] == p.len() as u8);
    assert(b[1] as int == p.len() as int);
    assert(b[2 + b[1] as int] == ETX);
    assert(b.subrange(2, 2 + b[1] as int) =~= p);
    assert(b.skip(3 + b[1] as int) =~= rest);
}

/// Law: a frame round-trips — decoding the encoding of any payload of at most
/// 255 bytes yields exactly that payload, alone.
pub proof fn lemma_round_trip(p: Seq<u8>)
    requires
        p.len() <= MAX_PAYLOAD,
    ensures
        spec_decode(spec_encode(p)) == Ok::<Seq<Seq<u8>>, FrameError>(seq![p]),
{
    lemma_decode_prefix(p, Seq::empty());
    assert(spec_encode(p) + Seq::<u8>::empty() =~= spec_encode(p));
    assert(seq![p] + Seq::<Seq<u8>>::empty() =~= seq![p]);
}

/// Law: two encoded frames laid back to back decode to the two payloads in order.
pub proof fn lemma_two_frames(p1: Seq<u8>, p2: Seq<u8>)
    requires
        p1.len() <= MAX_PAYLOAD,
        p2.len() <= MAX_PAYLOAD,
    ensures
        spec_decode(spec_encode(p1) + spec_encode(p2)) == Ok::<Seq<Seq<u8>>, FrameError>(
            seq![p1, p2],
        ),
{
    lemma_decode_prefix(p1, spec_encode(p2));
    lemma_round_trip(p2);
    assert(seq![p1] + seq![p2] =~= seq![p1, p2]);
}

/// Law: a buffer that does not begin with the start marker fails with
/// `MissingStartMarker`.
pub proof fn lemma_missing_start(b: Seq<u8>)
    requires
        b.len() > 0,
        b[0] != STX,
    ensures
        spec_decode(b) == Err::<Seq<Seq<u8>>, FrameError>(FrameError::MissingStartMarker),
{
}

/// Law: a first frame whose declared length overruns the available bytes fails
/// with `TruncatedFrame`.
pub proof fn lemma_truncated(b: Seq<u8>)
    requires
        b.len() > 0,
        b[0] == STX,
        b.len() < 2 || b.len() < 3 + b[1] as int,
    ensures
        spec_decode(b) == Err::<Seq<Seq<u8>>, FrameError>(FrameError::TruncatedFrame),
{
}

/// Law: a first frame whose terminator byte is not the end marker fails with
/// `MissingEndMarker`.
pub proof fn lemma_missing_end(b: Seq<u8>)
    requires
        b.len() >= 2,
        b[0] == STX,
        b.len() >= 3 + b[1] as int,
        b[2 + b[1] as int] != ETX,
    ensures
        spec_decode(b) == Err::<Seq<Seq<u8>>, FrameError>(FrameError::MissingEndMarker),
{
}

/// The wire image of a whole scenario: every payload encoded, back to back.
pub open spec fn spec_encode_all(ps: Seq<Seq<u8>>) -> Seq<u8>
    decreases ps.len(),
{
    if ps.len() == 0 {
        Seq::empty()
    } else {
        spec_encode(ps[0]) + spec_encode_all(ps.skip(1))
    }
}

/// Law: replay completeness at the codec — when a peer echoes every frame back
/// unchanged, the receiver sees the concatenation of the encoded payloads, and
/// decoding it yields exactly the original payloads in order.
pub proof fn lemma_replay_completeness(ps: Seq<Seq<u8>>)
    requires
        forall|i: int| 0 <= i < ps.len() ==> (#[trigger] ps[i]).len() <= MAX_PAYLOAD,
    ensures
        spec_decode(spec_encode_all(ps)) == Ok::<Seq<Seq<u8>>, FrameError>(ps),
    decreases ps.len(),
{
    if ps.len() == 0 {
        assert(spec_decode(spec_encode_all(ps)) == Ok::<Seq<Seq<u8>>, FrameError>(Seq::empty()));
        assert(ps =~= Seq::<Seq<u8>>::empty());
    } else {
        lemma_replay_completeness(ps.skip(1));
        lemma_decode_prefix(ps[0], spec_encode_all(ps.skip(1)));
        assert(seq![ps[0]] + ps.skip(1) =~= ps);
    }
}

} // verus!

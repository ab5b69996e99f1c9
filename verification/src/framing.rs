//! Length-prefixed frames.
//!
//! A frame is an eight-byte big-endian length followed by that many payload
//! bytes. The length zero is reserved: a prefix of zero is the sentinel that
//! ends a stream and carries no payload.

use vstd::prelude::*;
use vstd::slice::{slice_subrange, slice_to_vec};

verus! {

/// Width of the length prefix in bytes.
pub const PREFIX_LEN: usize = 8;

/// Why a frame could not be encoded or decoded.
#[derive(Debug, Clone, Copy, PartialEq, Eq, Structural)]
pub enum FrameError {
    /// The payload is empty; the length zero is reserved for the sentinel.
    EmptyPayload,
    /// The payload is longer than the bucket size.
    Oversized,
    /// The input ends inside the length prefix.
    TruncatedPrefix,
    /// The input ends inside the payload that the prefix announced.
    TruncatedPayload,
}

/// What one frame holds.
#[derive(Debug, Clone, PartialEq, Eq)]
pub enum Frame {
    /// The sentinel: the stream ends here.
    EndOfStream,
    /// A payload of at least one byte.
    Payload(Vec<u8>),
}

/// A decoded frame and the number of input bytes it occupied.
#[derive(Debug, Clone, PartialEq, Eq)]
pub struct Decoded {
    pub frame: Frame,
    pub consumed: usize,
}

/// The mathematical content of a frame: `None` for the sentinel.
impl View for Frame {
    type V = Option<Seq<u8>>;

    open spec fn view(&self) -> Option<Seq<u8>> {
        match self {
            Frame::EndOfStream => None,
            Frame::Payload(p) => Some(p@),
        }
    }
}

/// Byte `i` (0 is the most significant) of the big-endian form of `n`.
pub open spec fn spec_prefix_byte(n: u64, i: int) -> u8 {
    ((n >> ((8 * (7 - i)) as u64)) & 0xff) as u8
}

/// The eight bytes of `n`, most significant first.
pub open spec fn spec_length_prefix(n: u64) -> Seq<u8> {
    Seq::new(8, |i: int| spec_prefix_byte(n, i))
}

/// The number whose big-endian bytes are the first eight bytes of `s`.
pub open spec fn spec_prefix_value(s: Seq<u8>) -> u64
    recommends
        s.len() >= 8,
{
    ((s[0] as u64) << 56) | ((s[1] as u64) << 48) | ((s[2] as u64) << 40) | ((s[3] as u64) << 32)
        | ((s[4] as u64) << 24) | ((s[5] as u64) << 16) | ((s[6] as u64) << 8) | (s[7] as u64)
}

/// The wire form of a payload: its length, then its bytes.
pub open spec fn spec_encode(payload: Seq<u8>) -> Seq<u8> {
    spec_length_prefix(payload.len() as u64) + payload
}

/// The wire form of the sentinel.
pub open spec fn spec_sentinel() -> Seq<u8> {
    spec_length_prefix(0)
}

/// What decoding the front of `input` gives, for a receiver whose buffer holds
/// `bucket_size` bytes: the frame's content (`None` for the sentinel) and the
/// number of bytes it occupies.
pub open spec fn spec_decode(input: Seq<u8>, bucket_size: nat) -> Result<
    (Option<Seq<u8>>, nat),
    FrameError,
> {
    if input.len() < 8 {
        Err(FrameError::TruncatedPrefix)
    } else {
        let n = spec_prefix_value(input) as nat;
        if n == 0 {
            Ok((None, 8nat))
        } else if n > bucket_size {
            Err(FrameError::Oversized)
        } else if input.len() < 8 + n {
            Err(FrameError::TruncatedPayload)
        } else {
            Ok((Some(input.subrange(8, 8 + n as int)), 8 + n))
        }
    }
}

/// Decoding a length prefix gives back the number that was encoded.
pub proof fn lemma_prefix_round_trip(n: u64)
    ensures
        spec_length_prefix(n).len() == 8,
        spec_prefix_value(spec_length_prefix(n)) == n,
{
    let b0 = spec_prefix_byte(n, 0);
    let b1 = spec_prefix_byte(n, 1);
    let b2 = spec_prefix_byte(n, 2);
    let b3 = spec_prefix_byte(n, 3);
    let b4 = spec_prefix_byte(n, 4);
    let b5 = spec_prefix_byte(n, 5);
    let b6 = spec_prefix_byte(n, 6);
    let b7 = spec_prefix_byte(n, 7);
    assert(b0 == ((n >> 56u64) & 0xff) as u8);
    assert(b1 == ((n >> 48u64) & 0xff) as u8);
    assert(b2 == ((n >> 40u64) & 0xff) as u8);
    assert(b3 == ((n >> 32u64) & 0xff) as u8);
    assert(b4 == ((n >> 24u64) & 0xff) as u8);
    assert(b5 == ((n >> 16u64) & 0xff) as u8);
    assert(b6 == ((n >> 8u64) & 0xff) as u8);
    assert(b7 == ((n >> 0u64) & 0xff) as u8);
    assert(((((n >> 56u64) & 0xff) as u8 as u64) << 56) | ((((n >> 48u64) & 0xff) as u8 as u64)
        << 48) | ((((n >> 40u64) & 0xff) as u8 as u64) << 40) | ((((n >> 32u64) & 0xff) as u8
        as u64) << 32) | ((((n >> 24u64) & 0xff) as u8 as u64) << 24) | ((((n >> 16u64)
        & 0xff) as u8 as u64) << 16) | ((((n >> 8u64) & 0xff) as u8 as u64) << 8) | (((n
        >> 0u64) & 0xff) as u8 as u64) == n) by (bit_vector);
}

/// The value of a prefix is that of its bytes read as digits to the base 256,
/// most significant first.
pub proof fn lemma_prefix_value_is_positional(s: Seq<u8>)
    requires
        s.len() >= 8,
    ensures
        spec_prefix_value(s) == s[0] * 0x100_0000_0000_0000 + s[1] * 0x1_0000_0000_0000 + s[2]
            * 0x100_0000_0000 + s[3] * 0x1_0000_0000 + s[4] * 0x100_0000 + s[5] * 0x1_0000 + s[6]
            * 0x100 + s[7],
{
    let (a0, a1, a2, a3, a4, a5, a6, a7) = (s[0], s[1], s[2], s[3], s[4], s[5], s[6], s[7]);
    assert(((a0 as u64) << 56) | ((a1 as u64) << 48) | ((a2 as u64) << 40) | ((a3 as u64) << 32)
        | ((a4 as u64) << 24) | ((a5 as u64) << 16) | ((a6 as u64) << 8) | (a7 as u64) == a0
        * 0x100_0000_0000_0000 + a1 * 0x1_0000_0000_0000 + a2 * 0x100_0000_0000 + a3
        * 0x1_0000_0000 + a4 * 0x100_0000 + a5 * 0x1_0000 + a6 * 0x100 + a7) by (bit_vector);
}

/// Encoding the value of eight bytes gives the same eight bytes back.
pub proof fn lemma_value_round_trip(s: Seq<u8>)
    requires
        s.len() == 8,
    ensures
        spec_length_prefix(spec_prefix_value(s)) == s,
{
    let (a0, a1, a2, a3, a4, a5, a6, a7) = (s[0], s[1], s[2], s[3], s[4], s[5], s[6], s[7]);
    let n = spec_prefix_value(s);
    assert(n == ((a0 as u64) << 56) | ((a1 as u64) << 48) | ((a2 as u64) << 40) | ((a3 as u64)
        << 32) | ((a4 as u64) << 24) | ((a5 as u64) << 16) | ((a6 as u64) << 8) | (a7 as u64));
    assert(n == ((a0 as u64) << 56) | ((a1 as u64) << 48) | ((a2 as u64) << 40) | ((a3 as u64)
        << 32) | ((a4 as u64) << 24) | ((a5 as u64) << 16) | ((a6 as u64) << 8) | (a7 as u64)
        ==> {
        &&& ((n >> 56u64) & 0xff) as u8 == a0
        &&& ((n >> 48u64) & 0xff) as u8 == a1
        &&& ((n >> 40u64) & 0xff) as u8 == a2
        &&& ((n >> 32u64) & 0xff) as u8 == a3
        &&& ((n >> 24u64) & 0xff) as u8 == a4
        &&& ((n >> 16u64) & 0xff) as u8 == a5
        &&& ((n >> 8u64) & 0xff) as u8 == a6
        &&& ((n >> 0u64) & 0xff) as u8 == a7
    }) by (bit_vector);
    assert(spec_prefix_byte(n, 0) == a0);
    assert(spec_prefix_byte(n, 1) == a1);
    assert(spec_prefix_byte(n, 2) == a2);
    assert(spec_prefix_byte(n, 3) == a3);
    assert(spec_prefix_byte(n, 4) == a4);
    assert(spec_prefix_byte(n, 5) == a5);
    assert(spec_prefix_byte(n, 6) == a6);
    assert(spec_prefix_byte(n, 7) == a7);
    assert(spec_length_prefix(n) =~= s);
}

/// The eight-byte big-endian form of `n`.
pub fn length_prefix(n: u64) -> (r: [u8; 8])
    ensures
        r@ == spec_length_prefix(n),
{
    let b0: u64 = (n >> 56) & 0xff;
    let b1: u64 = (n >> 48) & 0xff;
    let b2: u64 = (n >> 40) & 0xff;
    let b3: u64 = (n >> 32) & 0xff;
    let b4: u64 = (n >> 24) & 0xff;
    let b5: u64 = (n >> 16) & 0xff;
    let b6: u64 = (n >> 8) & 0xff;
    let b7: u64 = n & 0xff;
    assert(b0 < 256 && b1 < 256 && b2 < 256 && b3 < 256 && b4 < 256 && b5 < 256 && b6 < 256 && b7
        < 256) by (bit_vector)
        requires
            b0 == (n >> 56) & 0xff,
            b1 == (n >> 48) & 0xff,
            b2 == (n >> 40) & 0xff,
            b3 == (n >> 32) & 0xff,
            b4 == (n >> 24) & 0xff,
            b5 == (n >> 16) & 0xff,
            b6 == (n >> 8) & 0xff,
            b7 == n & 0xff,
    ;
    assert(n & 0xff == (n >> 0u64) & 0xff) by (bit_vector);
    let r: [u8; 8] = [
        b0 as u8,
        b1 as u8,
        b2 as u8,
        b3 as u8,
        b4 as u8,
        b5 as u8,
        b6 as u8,
        b7 as u8,
    ];
    assert(r@ =~= spec_length_prefix(n));
    r
}

/// The length that the first eight bytes of `p` announce.
pub fn prefix_value(p: &[u8]) -> (n: u64)
    requires
        p@.len() >= 8,
    ensures
        n == spec_prefix_value(p@),
{
    ((p[0] as u64) << 56) | ((p[1] as u64) << 48) | ((p[2] as u64) << 40) | ((p[3] as u64) << 32)
        | ((p[4] as u64) << 24) | ((p[5] as u64) << 16) | ((p[6] as u64) << 8) | (p[7] as u64)
}

/// Encodes one payload for a receiver whose buffer holds `bucket_size` bytes.
///
/// An empty payload is refused, because its length would read as the
/// sentinel; a payload longer than `bucket_size` is refused rather than cut.
pub fn encode(payload: &[u8], bucket_size: usize) -> (r: Result<Vec<u8>, FrameError>)
    ensures
        r is Ok <==> 1 <= payload@.len() <= bucket_size,
        r is Ok ==> r->Ok_0@ == spec_encode(payload@),
        payload@.len() == 0 ==> r == Err::<Vec<u8>, FrameError>(FrameError::EmptyPayload),
        payload@.len() > bucket_size ==> r == Err::<Vec<u8>, FrameError>(FrameError::Oversized),
{
    let len: usize = payload.len();
    if len == 0 {
        return Err(FrameError::EmptyPayload);
    }
    if len > bucket_size {
        return Err(FrameError::Oversized);
    }
    let prefix = length_prefix(len as u64);
    let mut out = slice_to_vec(prefix.as_slice());
    let mut body = slice_to_vec(payload);
    out.append(&mut body);
    assert(out@ =~= spec_encode(payload@));
    Ok(out)
}

/// The sentinel frame: a prefix of zero and nothing else.
pub fn sentinel() -> (r: Vec<u8>)
    ensures
        r@ == spec_sentinel(),
{
    let prefix = length_prefix(0);
    slice_to_vec(prefix.as_slice())
}

/// Decodes the frame at the front of `input`.
///
/// A prefix of zero is the end of the stream and occupies the prefix alone. A
/// prefix above `bucket_size` is refused. Input that stops inside the prefix
/// or inside the payload is reported as truncated, never as a complete frame.
pub fn decode(input: &[u8], bucket_size: usize) -> (r: Result<Decoded, FrameError>)
    ensures
        match spec_decode(input@, bucket_size as nat) {
            Ok((content, consumed)) => r is Ok && r->Ok_0.frame@ == content && r->Ok_0.consumed
                == consumed,
            Err(e) => r == Err::<Decoded, FrameError>(e),
        },
{
    if input.len() < PREFIX_LEN {
        return Err(FrameError::TruncatedPrefix);
    }
    let n: u64 = prefix_value(input);
    if n == 0 {
        return Ok(Decoded { frame: Frame::EndOfStream, consumed: PREFIX_LEN });
    }
    if n > bucket_size as u64 {
        return Err(FrameError::Oversized);
    }
    let len: usize = n as usize;
    if input.len() - PREFIX_LEN < len {
        return Err(FrameError::TruncatedPayload);
    }
    let payload = slice_to_vec(slice_subrange(input, PREFIX_LEN, PREFIX_LEN + len));
    Ok(Decoded { frame: Frame::Payload(payload), consumed: PREFIX_LEN + len })
}

/// A frame that was encoded decodes to the payload it was made from, whatever
/// follows it on the wire, and occupies exactly the prefix and the payload.
pub proof fn lemma_decode_encode(payload: Seq<u8>, rest: Seq<u8>, bucket_size: nat)
    requires
        1 <= payload.len() <= bucket_size,
        payload.len() <= u64::MAX,
    ensures
        spec_decode(spec_encode(payload) + rest, bucket_size) == Ok::<
            (Option<Seq<u8>>, nat),
            FrameError,
        >((Some(payload), 8 + payload.len())),
{
    let n = payload.len() as u64;
    let wire = spec_encode(payload) + rest;
    lemma_prefix_round_trip(n);
    lemma_prefix_reads_front(spec_length_prefix(n), payload + rest);
    assert(wire =~= spec_length_prefix(n) + (payload + rest));
    assert(wire.subrange(8, 8 + payload.len() as int) =~= payload);
}

/// The sentinel decodes to the end of the stream and occupies the prefix
/// alone: none of the bytes that follow it are touched.
pub proof fn lemma_decode_sentinel(rest: Seq<u8>, bucket_size: nat)
    ensures
        spec_decode(spec_sentinel() + rest, bucket_size) == Ok::<
            (Option<Seq<u8>>, nat),
            FrameError,
        >((None, 8nat)),
{
    lemma_prefix_round_trip(0);
    lemma_prefix_reads_front(spec_length_prefix(0), rest);
}

/// The value of a prefix depends on its eight bytes only, not on what follows.
pub proof fn lemma_prefix_reads_front(prefix: Seq<u8>, rest: Seq<u8>)
    requires
        prefix.len() == 8,
    ensures
        spec_prefix_value(prefix + rest) == spec_prefix_value(prefix),
{
    let s = prefix + rest;
    assert(s[0] == prefix[0] && s[1] == prefix[1] && s[2] == prefix[2] && s[3] == prefix[3]);
    assert(s[4] == prefix[4] && s[5] == prefix[5] && s[6] == prefix[6] && s[7] == prefix[7]);
}

/// The counters of a whole stream of frames.
#[derive(Debug, Clone, Copy, PartialEq, Eq, Structural)]
pub struct StreamTotals {
    /// Payload frames in the stream.
    pub frames: u64,
    /// Payload bytes in those frames.
    pub bytes: u128,
    /// Bytes of input that the frames and the sentinel occupy.
    pub consumed: usize,
    /// Whether the stream ended with the sentinel, rather than by running
    /// out at a frame boundary.
    pub sentinel: bool,
}

/// The counters of a stream as plain numbers.
pub ghost struct StreamTotalsView {
    pub frames: nat,
    pub bytes: nat,
    pub consumed: nat,
    pub sentinel: bool,
}

impl View for StreamTotals {
    type V = StreamTotalsView;

    open spec fn view(&self) -> StreamTotalsView {
        StreamTotalsView {
            frames: self.frames as nat,
            bytes: self.bytes as nat,
            consumed: self.consumed as nat,
            sentinel: self.sentinel,
        }
    }
}

/// What reading `input` frame by frame gives. The stream ends at the
/// sentinel, or in good order where the input runs out at a frame boundary;
/// what follows the sentinel is not looked at. Input that stops inside a
/// frame is an error, as is a frame too large for the bucket.
pub open spec fn spec_decode_stream(input: Seq<u8>, bucket_size: nat) -> Result<
    StreamTotalsView,
    FrameError,
>
    decreases input.len(),
{
    if input.len() == 0 {
        Ok(StreamTotalsView { frames: 0, bytes: 0, consumed: 0, sentinel: false })
    } else {
        match spec_decode(input, bucket_size) {
            Err(e) => Err(e),
            Ok((None, used)) => Ok(
                StreamTotalsView { frames: 0, bytes: 0, consumed: used, sentinel: true },
            ),
            Ok((Some(payload), used)) => if 0 < used <= input.len() {
                match spec_decode_stream(input.skip(used as int), bucket_size) {
                    Err(e) => Err(e),
                    Ok(rest) => Ok(
                        StreamTotalsView {
                            frames: rest.frames + 1,
                            bytes: rest.bytes + payload.len(),
                            consumed: rest.consumed + used,
                            sentinel: rest.sentinel,
                        },
                    ),
                }
            } else {
                Err(FrameError::TruncatedPayload)
            },
        }
    }
}

/// The wire form of a stream that carries `payloads` in turn and then the
/// sentinel.
pub open spec fn spec_wire(payloads: Seq<Seq<u8>>) -> Seq<u8>
    decreases payloads.len(),
{
    if payloads.len() == 0 {
        spec_sentinel()
    } else {
        spec_encode(payloads[0]) + spec_wire(payloads.drop_first())
    }
}

/// The lengths of `payloads`, added up.
pub open spec fn spec_payload_bytes(payloads: Seq<Seq<u8>>) -> nat
    decreases payloads.len(),
{
    if payloads.len() == 0 {
        0
    } else {
        payloads[0].len() + spec_payload_bytes(payloads.drop_first())
    }
}

/// The length of the payload that the frame at the front of `input`
/// announces, zero for the sentinel, without copying it.
pub fn peek(input: &[u8], bucket_size: usize) -> (r: Result<usize, FrameError>)
    ensures
        match spec_decode(input@, bucket_size as nat) {
            Ok((content, consumed)) => r is Ok && consumed == 8 + r->Ok_0 && (content is None <==> r->Ok_0
                == 0) && (content is Some ==> content->Some_0.len() == r->Ok_0),
            Err(e) => r == Err::<usize, FrameError>(e),
        },
{
    if input.len() < PREFIX_LEN {
        return Err(FrameError::TruncatedPrefix);
    }
    let n: u64 = prefix_value(input);
    if n == 0 {
        return Ok(0);
    }
    if n > bucket_size as u64 {
        return Err(FrameError::Oversized);
    }
    let len: usize = n as usize;
    if input.len() - PREFIX_LEN < len {
        return Err(FrameError::TruncatedPayload);
    }
    Ok(len)
}

/// Reads `input` frame by frame up to the sentinel and adds up the frames.
pub fn decode_stream(input: &[u8], bucket_size: usize) -> (r: Result<StreamTotals, FrameError>)
    ensures
        match spec_decode_stream(input@, bucket_size as nat) {
            Ok(totals) => r is Ok && r->Ok_0@ == totals,
            Err(e) => r == Err::<StreamTotals, FrameError>(e),
        },
{
    let mut frames: u64 = 0;
    let mut bytes: u128 = 0;
    let mut pos: usize = 0;
    assert(input@.skip(0) =~= input@);
    while pos < input.len()
        invariant
            pos <= input@.len(),
            frames <= pos,
            bytes <= pos,
            match spec_decode_stream(input@.skip(pos as int), bucket_size as nat) {
                Ok(rest) => spec_decode_stream(input@, bucket_size as nat) == Ok::<
                    StreamTotalsView,
                    FrameError,
                >(
                    StreamTotalsView {
                        frames: rest.frames + frames as nat,
                        bytes: rest.bytes + bytes as nat,
                        consumed: rest.consumed + pos as nat,
                        sentinel: rest.sentinel,
                    },
                ),
                Err(e) => spec_decode_stream(input@, bucket_size as nat) == Err::<
                    StreamTotalsView,
                    FrameError,
                >(e),
            },
        decreases input@.len() - pos,
    {
        let rest = slice_subrange(input, pos, input.len());
        assert(rest@ =~= input@.skip(pos as int));
        match peek(rest, bucket_size) {
            Err(e) => {
                return Err(e);
            },
            Ok(len) => {
                if len == 0 {
                    return Ok(
                        StreamTotals { frames, bytes, consumed: pos + PREFIX_LEN, sentinel: true },
                    );
                }
                assert(input@.skip(pos as int).skip(8 + len as int) =~= input@.skip(
                    pos + 8 + len,
                ));
                frames = frames + 1;
                bytes = bytes + len as u128;
                pos = pos + PREFIX_LEN + len;
            },
        }
    }
    assert(input@.skip(pos as int).len() == 0);
    Ok(StreamTotals { frames, bytes, consumed: pos, sentinel: false })
}

/// A stream that carries payloads which all fit the bucket is read back in
/// full: the reader finds the sentinel, counts every payload, and adds up
/// exactly their bytes; what follows the sentinel is left alone.
pub proof fn lemma_stream_round_trip(payloads: Seq<Seq<u8>>, rest: Seq<u8>, bucket_size: nat)
    requires
        bucket_size <= u64::MAX,
        forall|i: int| 0 <= i < payloads.len() ==> 1 <= (#[trigger] payloads[i]).len() <= bucket_size,
    ensures
        spec_decode_stream(spec_wire(payloads) + rest, bucket_size) == Ok::<
            StreamTotalsView,
            FrameError,
        >(
            StreamTotalsView {
                frames: payloads.len(),
                bytes: spec_payload_bytes(payloads),
                consumed: spec_wire(payloads).len(),
                sentinel: true,
            },
        ),
    decreases payloads.len(),
{
    let wire = spec_wire(payloads) + rest;
    if payloads.len() == 0 {
        lemma_prefix_round_trip(0);
        lemma_decode_sentinel(rest, bucket_size);
    } else {
        let first = payloads[0];
        let others = payloads.drop_first();
        let tail = spec_wire(others) + rest;
        lemma_prefix_round_trip(first.len() as u64);
        lemma_decode_encode(first, tail, bucket_size);
        assert(wire =~= spec_encode(first) + tail);
        assert(wire.skip(8 + first.len() as int) =~= tail);
        assert forall|i: int| 0 <= i < others.len() implies 1 <= (#[trigger] others[i]).len()
            <= bucket_size by {
            assert(others[i] == payloads[i + 1]);
        }
        lemma_stream_round_trip(others, rest, bucket_size);
    }
}

} // verus!

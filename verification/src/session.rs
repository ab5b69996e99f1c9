//! The two roles of a stream session.
//!
//! A sender emits a fixed number of frames of one size and then the sentinel.
//! A receiver reads frames until the sentinel and adds up what it read. Both
//! are written as state machines: they say what to do next, and the caller
//! performs it on whatever transport it has.

use vstd::prelude::*;
use crate::driver::{IoFailure, Progress, Verdict};
use crate::framing::{
    lemma_prefix_round_trip, lemma_stream_round_trip, prefix_value, spec_decode_stream,
    spec_length_prefix, spec_payload_bytes, spec_prefix_value, spec_wire, FrameError,
    StreamTotalsView,
};

verus! {

/// Why a session could not start or did not run to its end.
#[derive(Debug, Clone, Copy, PartialEq, Eq, Structural)]
pub enum SessionError {
    /// The bucket size is zero, so every frame would read as the sentinel.
    EmptyBucket,
    /// A prefix announced more bytes than the bucket holds.
    Oversized,
    /// The stream ended inside a length prefix.
    TruncatedPrefix,
    /// The stream ended after a prefix and before the end of its payload.
    TruncatedPayload,
    /// The transport failed; the code is the one the caller reported.
    Transport(i32),
    /// More frames arrived than the frame counter can hold.
    TooManyFrames,
}

/// The counters of one finished session.
#[derive(Debug, Clone, Copy, PartialEq, Eq, Structural)]
pub struct BenchmarkRun {
    /// Payload bytes transferred; prefixes and the sentinel do not count.
    pub total_bytes: u128,
    /// Payload frames transferred.
    pub frames: u64,
    /// Wall-clock time of the whole session, in nanoseconds.
    pub elapsed_nanos: u128,
}

impl BenchmarkRun {
    /// Whole bytes per second, where that can be computed.
    pub open spec fn spec_bytes_per_second(self) -> Option<u128> {
        if self.elapsed_nanos == 0 || self.total_bytes * 1_000_000_000 > u128::MAX {
            None
        } else {
            Some(((self.total_bytes * 1_000_000_000) / (self.elapsed_nanos as int)) as u128)
        }
    }

    /// Throughput in whole bytes per second, rounded down. `None` when no time
    /// has passed, or when the byte count is so large that the scaled value
    /// does not fit.
    pub fn bytes_per_second(&self) -> (r: Option<u128>)
        ensures
            r == self.spec_bytes_per_second(),
    {
        if self.elapsed_nanos == 0 {
            return None;
        }
        match self.total_bytes.checked_mul(1_000_000_000) {
            None => None,
            Some(scaled) => Some(scaled / self.elapsed_nanos),
        }
    }
}

/// What a sender does next.
#[derive(Debug, Clone, Copy, PartialEq, Eq, Structural)]
pub enum SenderAction {
    /// Send one frame whose payload has this many bytes.
    SendFrame(usize),
    /// Send the sentinel.
    SendSentinel,
    /// Nothing is left to send.
    Finish,
}

/// The sending role: `repeat` frames of `bucket_size` bytes, then the sentinel.
#[derive(Debug, Clone, Copy)]
pub struct Sender {
    bucket_size: usize,
    repeat: u64,
    sent: u64,
    closed: bool,
}

/// The state of a sender as plain numbers.
pub ghost struct SenderView {
    pub bucket_size: nat,
    pub repeat: nat,
    /// Frames sent so far.
    pub sent: nat,
    /// Whether the sentinel has been sent.
    pub closed: bool,
}

impl View for Sender {
    type V = SenderView;

    closed spec fn view(&self) -> SenderView {
        SenderView {
            bucket_size: self.bucket_size as nat,
            repeat: self.repeat as nat,
            sent: self.sent as nat,
            closed: self.closed,
        }
    }
}

/// The action that a sender in state `v` takes next.
pub open spec fn spec_sender_action(v: SenderView) -> SenderAction {
    if v.sent < v.repeat {
        SenderAction::SendFrame(v.bucket_size as usize)
    } else if !v.closed {
        SenderAction::SendSentinel
    } else {
        SenderAction::Finish
    }
}

/// The state of a sender after it has carried out its next action.
pub open spec fn spec_sender_after(v: SenderView) -> SenderView {
    if v.sent < v.repeat {
        SenderView { sent: v.sent + 1, ..v }
    } else {
        SenderView { closed: true, ..v }
    }
}

impl Sender {
    /// The frames are not empty, no more than `repeat` were sent, and the
    /// sentinel went out only after the last of them.
    pub open spec fn wf(&self) -> bool {
        &&& 0 < self@.bucket_size <= usize::MAX
        &&& self@.sent <= self@.repeat <= u64::MAX
        &&& self@.closed ==> self@.sent == self@.repeat
    }

    /// A sender of `repeat` frames of `bucket_size` bytes each. A bucket size
    /// of zero is refused: such a frame would be taken for the sentinel.
    pub fn new(bucket_size: usize, repeat: u64) -> (r: Result<Sender, SessionError>)
        ensures
            r is Err <==> bucket_size == 0,
            r is Err ==> r->Err_0 == SessionError::EmptyBucket,
            r is Ok ==> r->Ok_0.wf() && r->Ok_0@ == (SenderView {
                bucket_size: bucket_size as nat,
                repeat: repeat as nat,
                sent: 0,
                closed: false,
            }),
    {
        if bucket_size == 0 {
            Err(SessionError::EmptyBucket)
        } else {
            Ok(Sender { bucket_size, repeat, sent: 0, closed: false })
        }
    }

    /// What to do next.
    pub fn next_action(&self) -> (r: SenderAction)
        requires
            self.wf(),
        ensures
            r == spec_sender_action(self@),
    {
        if self.sent < self.repeat {
            SenderAction::SendFrame(self.bucket_size)
        } else if !self.closed {
            SenderAction::SendSentinel
        } else {
            SenderAction::Finish
        }
    }

    /// Records that the action of `next_action` was carried out in full.
    pub fn completed(&mut self)
        requires
            old(self).wf(),
        ensures
            final(self).wf(),
            final(self)@ == spec_sender_after(old(self)@),
    {
        if self.sent < self.repeat {
            self.sent = self.sent + 1;
        } else {
            self.closed = true;
        }
    }

    /// Frames sent so far: it counts up from zero to `repeat`.
    pub fn progress(&self) -> (r: u64)
        ensures
            r == self@.sent,
    {
        self.sent
    }

    /// Payload bytes sent so far; the sentinel adds nothing.
    pub fn total_bytes(&self) -> (r: u128)
        ensures
            r == self@.sent * self@.bucket_size,
    {
        let frames: u128 = self.sent as u128;
        let size: u128 = self.bucket_size as u128;
        assert(frames * size <= u128::MAX) by (nonlinear_arith)
            requires
                frames <= 0xffff_ffff_ffff_ffff,
                size <= 0xffff_ffff_ffff_ffff,
        ;
        frames * size
    }

    /// The counters of the session, once the sentinel has gone out; `None`
    /// before that. The byte total is `repeat` times `bucket_size`.
    pub fn finish(&self, elapsed_nanos: u128) -> (r: Option<BenchmarkRun>)
        requires
            self.wf(),
        ensures
            r is Some <==> self@.closed,
            r is Some ==> r->Some_0 == (BenchmarkRun {
                total_bytes: (self@.repeat * self@.bucket_size) as u128,
                frames: self@.repeat as u64,
                elapsed_nanos,
            }) && r->Some_0.total_bytes == self@.repeat * self@.bucket_size,
    {
        if self.closed {
            Some(BenchmarkRun { total_bytes: self.total_bytes(), frames: self.sent, elapsed_nanos })
        } else {
            None
        }
    }
}

/// How one full-buffer read ended.
#[derive(Debug, Clone, Copy, PartialEq, Eq, Structural)]
pub enum ReadOutcome {
    /// The buffer was filled.
    Filled,
    /// The peer shut down after this many bytes of the buffer.
    Eof(usize),
    /// The transport failed with this code.
    Fatal(i32),
}

/// The outcome of a read that the driver has brought to `(p, v)`; `None`
/// while the read is still under way.
pub open spec fn spec_read_outcome(p: Progress, v: Verdict) -> Option<ReadOutcome> {
    match v {
        Verdict::Again => None,
        Verdict::Complete => Some(ReadOutcome::Filled),
        Verdict::Failed(IoFailure::Fatal(code)) => Some(ReadOutcome::Fatal(code)),
        Verdict::Failed(_) => Some(ReadOutcome::Eof(p.done)),
    }
}

/// Turns the driver's last state of a read into what the receiver is told.
pub fn read_outcome(p: Progress, v: Verdict) -> (r: Option<ReadOutcome>)
    ensures
        r == spec_read_outcome(p, v),
{
    match v {
        Verdict::Again => None,
        Verdict::Complete => Some(ReadOutcome::Filled),
        Verdict::Failed(IoFailure::Fatal(code)) => Some(ReadOutcome::Fatal(code)),
        Verdict::Failed(_) => Some(ReadOutcome::Eof(p.done)),
    }
}

/// Where a receiver stands.
#[derive(Debug, Clone, Copy, PartialEq, Eq, Structural)]
pub enum ReceiverPhase {
    /// At a frame boundary: a length prefix comes next.
    AwaitPrefix,
    /// A prefix announced a payload of this many bytes, which comes next.
    AwaitPayload(usize),
    /// The sentinel was read: the stream is complete.
    SawSentinel,
    /// The peer shut down at a frame boundary: the stream is complete.
    PeerClosed,
    /// The session was aborted.
    Failed(SessionError),
}

/// What a receiver does next.
#[derive(Debug, Clone, Copy, PartialEq, Eq, Structural)]
pub enum ReceiverAction {
    /// Read the eight bytes of a length prefix.
    ReadPrefix,
    /// Read a payload of this many bytes into the bucket.
    ReadPayload(usize),
    /// The session is over.
    Finish,
}

/// The receiving role: reads frames until the sentinel and adds them up.
#[derive(Debug, Clone, Copy)]
pub struct Receiver {
    bucket_size: usize,
    frames: u64,
    bytes: u128,
    phase: ReceiverPhase,
}

/// The state of a receiver as plain numbers.
pub ghost struct ReceiverView {
    pub bucket_size: nat,
    /// Payload frames read in full.
    pub frames: nat,
    /// Payload bytes of those frames.
    pub bytes: nat,
    pub phase: ReceiverPhase,
}

impl View for Receiver {
    type V = ReceiverView;

    closed spec fn view(&self) -> ReceiverView {
        ReceiverView {
            bucket_size: self.bucket_size as nat,
            frames: self.frames as nat,
            bytes: self.bytes as nat,
            phase: self.phase,
        }
    }
}

/// The action that a receiver in state `v` takes next.
pub open spec fn spec_receiver_action(v: ReceiverView) -> ReceiverAction {
    match v.phase {
        ReceiverPhase::AwaitPrefix => ReceiverAction::ReadPrefix,
        ReceiverPhase::AwaitPayload(n) => ReceiverAction::ReadPayload(n),
        _ => ReceiverAction::Finish,
    }
}

/// The state of a receiver in state `v` after the read it asked for ended with
/// `outcome`, where `buf` is the buffer that the read filled.
///
/// At a frame boundary, a prefix of zero ends the stream, a prefix above the
/// bucket size is refused, and a shutdown of the peer before the first byte
/// ends the stream in good order. A shutdown anywhere else is a violation of
/// the protocol. A frame counts once its payload has been read in full.
pub open spec fn spec_receiver_step(v: ReceiverView, outcome: ReadOutcome, buf: Seq<u8>) -> ReceiverView {
    match v.phase {
        ReceiverPhase::AwaitPrefix => match outcome {
            ReadOutcome::Filled => {
                let n = spec_prefix_value(buf);
                if n == 0 {
                    ReceiverView { phase: ReceiverPhase::SawSentinel, ..v }
                } else if n > v.bucket_size {
                    ReceiverView { phase: ReceiverPhase::Failed(SessionError::Oversized), ..v }
                } else {
                    ReceiverView { phase: ReceiverPhase::AwaitPayload(n as usize), ..v }
                }
            },
            ReadOutcome::Eof(filled) => if filled == 0 {
                ReceiverView { phase: ReceiverPhase::PeerClosed, ..v }
            } else {
                ReceiverView { phase: ReceiverPhase::Failed(SessionError::TruncatedPrefix), ..v }
            },
            ReadOutcome::Fatal(code) => ReceiverView {
                phase: ReceiverPhase::Failed(SessionError::Transport(code)),
                ..v
            },
        },
        ReceiverPhase::AwaitPayload(n) => match outcome {
            ReadOutcome::Filled => if v.frames >= u64::MAX {
                ReceiverView { phase: ReceiverPhase::Failed(SessionError::TooManyFrames), ..v }
            } else {
                ReceiverView {
                    frames: v.frames + 1,
                    bytes: v.bytes + n as nat,
                    phase: ReceiverPhase::AwaitPrefix,
                    ..v
                }
            },
            ReadOutcome::Eof(_) => ReceiverView {
                phase: ReceiverPhase::Failed(SessionError::TruncatedPayload),
                ..v
            },
            ReadOutcome::Fatal(code) => ReceiverView {
                phase: ReceiverPhase::Failed(SessionError::Transport(code)),
                ..v
            },
        },
        _ => v,
    }
}

impl Receiver {
    /// An announced payload fits the bucket and is not empty, and the byte
    /// total is that of at most `frames` full buckets.
    pub open spec fn wf(&self) -> bool {
        &&& self@.bucket_size <= usize::MAX
        &&& self@.frames <= u64::MAX
        &&& self@.bytes <= self@.frames * self@.bucket_size
        &&& self@.phase matches ReceiverPhase::AwaitPayload(n) ==> 1 <= n <= self@.bucket_size
    }

    /// A receiver at the start of a stream, with a bucket of `bucket_size`
    /// bytes.
    pub fn new(bucket_size: usize) -> (r: Receiver)
        ensures
            r.wf(),
            r@ == (ReceiverView {
                bucket_size: bucket_size as nat,
                frames: 0,
                bytes: 0,
                phase: ReceiverPhase::AwaitPrefix,
            }),
    {
        Receiver { bucket_size, frames: 0, bytes: 0, phase: ReceiverPhase::AwaitPrefix }
    }

    /// A receiver at a frame boundary of a stream of which `frames` frames
    /// with `bytes` bytes were read before. `None` if so many frames cannot
    /// have held so many bytes with this bucket.
    pub fn resume(bucket_size: usize, frames: u64, bytes: u128) -> (r: Option<Receiver>)
        ensures
            r is Some <==> bytes <= frames * bucket_size,
            r is Some ==> r->Some_0.wf() && r->Some_0@ == (ReceiverView {
                bucket_size: bucket_size as nat,
                frames: frames as nat,
                bytes: bytes as nat,
                phase: ReceiverPhase::AwaitPrefix,
            }),
    {
        let count: u128 = frames as u128;
        let size: u128 = bucket_size as u128;
        assert(count * size <= u128::MAX) by (nonlinear_arith)
            requires
                count <= 0xffff_ffff_ffff_ffff,
                size <= 0xffff_ffff_ffff_ffff,
        ;
        if bytes <= count * size {
            Some(Receiver { bucket_size, frames, bytes, phase: ReceiverPhase::AwaitPrefix })
        } else {
            None
        }
    }

    /// What to do next.
    pub fn next_action(&self) -> (r: ReceiverAction)
        ensures
            r == spec_receiver_action(self@),
    {
        match self.phase {
            ReceiverPhase::AwaitPrefix => ReceiverAction::ReadPrefix,
            ReceiverPhase::AwaitPayload(n) => ReceiverAction::ReadPayload(n),
            _ => ReceiverAction::Finish,
        }
    }

    /// Takes the outcome of the read that `next_action` asked for. `buf` is
    /// the buffer that was read into; after a filled prefix it holds the
    /// prefix.
    pub fn on_read(&mut self, outcome: ReadOutcome, buf: &[u8])
        requires
            old(self).wf(),
            old(self)@.phase is AwaitPrefix && outcome is Filled ==> buf@.len() >= 8,
        ensures
            final(self).wf(),
            final(self)@ == spec_receiver_step(old(self)@, outcome, buf@),
    {
        match self.phase {
            ReceiverPhase::AwaitPrefix => match outcome {
                ReadOutcome::Filled => {
                    let n: u64 = prefix_value(buf);
                    if n == 0 {
                        self.phase = ReceiverPhase::SawSentinel;
                    } else if n > self.bucket_size as u64 {
                        self.phase = ReceiverPhase::Failed(SessionError::Oversized);
                    } else {
                        self.phase = ReceiverPhase::AwaitPayload(n as usize);
                    }
                },
                ReadOutcome::Eof(filled) => {
                    if filled == 0 {
                        self.phase = ReceiverPhase::PeerClosed;
                    } else {
                        self.phase = ReceiverPhase::Failed(SessionError::TruncatedPrefix);
                    }
                },
                ReadOutcome::Fatal(code) => {
                    self.phase = ReceiverPhase::Failed(SessionError::Transport(code));
                },
            },
            ReceiverPhase::AwaitPayload(n) => match outcome {
                ReadOutcome::Filled => {
                    if self.frames == u64::MAX {
                        self.phase = ReceiverPhase::Failed(SessionError::TooManyFrames);
                    } else {
                        let ghost frames = self.frames as int;
                        let ghost bucket = self.bucket_size as int;
                        assert((frames + 1) * bucket == frames * bucket + bucket
                            && (frames + 1) * bucket <= 0xffff_ffff_ffff_ffff
                            * 0xffff_ffff_ffff_ffff) by (nonlinear_arith)
                            requires
                                0 <= frames < 0xffff_ffff_ffff_ffff,
                                0 <= bucket <= 0xffff_ffff_ffff_ffff,
                        ;
                        self.frames = self.frames + 1;
                        self.bytes = self.bytes + n as u128;
                        self.phase = ReceiverPhase::AwaitPrefix;
                    }
                },
                ReadOutcome::Eof(_) => {
                    self.phase = ReceiverPhase::Failed(SessionError::TruncatedPayload);
                },
                ReadOutcome::Fatal(code) => {
                    self.phase = ReceiverPhase::Failed(SessionError::Transport(code));
                },
            },
            _ => {},
        }
    }

    /// Where the receiver stands.
    pub fn phase(&self) -> (r: ReceiverPhase)
        ensures
            r == self@.phase,
    {
        self.phase
    }

    /// Payload frames read in full so far.
    pub fn frames(&self) -> (r: u64)
        ensures
            r == self@.frames,
    {
        self.frames
    }

    /// Payload bytes read so far.
    pub fn total_bytes(&self) -> (r: u128)
        ensures
            r == self@.bytes,
    {
        self.bytes
    }

    /// The result of the session: `None` while frames are still expected, the
    /// counters once the stream is complete, the error if it was aborted.
    pub fn finish(&self, elapsed_nanos: u128) -> (r: Option<Result<BenchmarkRun, SessionError>>)
        ensures
            r == match self@.phase {
                ReceiverPhase::AwaitPrefix | ReceiverPhase::AwaitPayload(_) => None,
                ReceiverPhase::Failed(e) => Some(Err(e)),
                _ => Some(
                    Ok(
                        BenchmarkRun {
                            total_bytes: self@.bytes as u128,
                            frames: self@.frames as u64,
                            elapsed_nanos,
                        },
                    ),
                ),
            },
    {
        match self.phase {
            ReceiverPhase::AwaitPrefix | ReceiverPhase::AwaitPayload(_) => None,
            ReceiverPhase::Failed(e) => Some(Err(e)),
            _ => Some(
                Ok(BenchmarkRun { total_bytes: self.bytes, frames: self.frames, elapsed_nanos }),
            ),
        }
    }
}

/// The state of a receiver that starts in `v` and is told of `reads` in turn,
/// each an outcome with the buffer it read into.
pub open spec fn spec_receiver_run(v: ReceiverView, reads: Seq<(ReadOutcome, Seq<u8>)>) -> ReceiverView
    decreases reads.len(),
{
    if reads.len() == 0 {
        v
    } else {
        spec_receiver_run(spec_receiver_step(v, reads[0].0, reads[0].1), reads.drop_first())
    }
}

/// The reads that a receiver completes on the stream of a sender that sends
/// `repeat` frames of `bucket_size` bytes and then the sentinel: for each
/// frame its prefix and its payload, and at last the prefix of zero.
pub open spec fn spec_reads_of_sender(repeat: nat, bucket_size: usize) -> Seq<(ReadOutcome, Seq<u8>)>
    decreases repeat,
{
    if repeat == 0 {
        seq![(ReadOutcome::Filled, spec_length_prefix(0))]
    } else {
        seq![
            (ReadOutcome::Filled, spec_length_prefix(bucket_size as u64)),
            (ReadOutcome::Filled, Seq::new(bucket_size as nat, |i: int| 0u8)),
        ] + spec_reads_of_sender((repeat - 1) as nat, bucket_size)
    }
}

/// A receiver at a frame boundary that reads what a sender of `repeat` frames
/// of `bucket_size` bytes has sent ends at the sentinel, with `repeat` more
/// frames and `repeat * bucket_size` more bytes than it had: the total that
/// the sender reports.
pub proof fn lemma_receiver_matches_sender(v: ReceiverView, repeat: nat, bucket_size: usize)
    requires
        v.phase is AwaitPrefix,
        1 <= bucket_size <= v.bucket_size,
        v.frames + repeat <= u64::MAX,
    ensures
        spec_receiver_run(v, spec_reads_of_sender(repeat, bucket_size)) == (ReceiverView {
            frames: v.frames + repeat,
            bytes: v.bytes + repeat * (bucket_size as nat),
            phase: ReceiverPhase::SawSentinel,
            ..v
        }),
    decreases repeat,
{
    let reads = spec_reads_of_sender(repeat, bucket_size);
    if repeat == 0 {
        lemma_prefix_round_trip(0);
        assert(reads.drop_first() =~= Seq::empty());
        let after = spec_receiver_step(v, reads[0].0, reads[0].1);
        assert(spec_receiver_run(after, reads.drop_first()) == after);
    } else {
        lemma_prefix_round_trip(bucket_size as u64);
        let rest = spec_reads_of_sender((repeat - 1) as nat, bucket_size);
        let v1 = spec_receiver_step(v, reads[0].0, reads[0].1);
        assert(v1.phase == ReceiverPhase::AwaitPayload(bucket_size));
        let tail = reads.drop_first();
        let v2 = spec_receiver_step(v1, tail[0].0, tail[0].1);
        assert(tail.drop_first() =~= rest);
        assert(spec_receiver_run(v, reads) == spec_receiver_run(v1, tail));
        assert(spec_receiver_run(v1, tail) == spec_receiver_run(v2, rest));
        lemma_receiver_matches_sender(v2, (repeat - 1) as nat, bucket_size);
        assert(v.bytes + bucket_size + (repeat - 1) * bucket_size == v.bytes + repeat
            * bucket_size) by (nonlinear_arith);
    }
}

/// Payloads of one size add up to their number times that size.
pub proof fn lemma_uniform_payload_bytes(payloads: Seq<Seq<u8>>, size: nat)
    requires
        forall|i: int| 0 <= i < payloads.len() ==> (#[trigger] payloads[i]).len() == size,
    ensures
        spec_payload_bytes(payloads) == payloads.len() * size,
    decreases payloads.len(),
{
    if payloads.len() > 0 {
        let others = payloads.drop_first();
        assert forall|i: int| 0 <= i < others.len() implies (#[trigger] others[i]).len()
            == size by {
            assert(others[i] == payloads[i + 1]);
        }
        lemma_uniform_payload_bytes(others, size);
        assert(size + (payloads.len() - 1) * size == payloads.len() * size)
            by (nonlinear_arith);
    } else {
        assert(payloads.len() * size == 0) by (nonlinear_arith)
            requires
                payloads.len() == 0,
        ;
    }
}

/// What a sender of `repeat` frames of `bucket_size` bytes puts on the wire,
/// whatever the payloads hold, is read back as `repeat` frames and
/// `repeat * bucket_size` bytes, followed by the sentinel, by any reader
/// whose bucket is at least as large.
pub proof fn lemma_sender_stream_totals(
    payloads: Seq<Seq<u8>>,
    bucket_size: nat,
    reader_bucket: nat,
)
    requires
        1 <= bucket_size <= reader_bucket <= u64::MAX,
        forall|i: int| 0 <= i < payloads.len() ==> (#[trigger] payloads[i]).len() == bucket_size,
    ensures
        spec_decode_stream(spec_wire(payloads), reader_bucket) == Ok::<
            StreamTotalsView,
            FrameError,
        >(
            StreamTotalsView {
                frames: payloads.len(),
                bytes: payloads.len() * bucket_size,
                consumed: spec_wire(payloads).len(),
                sentinel: true,
            },
        ),
{
    lemma_uniform_payload_bytes(payloads, bucket_size);
    lemma_stream_round_trip(payloads, Seq::empty(), reader_bucket);
    assert(spec_wire(payloads) + Seq::<u8>::empty() =~= spec_wire(payloads));
}

/// The state of a sender that starts in `v` and carries out `k` actions.
pub open spec fn spec_sender_run(v: SenderView, k: nat) -> SenderView
    decreases k,
{
    if k == 0 {
        v
    } else {
        spec_sender_after(spec_sender_run(v, (k - 1) as nat))
    }
}

/// The schedule of a sender that has sent nothing yet: its first `repeat`
/// actions each send a frame of `bucket_size` bytes, the next sends the
/// sentinel, and nothing is left after that. The bytes sent are the number
/// of frames sent times the bucket size throughout.
pub proof fn lemma_sender_schedule(v: SenderView, k: nat)
    requires
        v.sent == 0,
        !v.closed,
        v.bucket_size <= usize::MAX,
    ensures
        k < v.repeat ==> spec_sender_action(spec_sender_run(v, k)) == SenderAction::SendFrame(
            v.bucket_size as usize,
        ),
        k == v.repeat ==> spec_sender_action(spec_sender_run(v, k)) == SenderAction::SendSentinel,
        k > v.repeat ==> spec_sender_action(spec_sender_run(v, k)) == SenderAction::Finish,
        spec_sender_run(v, k) == (SenderView {
            sent: if k <= v.repeat {
                k
            } else {
                v.repeat
            },
            closed: k > v.repeat,
            ..v
        }),
    decreases k,
{
    if k > 0 {
        lemma_sender_schedule(v, (k - 1) as nat);
    }
}

} // verus!

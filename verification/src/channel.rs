//! A reliable, ordered channel on top of datagrams.
//!
//! The retransmission engine and the socket live with the caller. This module
//! holds what has to be decided around them: how the engine is configured, in
//! which order an initiator ticks, pushes, receives and feeds, when it moves
//! on to the next frame, and which datagrams a responder lets through to the
//! engine. A channel is bound to one peer for as long as it lives.

use vstd::prelude::*;
use crate::addr::PeerEndpoint;
use crate::driver::AttemptError;
use crate::session::BenchmarkRun;

verus! {

/// The conversation identifier that both ends use.
pub const CONVERSATION: u32 = 0x1122_3344;

/// An initiator moves on to its next frame once fewer packets than this are
/// waiting to be sent.
pub const LOW_WATER: usize = 1024;

/// The smallest transmission unit that the engine accepts.
pub const MIN_MTU: usize = 50;

/// The code under which an interrupted receive is reported as fatal.
pub const INTERRUPTED: i32 = 4;

/// A responder reports on every datagram whose count is a multiple of this.
pub const LOG_EVERY: u64 = 100_000;

/// Why a channel could not be set up or did not run to its end.
#[derive(Debug, Clone, Copy, PartialEq, Eq, Structural)]
pub enum ChannelError {
    /// The bucket size is zero.
    EmptyBucket,
    /// Twice the bucket size is not a transmission unit the engine accepts.
    InvalidMtu,
    /// The socket failed with this code.
    Socket(i32),
}

/// The settings of the retransmission engine.
#[derive(Debug, Clone, Copy, PartialEq, Eq, Structural)]
pub struct EngineConfig {
    pub conversation: u32,
    /// Whether the engine delivers a byte stream rather than messages.
    pub stream_mode: bool,
    pub send_window: u16,
    pub recv_window: u16,
    pub nodelay: bool,
    /// Interval of the engine's internal timer, in milliseconds.
    pub interval_ms: i32,
    pub resend: i32,
    pub no_congestion_control: bool,
    /// Fast-resend threshold, where one is set.
    pub fast_resend: Option<u32>,
    /// Transmission unit, where one is set.
    pub mtu: Option<usize>,
    /// Lower bound of the retransmission timeout, where one is set.
    pub min_rto: Option<u32>,
}

/// The settings of an initiator whose frames hold `bucket_size` bytes.
pub open spec fn spec_initiator_config(bucket_size: usize) -> EngineConfig {
    EngineConfig {
        conversation: CONVERSATION,
        stream_mode: false,
        send_window: 65535,
        recv_window: 65535,
        nodelay: true,
        interval_ms: 10,
        resend: 2,
        no_congestion_control: true,
        fast_resend: Some(1u32),
        mtu: Some((2 * bucket_size) as usize),
        min_rto: None,
    }
}

/// The settings of a responder.
pub open spec fn spec_responder_config() -> EngineConfig {
    EngineConfig {
        conversation: CONVERSATION,
        stream_mode: true,
        send_window: 128,
        recv_window: 128,
        nodelay: true,
        interval_ms: 10,
        resend: 2,
        no_congestion_control: true,
        fast_resend: None,
        mtu: None,
        min_rto: Some(10u32),
    }
}

/// The engine settings of an initiator: large windows, no delay, fast resend
/// after one duplicate acknowledgement, and a transmission unit of twice the
/// bucket size. Refused where that unit is below the engine's minimum or
/// cannot be represented.
pub fn initiator_config(bucket_size: usize) -> (r: Result<EngineConfig, ChannelError>)
    ensures
        r is Ok <==> MIN_MTU <= 2 * bucket_size <= usize::MAX,
        r is Ok ==> r->Ok_0 == spec_initiator_config(bucket_size),
        r is Err ==> r->Err_0 == ChannelError::InvalidMtu,
{
    match bucket_size.checked_mul(2) {
        Some(mtu) => {
            if mtu < MIN_MTU {
                Err(ChannelError::InvalidMtu)
            } else {
                Ok(
                    EngineConfig {
                        conversation: CONVERSATION,
                        stream_mode: false,
                        send_window: 65535,
                        recv_window: 65535,
                        nodelay: true,
                        interval_ms: 10,
                        resend: 2,
                        no_congestion_control: true,
                        fast_resend: Some(1u32),
                        mtu: Some(mtu),
                        min_rto: None,
                    },
                )
            }
        },
        None => Err(ChannelError::InvalidMtu),
    }
}

/// The engine settings of a responder: stream mode, windows of 128 packets, no
/// delay, and a retransmission timeout of at least ten milliseconds.
pub fn responder_config() -> (r: EngineConfig)
    ensures
        r == spec_responder_config(),
{
    EngineConfig {
        conversation: CONVERSATION,
        stream_mode: true,
        send_window: 128,
        recv_window: 128,
        nodelay: true,
        interval_ms: 10,
        resend: 2,
        no_congestion_control: true,
        fast_resend: None,
        mtu: None,
        min_rto: Some(10u32),
    }
}

/// The engine's clock for a wall-clock time in milliseconds: the time modulo
/// two to the power of 32.
pub fn engine_clock(millis: u128) -> (r: u32)
    ensures
        r == millis % 0x1_0000_0000,
{
    (millis % 0x1_0000_0000) as u32
}

/// What an initiator has just seen.
#[derive(Debug, Clone, Copy, PartialEq, Eq, Structural)]
pub enum PumpEvent {
    /// The engine took a frame of this many bytes into its send queue.
    Pushed(usize),
    /// A datagram of this many bytes arrived.
    Datagram(usize),
    /// No datagram is waiting; this many packets are waiting to be sent.
    WouldBlock(usize),
    /// The sentinel was pushed and the engine flushed.
    Flushed,
    /// The socket failed with this code.
    Fatal(i32),
}

/// The event that an initiator's attempt to receive stands for, where
/// `backlog` packets are waiting to be sent. Only a would-block is taken for
/// "nothing waiting"; every other error is fatal to the channel.
pub open spec fn spec_pump_event(attempt: Result<usize, AttemptError>, backlog: usize) -> PumpEvent {
    match attempt {
        Ok(len) => PumpEvent::Datagram(len),
        Err(AttemptError::WouldBlock) => PumpEvent::WouldBlock(backlog),
        Err(AttemptError::Interrupted) => PumpEvent::Fatal(INTERRUPTED),
        Err(AttemptError::Other(code)) => PumpEvent::Fatal(code),
    }
}

/// Sorts the result of an initiator's attempt to receive.
pub fn pump_event(attempt: Result<usize, AttemptError>, backlog: usize) -> (r: PumpEvent)
    ensures
        r == spec_pump_event(attempt, backlog),
{
    match attempt {
        Ok(len) => PumpEvent::Datagram(len),
        Err(AttemptError::WouldBlock) => PumpEvent::WouldBlock(backlog),
        Err(AttemptError::Interrupted) => PumpEvent::Fatal(INTERRUPTED),
        Err(AttemptError::Other(code)) => PumpEvent::Fatal(code),
    }
}

/// What an initiator does next. Before `PushFrame` and before `Receive` it
/// advances the engine's clock.
#[derive(Debug, Clone, Copy, PartialEq, Eq, Structural)]
pub enum PumpAction {
    /// Push a frame of this many bytes into the engine.
    PushFrame(usize),
    /// Try to receive one datagram.
    Receive,
    /// Feed the datagram of this many bytes to the engine, take out what the
    /// engine has ready, then try to receive again.
    Feed(usize),
    /// Push the sentinel and flush the engine.
    PushSentinel,
    /// The run is over.
    Finish,
}

/// Where an initiator stands.
#[derive(Debug, Clone, Copy, PartialEq, Eq, Structural)]
pub enum PumpPhase {
    /// A frame is to be pushed.
    Pushing,
    /// Datagrams are moved until the backlog is low.
    Draining,
    /// The sentinel is to be pushed.
    Closing,
    /// The sentinel went out.
    Finished,
    /// The socket failed.
    Failed(i32),
}

/// The initiator's side of a channel.
#[derive(Debug, Clone, Copy)]
pub struct InitiatorPump {
    bucket_size: usize,
    repeat: u64,
    pushed: u64,
    bytes: u128,
    phase: PumpPhase,
}

/// The state of an initiator as plain numbers.
pub ghost struct PumpView {
    pub bucket_size: nat,
    pub repeat: nat,
    /// Frames pushed so far.
    pub pushed: nat,
    /// Bytes that the engine took for those frames.
    pub bytes: nat,
    pub phase: PumpPhase,
}

impl View for InitiatorPump {
    type V = PumpView;

    closed spec fn view(&self) -> PumpView {
        PumpView {
            bucket_size: self.bucket_size as nat,
            repeat: self.repeat as nat,
            pushed: self.pushed as nat,
            bytes: self.bytes as nat,
            phase: self.phase,
        }
    }
}

/// The action that belongs to a phase.
pub open spec fn spec_pump_action(v: PumpView) -> PumpAction {
    match v.phase {
        PumpPhase::Pushing => PumpAction::PushFrame(v.bucket_size as usize),
        PumpPhase::Draining => PumpAction::Receive,
        PumpPhase::Closing => PumpAction::PushSentinel,
        _ => PumpAction::Finish,
    }
}

/// The phase that follows once the backlog is low: the next frame while
/// frames are left, the sentinel after the last.
pub open spec fn spec_phase_after_drain(v: PumpView) -> PumpPhase {
    if v.pushed < v.repeat {
        PumpPhase::Pushing
    } else {
        PumpPhase::Closing
    }
}

/// The state of an initiator in state `v` after it has seen `ev`.
///
/// A socket failure ends the run in any phase that still has work. A pushed
/// frame is counted and followed by draining. While draining, each datagram
/// is fed to the engine; when none is waiting and the backlog is below the
/// low-water mark, the initiator moves on. An event that does not belong to
/// the phase changes nothing.
pub open spec fn spec_pump_step(v: PumpView, ev: PumpEvent) -> PumpView {
    match (v.phase, ev) {
        (PumpPhase::Finished, _) | (PumpPhase::Failed(_), _) => v,
        (_, PumpEvent::Fatal(code)) => PumpView { phase: PumpPhase::Failed(code), ..v },
        (PumpPhase::Pushing, PumpEvent::Pushed(n)) => PumpView {
            pushed: v.pushed + 1,
            bytes: v.bytes + n as nat,
            phase: PumpPhase::Draining,
            ..v
        },
        (PumpPhase::Draining, PumpEvent::WouldBlock(backlog)) => if backlog < LOW_WATER {
            PumpView { phase: spec_phase_after_drain(v), ..v }
        } else {
            v
        },
        (PumpPhase::Closing, PumpEvent::Flushed) => PumpView { phase: PumpPhase::Finished, ..v },
        _ => v,
    }
}

/// What the initiator does in answer to `ev`: a datagram that arrives while
/// draining is fed to the engine; otherwise the action of the phase it is in
/// after the event.
pub open spec fn spec_pump_answer(v: PumpView, ev: PumpEvent) -> PumpAction {
    match (v.phase, ev) {
        (PumpPhase::Draining, PumpEvent::Datagram(len)) => PumpAction::Feed(len),
        _ => spec_pump_action(spec_pump_step(v, ev)),
    }
}

impl InitiatorPump {
    /// No more frames were pushed than asked for; the sentinel comes only
    /// after the last frame; and a frame is pushed only while one is left.
    pub open spec fn wf(&self) -> bool {
        &&& 0 < self@.bucket_size <= usize::MAX
        &&& self@.pushed <= self@.repeat <= u64::MAX
        &&& self@.bytes <= self@.pushed * usize::MAX
        &&& self@.phase is Pushing ==> self@.pushed < self@.repeat
        &&& self@.phase is Closing || self@.phase is Finished ==> self@.pushed == self@.repeat
    }

    /// An initiator that will push `repeat` frames of `bucket_size` bytes and
    /// then the sentinel. A bucket size of zero is refused.
    pub fn new(bucket_size: usize, repeat: u64) -> (r: Result<InitiatorPump, ChannelError>)
        ensures
            r is Err <==> bucket_size == 0,
            r is Err ==> r->Err_0 == ChannelError::EmptyBucket,
            r is Ok ==> r->Ok_0.wf() && r->Ok_0@ == (PumpView {
                bucket_size: bucket_size as nat,
                repeat: repeat as nat,
                pushed: 0,
                bytes: 0,
                phase: if repeat == 0 {
                    PumpPhase::Closing
                } else {
                    PumpPhase::Pushing
                },
            }),
    {
        if bucket_size == 0 {
            return Err(ChannelError::EmptyBucket);
        }
        let phase = if repeat == 0 {
            PumpPhase::Closing
        } else {
            PumpPhase::Pushing
        };
        Ok(InitiatorPump { bucket_size, repeat, pushed: 0, bytes: 0, phase })
    }

    /// The action of the phase that the initiator is in.
    pub fn action(&self) -> (r: PumpAction)
        ensures
            r == spec_pump_action(self@),
    {
        match self.phase {
            PumpPhase::Pushing => PumpAction::PushFrame(self.bucket_size),
            PumpPhase::Draining => PumpAction::Receive,
            PumpPhase::Closing => PumpAction::PushSentinel,
            _ => PumpAction::Finish,
        }
    }

    /// Takes one event and says what to do in answer.
    pub fn step(&mut self, ev: PumpEvent) -> (r: PumpAction)
        requires
            old(self).wf(),
        ensures
            final(self).wf(),
            final(self)@ == spec_pump_step(old(self)@, ev),
            r == spec_pump_answer(old(self)@, ev),
    {
        match (self.phase, ev) {
            (PumpPhase::Finished, _) | (PumpPhase::Failed(_), _) => {},
            (_, PumpEvent::Fatal(code)) => {
                self.phase = PumpPhase::Failed(code);
            },
            (PumpPhase::Pushing, PumpEvent::Pushed(n)) => {
                let ghost pushed = self.pushed as int;
                assert((pushed + 1) * usize::MAX == pushed * usize::MAX + usize::MAX && (pushed
                    + 1) * usize::MAX <= 0xffff_ffff_ffff_ffff * 0xffff_ffff_ffff_ffff)
                    by (nonlinear_arith)
                    requires
                        0 <= pushed < 0xffff_ffff_ffff_ffff,
                        0 <= usize::MAX <= 0xffff_ffff_ffff_ffff,
                ;
                self.pushed = self.pushed + 1;
                self.bytes = self.bytes + n as u128;
                self.phase = PumpPhase::Draining;
            },
            (PumpPhase::Draining, PumpEvent::Datagram(len)) => {
                return PumpAction::Feed(len);
            },
            (PumpPhase::Draining, PumpEvent::WouldBlock(backlog)) => {
                if backlog < LOW_WATER {
                    if self.pushed < self.repeat {
                        self.phase = PumpPhase::Pushing;
                    } else {
                        self.phase = PumpPhase::Closing;
                    }
                }
            },
            (PumpPhase::Closing, PumpEvent::Flushed) => {
                self.phase = PumpPhase::Finished;
            },
            _ => {},
        }
        self.action()
    }

    /// Frames pushed so far.
    pub fn progress(&self) -> (r: u64)
        ensures
            r == self@.pushed,
    {
        self.pushed
    }

    /// The result of the run: `None` while work is left, the counters once
    /// the sentinel went out, the error if the socket failed.
    pub fn finish(&self, elapsed_nanos: u128) -> (r: Option<Result<BenchmarkRun, ChannelError>>)
        requires
            self.wf(),
        ensures
            r == match self@.phase {
                PumpPhase::Finished => Some(
                    Ok(
                        BenchmarkRun {
                            total_bytes: self@.bytes as u128,
                            frames: self@.repeat as u64,
                            elapsed_nanos,
                        },
                    ),
                ),
                PumpPhase::Failed(code) => Some(Err(ChannelError::Socket(code))),
                _ => None,
            },
    {
        match self.phase {
            PumpPhase::Finished => Some(
                Ok(BenchmarkRun { total_bytes: self.bytes, frames: self.pushed, elapsed_nanos }),
            ),
            PumpPhase::Failed(code) => Some(Err(ChannelError::Socket(code))),
            _ => None,
        }
    }
}

/// What a responder's pump has just seen on its socket.
#[derive(Debug, Clone, Copy, PartialEq, Eq, Structural)]
pub enum ChannelEvent {
    /// A datagram of `len` bytes arrived from `from`.
    Datagram { from: PeerEndpoint, len: usize },
    /// No datagram is waiting.
    Idle,
    /// The socket failed with this code.
    Fatal(i32),
}

/// The event that a responder's attempt to receive stands for: a datagram
/// with its source, nothing waiting, or a fatal error.
pub open spec fn spec_channel_event(attempt: Result<(PeerEndpoint, usize), AttemptError>) -> ChannelEvent {
    match attempt {
        Ok((from, len)) => ChannelEvent::Datagram { from, len },
        Err(AttemptError::WouldBlock) => ChannelEvent::Idle,
        Err(AttemptError::Interrupted) => ChannelEvent::Fatal(INTERRUPTED),
        Err(AttemptError::Other(code)) => ChannelEvent::Fatal(code),
    }
}

/// Sorts the result of a responder's attempt to receive.
pub fn channel_event(attempt: Result<(PeerEndpoint, usize), AttemptError>) -> (r: ChannelEvent)
    ensures
        r == spec_channel_event(attempt),
{
    match attempt {
        Ok((from, len)) => ChannelEvent::Datagram { from, len },
        Err(AttemptError::WouldBlock) => ChannelEvent::Idle,
        Err(AttemptError::Interrupted) => ChannelEvent::Fatal(INTERRUPTED),
        Err(AttemptError::Other(code)) => ChannelEvent::Fatal(code),
    }
}

/// What a responder's pump does with an event.
#[derive(Debug, Clone, Copy, PartialEq, Eq, Structural)]
pub enum ChannelAction {
    /// Feed the datagram of this many bytes to the engine.
    Feed(usize),
    /// Drop the datagram: it is not from the peer of this channel.
    Discard,
    /// Advance the engine's clock, so that its retransmission timers run
    /// although nothing arrived.
    Tick,
    /// Stop: the channel is dead.
    Close(i32),
}

/// The responder's side of a channel: bound to the peer that was discovered
/// when it was made, and to no other.
#[derive(Debug, Clone, Copy)]
pub struct ReliableChannel {
    peer: PeerEndpoint,
    fed: u64,
    closed: Option<i32>,
}

/// The state of a responder's channel.
pub ghost struct ChannelView {
    /// The peer that the channel is bound to.
    pub peer: PeerEndpoint,
    /// Datagrams fed to the engine so far; it stops counting at its limit.
    pub fed: nat,
    /// The code of the failure that closed the channel, if one did.
    pub closed: Option<i32>,
}

impl View for ReliableChannel {
    type V = ChannelView;

    closed spec fn view(&self) -> ChannelView {
        ChannelView { peer: self.peer, fed: self.fed as nat, closed: self.closed }
    }
}

/// What a channel in state `v` does with `ev`. Once closed it stays closed. A
/// datagram passes only if it comes from the peer of the channel.
pub open spec fn spec_channel_answer(v: ChannelView, ev: ChannelEvent) -> ChannelAction {
    match v.closed {
        Some(code) => ChannelAction::Close(code),
        None => match ev {
            ChannelEvent::Datagram { from, len } => if from == v.peer {
                ChannelAction::Feed(len)
            } else {
                ChannelAction::Discard
            },
            ChannelEvent::Idle => ChannelAction::Tick,
            ChannelEvent::Fatal(code) => ChannelAction::Close(code),
        },
    }
}

/// The state of a channel in state `v` after `ev`. The peer stays as it is.
pub open spec fn spec_channel_step(v: ChannelView, ev: ChannelEvent) -> ChannelView {
    match spec_channel_answer(v, ev) {
        ChannelAction::Feed(_) => ChannelView {
            fed: if v.fed < u64::MAX {
                v.fed + 1
            } else {
                v.fed
            },
            ..v
        },
        ChannelAction::Close(code) => ChannelView { closed: Some(code), ..v },
        _ => v,
    }
}

impl ReliableChannel {
    /// The counter fits its type.
    pub open spec fn wf(&self) -> bool {
        self@.fed <= u64::MAX
    }

    /// Makes the channel from the first datagram seen on the socket, which
    /// came from `from` and has `len` bytes. If the datagram was taken off
    /// the socket (`consumed`), it is fed to the engine first, so that it is
    /// not lost; if it was only looked at, it will arrive again, and the pump
    /// starts with a tick.
    pub fn discover(from: PeerEndpoint, len: usize, consumed: bool) -> (r: (
        ReliableChannel,
        ChannelAction,
    ))
        ensures
            r.0.wf(),
            r.0@ == (ChannelView {
                peer: from,
                fed: if consumed {
                    1nat
                } else {
                    0nat
                },
                closed: None,
            }),
            r.1 == if consumed {
                ChannelAction::Feed(len)
            } else {
                ChannelAction::Tick
            },
    {
        if consumed {
            (ReliableChannel { peer: from, fed: 1, closed: None }, ChannelAction::Feed(len))
        } else {
            (ReliableChannel { peer: from, fed: 0, closed: None }, ChannelAction::Tick)
        }
    }

    /// The peer that the channel is bound to.
    pub fn peer(&self) -> (r: PeerEndpoint)
        ensures
            r == self@.peer,
    {
        self.peer
    }

    /// Whether a datagram from `from` belongs to this channel.
    pub fn accepts(&self, from: PeerEndpoint) -> (r: bool)
        ensures
            r == (from == self@.peer),
    {
        from.port == self.peer.port && from.host == self.peer.host
    }

    /// Takes one event from the socket and says what to do with it.
    pub fn on_event(&mut self, ev: ChannelEvent) -> (r: ChannelAction)
        requires
            old(self).wf(),
        ensures
            final(self).wf(),
            r == spec_channel_answer(old(self)@, ev),
            final(self)@ == spec_channel_step(old(self)@, ev),
            final(self)@.peer == old(self)@.peer,
    {
        if let Some(code) = self.closed {
            return ChannelAction::Close(code);
        }
        match ev {
            ChannelEvent::Datagram { from, len } => {
                if self.accepts(from) {
                    if self.fed < u64::MAX {
                        self.fed = self.fed + 1;
                    }
                    ChannelAction::Feed(len)
                } else {
                    ChannelAction::Discard
                }
            },
            ChannelEvent::Idle => ChannelAction::Tick,
            ChannelEvent::Fatal(code) => {
                self.closed = Some(code);
                ChannelAction::Close(code)
            },
        }
    }

    /// Whether the datagram just fed is one to report on: every
    /// `LOG_EVERY`-th is.
    pub fn should_log(&self) -> (r: bool)
        ensures
            r == (self@.fed % (LOG_EVERY as nat) == 0),
    {
        self.fed % LOG_EVERY == 0
    }
}

/// The state of a channel that starts in `v` and sees `events` in turn.
pub open spec fn spec_channel_run(v: ChannelView, events: Seq<ChannelEvent>) -> ChannelView
    decreases events.len(),
{
    if events.len() == 0 {
        v
    } else {
        spec_channel_step(spec_channel_run(v, events.drop_last()), events.last())
    }
}

/// Whatever a channel sees, it stays bound to the peer it was made for, and
/// every datagram that it feeds to the engine came from that peer: after any
/// events `before`, an event `ev` is answered by `Feed` only if it is a
/// datagram from the peer that the channel had at the start.
pub proof fn lemma_channel_bound_for_life(
    v: ChannelView,
    before: Seq<ChannelEvent>,
    ev: ChannelEvent,
)
    ensures
        spec_channel_run(v, before).peer == v.peer,
        spec_channel_answer(spec_channel_run(v, before), ev) is Feed ==> (ev matches ChannelEvent::Datagram {
            from,
            ..
        } && from == v.peer),
        ev matches ChannelEvent::Datagram { from, .. } && from != v.peer ==> spec_channel_step(
            spec_channel_run(v, before),
            ev,
        ) == spec_channel_run(v, before),
    decreases before.len(),
{
    if before.len() > 0 {
        lemma_channel_bound_for_life(v, before.drop_last(), before.last());
    }
}

} // verus!

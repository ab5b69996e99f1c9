use stream_bench::addr::{HostAddr, PeerEndpoint};
use stream_bench::channel::{
    channel_event, pump_event, engine_clock, initiator_config, responder_config, ChannelAction, ChannelError, ChannelEvent,
    InitiatorPump, PumpAction, PumpEvent, ReliableChannel, CONVERSATION, LOG_EVERY, LOW_WATER,
    MIN_MTU,
};
use stream_bench::driver::AttemptError;
use stream_bench::session::BenchmarkRun;

fn peer(last: u32, port: u16) -> PeerEndpoint {
    PeerEndpoint { host: HostAddr::V4(0x7f00_0000 + last), port }
}

#[test]
fn constants_are_the_documented_ones() {
    assert_eq!(CONVERSATION, 0x11223344);
    assert_eq!(LOW_WATER, 1024);
    assert_eq!(MIN_MTU, 50);
    assert_eq!(LOG_EVERY, 100_000);
}

#[test]
fn initiator_engine_settings() {
    let config = initiator_config(32768).unwrap();
    assert_eq!(config.conversation, 0x11223344);
    assert!(!config.stream_mode);
    assert_eq!((config.send_window, config.recv_window), (65535, 65535));
    assert!(config.nodelay);
    assert_eq!(config.interval_ms, 10);
    assert_eq!(config.resend, 2);
    assert!(config.no_congestion_control);
    assert_eq!(config.fast_resend, Some(1));
    assert_eq!(config.mtu, Some(65536));
    assert_eq!(config.min_rto, None);
}

#[test]
fn initiator_refuses_a_unit_the_engine_would_refuse() {
    assert_eq!(initiator_config(24), Err(ChannelError::InvalidMtu));
    assert_eq!(initiator_config(0), Err(ChannelError::InvalidMtu));
    assert_eq!(initiator_config(usize::MAX), Err(ChannelError::InvalidMtu));
    assert_eq!(initiator_config(25).unwrap().mtu, Some(50));
}

#[test]
fn responder_engine_settings() {
    let config = responder_config();
    assert_eq!(config.conversation, 0x11223344);
    assert!(config.stream_mode);
    assert_eq!((config.send_window, config.recv_window), (128, 128));
    assert!(config.nodelay);
    assert_eq!(config.interval_ms, 10);
    assert_eq!(config.resend, 2);
    assert!(config.no_congestion_control);
    assert_eq!(config.fast_resend, None);
    assert_eq!(config.mtu, None);
    assert_eq!(config.min_rto, Some(10));
}

#[test]
fn engine_clock_wraps_at_thirty_two_bits() {
    assert_eq!(engine_clock(0), 0);
    assert_eq!(engine_clock(1_700_000_000_000), (1_700_000_000_000u64 % (1 << 32)) as u32);
    assert_eq!(engine_clock((1 << 32) + 5), 5);
    assert_eq!(engine_clock(u128::MAX), u32::MAX);
}

#[test]
fn pump_refuses_an_empty_bucket() {
    assert_eq!(InitiatorPump::new(0, 3).err(), Some(ChannelError::EmptyBucket));
}

#[test]
fn pump_pushes_drains_and_closes() {
    let mut pump = InitiatorPump::new(100, 2).unwrap();
    assert_eq!(pump.action(), PumpAction::PushFrame(100));
    assert_eq!(pump.step(PumpEvent::Pushed(100)), PumpAction::Receive);
    assert_eq!(pump.progress(), 1);
    assert_eq!(pump.step(PumpEvent::Datagram(24)), PumpAction::Feed(24));
    assert_eq!(pump.action(), PumpAction::Receive);
    assert_eq!(pump.step(PumpEvent::WouldBlock(2000)), PumpAction::Receive);
    assert_eq!(pump.step(PumpEvent::WouldBlock(1024)), PumpAction::Receive);
    assert_eq!(pump.step(PumpEvent::WouldBlock(1023)), PumpAction::PushFrame(100));
    assert_eq!(pump.finish(1), None);
    assert_eq!(pump.step(PumpEvent::Pushed(100)), PumpAction::Receive);
    assert_eq!(pump.progress(), 2);
    assert_eq!(pump.step(PumpEvent::WouldBlock(0)), PumpAction::PushSentinel);
    assert_eq!(pump.step(PumpEvent::Flushed), PumpAction::Finish);
    assert_eq!(
        pump.finish(50),
        Some(Ok(BenchmarkRun { total_bytes: 200, frames: 2, elapsed_nanos: 50 }))
    );
}

#[test]
fn pump_with_no_frames_goes_straight_to_the_sentinel() {
    let mut pump = InitiatorPump::new(100, 0).unwrap();
    assert_eq!(pump.action(), PumpAction::PushSentinel);
    assert_eq!(pump.step(PumpEvent::Flushed), PumpAction::Finish);
    assert_eq!(
        pump.finish(5),
        Some(Ok(BenchmarkRun { total_bytes: 0, frames: 0, elapsed_nanos: 5 }))
    );
}

#[test]
fn pump_dies_on_a_socket_error() {
    let mut pump = InitiatorPump::new(100, 2).unwrap();
    pump.step(PumpEvent::Pushed(100));
    assert_eq!(pump.step(PumpEvent::Fatal(111)), PumpAction::Finish);
    assert_eq!(pump.finish(5), Some(Err(ChannelError::Socket(111))));
    assert_eq!(pump.step(PumpEvent::WouldBlock(0)), PumpAction::Finish);
    assert_eq!(pump.step(PumpEvent::Fatal(5)), PumpAction::Finish);
    assert_eq!(pump.finish(5), Some(Err(ChannelError::Socket(111))));
}

#[test]
fn pump_ignores_events_of_another_phase() {
    let mut pump = InitiatorPump::new(100, 1).unwrap();
    assert_eq!(pump.step(PumpEvent::WouldBlock(0)), PumpAction::PushFrame(100));
    assert_eq!(pump.step(PumpEvent::Datagram(10)), PumpAction::PushFrame(100));
    assert_eq!(pump.step(PumpEvent::Flushed), PumpAction::PushFrame(100));
    assert_eq!(pump.progress(), 0);
    pump.step(PumpEvent::Pushed(100));
    assert_eq!(pump.step(PumpEvent::Pushed(100)), PumpAction::Receive);
    assert_eq!(pump.progress(), 1);
}

#[test]
fn discovery_by_peek_starts_with_a_tick() {
    let (channel, first) = ReliableChannel::discover(peer(1, 9000), 24, false);
    assert_eq!(first, ChannelAction::Tick);
    assert_eq!(channel.peer(), peer(1, 9000));
}

#[test]
fn discovery_by_consuming_feeds_the_first_datagram() {
    let (channel, first) = ReliableChannel::discover(peer(1, 9000), 24, true);
    assert_eq!(first, ChannelAction::Feed(24));
    assert_eq!(channel.peer(), peer(1, 9000));
}

#[test]
fn channel_feeds_only_what_its_peer_sent() {
    let (mut channel, _) = ReliableChannel::discover(peer(1, 9000), 24, false);
    let events = [
        ChannelEvent::Datagram { from: peer(1, 9000), len: 10 },
        ChannelEvent::Datagram { from: peer(2, 9000), len: 11 },
        ChannelEvent::Datagram { from: peer(1, 9001), len: 12 },
        ChannelEvent::Idle,
        ChannelEvent::Datagram { from: PeerEndpoint { host: HostAddr::V6(1), port: 9000 }, len: 13 },
        ChannelEvent::Datagram { from: peer(1, 9000), len: 14 },
    ];
    let actions: Vec<ChannelAction> = events.iter().map(|e| channel.on_event(*e)).collect();
    assert_eq!(
        actions,
        vec![
            ChannelAction::Feed(10),
            ChannelAction::Discard,
            ChannelAction::Discard,
            ChannelAction::Tick,
            ChannelAction::Discard,
            ChannelAction::Feed(14),
        ]
    );
    assert_eq!(channel.peer(), peer(1, 9000));
    assert!(channel.accepts(peer(1, 9000)));
    assert!(!channel.accepts(peer(1, 9001)));
    assert!(!channel.accepts(peer(2, 9000)));
}

#[test]
fn channel_stays_closed_after_a_socket_error() {
    let (mut channel, _) = ReliableChannel::discover(peer(1, 9000), 24, false);
    assert_eq!(channel.on_event(ChannelEvent::Fatal(9)), ChannelAction::Close(9));
    assert_eq!(
        channel.on_event(ChannelEvent::Datagram { from: peer(1, 9000), len: 10 }),
        ChannelAction::Close(9)
    );
    assert_eq!(channel.on_event(ChannelEvent::Idle), ChannelAction::Close(9));
    assert_eq!(channel.on_event(ChannelEvent::Fatal(3)), ChannelAction::Close(9));
    assert_eq!(channel.peer(), peer(1, 9000));
}

#[test]
fn channel_reports_on_every_hundred_thousandth_datagram() {
    let (mut channel, _) = ReliableChannel::discover(peer(1, 9000), 24, true);
    assert!(!channel.should_log());
    for _ in 1..100_000 {
        channel.on_event(ChannelEvent::Datagram { from: peer(1, 9000), len: 1 });
    }
    assert!(channel.should_log());
    channel.on_event(ChannelEvent::Datagram { from: peer(3, 1), len: 1 });
    assert!(channel.should_log());
    channel.on_event(ChannelEvent::Datagram { from: peer(1, 9000), len: 1 });
    assert!(!channel.should_log());
}

#[test]
fn receive_results_become_events() {
    assert_eq!(pump_event(Ok(24), 7), PumpEvent::Datagram(24));
    assert_eq!(pump_event(Err(AttemptError::WouldBlock), 7), PumpEvent::WouldBlock(7));
    assert_eq!(pump_event(Err(AttemptError::Interrupted), 7), PumpEvent::Fatal(4));
    assert_eq!(pump_event(Err(AttemptError::Other(111)), 7), PumpEvent::Fatal(111));
    assert_eq!(
        channel_event(Ok((peer(1, 9000), 24))),
        ChannelEvent::Datagram { from: peer(1, 9000), len: 24 }
    );
    assert_eq!(channel_event(Err(AttemptError::WouldBlock)), ChannelEvent::Idle);
    assert_eq!(channel_event(Err(AttemptError::Interrupted)), ChannelEvent::Fatal(4));
    assert_eq!(channel_event(Err(AttemptError::Other(9))), ChannelEvent::Fatal(9));
}

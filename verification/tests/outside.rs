use smoltcp::wire::{IpAddress, IpCidr, Ipv4Address, Ipv4Cidr};
use stream_bench::addr::{prefix_len, Cidr, HostAddr};
use stream_bench::channel::{
    engine_clock, initiator_config, responder_config, ChannelError, CONVERSATION, MIN_MTU,
};
use stream_bench::framing::{encode, sentinel};
use stream_bench::interfaces::{nix_if_addr_to_cidr, InterfaceAddress, SockAddr};

fn smoltcp_cidr(cidr: &Cidr) -> IpCidr {
    let address = match cidr.address {
        HostAddr::V4(a) => {
            let o = a.to_be_bytes();
            IpAddress::v4(o[0], o[1], o[2], o[3])
        }
        HostAddr::V6(a) => {
            let s: Vec<u16> = (0..8).map(|i| (a >> (112 - 16 * i)) as u16).collect();
            IpAddress::v6(s[0], s[1], s[2], s[3], s[4], s[5], s[6], s[7])
        }
    };
    IpCidr::new(address, cidr.prefix_len)
}

#[test]
fn engine_accepts_the_initiator_settings() {
    let mut engine = kcp::Kcp::new(CONVERSATION, Vec::<u8>::new());
    assert_eq!(engine.conv(), 0x11223344);
    for bucket_size in [25usize, 100, 1024, 32768] {
        let config = initiator_config(bucket_size).unwrap();
        assert!(!config.stream_mode);
        assert!(engine.set_mtu(config.mtu.unwrap()).is_ok());
        assert_eq!(engine.mtu(), 2 * bucket_size);
        engine.set_wndsize(config.send_window, config.recv_window);
        assert_eq!(engine.snd_wnd(), 65535);
        assert_eq!(engine.rcv_wnd(), 65535);
    }
}

#[test]
fn engine_refuses_what_the_initiator_settings_refuse() {
    let mut engine = kcp::Kcp::new(CONVERSATION, Vec::<u8>::new());
    assert!(engine.set_mtu(MIN_MTU - 1).is_err());
    assert!(engine.set_mtu(MIN_MTU).is_ok());
    for bucket_size in [0usize, 1, 24] {
        assert_eq!(initiator_config(bucket_size), Err(ChannelError::InvalidMtu));
        assert!(engine.set_mtu(2 * bucket_size).is_err());
    }
}

#[test]
fn engine_takes_the_responder_settings() {
    let config = responder_config();
    let mut engine = kcp::Kcp::new_stream(config.conversation, Vec::<u8>::new());
    assert!(engine.is_stream());
    engine.set_wndsize(config.send_window, config.recv_window);
    assert_eq!(engine.snd_wnd(), 128);
    assert_eq!(engine.rcv_wnd(), 128);
    assert_eq!(engine.wait_snd(), 0);
}

#[test]
fn engine_queues_frames_until_they_are_flushed() {
    let mut engine = kcp::Kcp::new(CONVERSATION, Vec::<u8>::new());
    engine.update(engine_clock(1_700_000_000_123)).unwrap();
    let frame = encode(&[7u8; 100], 100).unwrap();
    assert_eq!(engine.send(&frame).unwrap(), 108);
    assert_eq!(engine.send(&sentinel()).unwrap(), 8);
    assert_eq!(engine.wait_snd(), 2);
}

#[test]
fn network_blocks_agree_with_smoltcp() {
    let netmasks: [(u32, u8); 5] = [
        (0xffff_ff00, 24),
        (0xffff_0000, 16),
        (0xffff_fffc, 30),
        (0xffff_ffff, 32),
        (0x8000_0000, 1),
    ];
    for (netmask, expected) in netmasks {
        assert_eq!(prefix_len(HostAddr::V4(netmask)), expected);
        let theirs = Ipv4Cidr::from_netmask(
            Ipv4Address::new(10, 0, 0, 5),
            Ipv4Address::from_bytes(&netmask.to_be_bytes()),
        )
        .unwrap();
        assert_eq!(theirs.prefix_len(), expected);
        let entry = InterfaceAddress {
            interface_name: "eth0".to_string(),
            loopback: false,
            address: Some(SockAddr::Inet(HostAddr::V4(0x0a00_0005))),
            netmask: Some(SockAddr::Inet(HostAddr::V4(netmask))),
            pci_path: String::new(),
        };
        let ours = nix_if_addr_to_cidr(&entry).unwrap();
        assert_eq!(smoltcp_cidr(&ours), IpCidr::Ipv4(theirs));
    }
}

#[test]
fn network_block_text_is_address_slash_prefix() {
    let cidr = Cidr::new(HostAddr::V4(0xc0a8_0101), 24).unwrap();
    assert_eq!(format!("{}", smoltcp_cidr(&cidr)), "192.168.1.1/24");
    let cidr = Cidr::new(HostAddr::V6(0xfe80 << 112 | 1), 64).unwrap();
    assert_eq!(format!("{}", smoltcp_cidr(&cidr)), "fe80::1/64");
    assert_eq!(smoltcp_cidr(&cidr).prefix_len(), 64);
}

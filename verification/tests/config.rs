use stream_bench::config::{listen_address, Config, Variant};

#[test]
fn client_defaults() {
    assert_eq!(
        Variant::TcpClient.default_config(),
        Config {
            address: "127.0.0.1:63590".to_string(),
            bucket_size: 1024 * 1024,
            repeat: 10000,
            nstreams: 1,
        }
    );
    assert_eq!(
        Variant::KcpClient.default_config(),
        Config { address: "127.0.0.1:63590".to_string(), bucket_size: 32768, repeat: 100000, nstreams: 1 }
    );
    assert_eq!(Variant::SmoltcpClient.default_config(), Variant::KcpClient.default_config());
}

#[test]
fn server_defaults() {
    assert_eq!(
        Variant::TcpServer.default_config(),
        Config { address: "0.0.0.0".to_string(), bucket_size: 1024 * 1024 * 1024, repeat: 0, nstreams: 1 }
    );
    assert_eq!(
        Variant::KcpServer.default_config(),
        Config { address: "0.0.0.0".to_string(), bucket_size: 64 * 1024, repeat: 0, nstreams: 1 }
    );
    assert_eq!(Variant::SmoltcpServer.default_config(), Variant::KcpServer.default_config());
}

#[test]
fn which_end_a_variant_is() {
    assert!(Variant::TcpClient.is_client());
    assert!(Variant::KcpClient.is_client());
    assert!(Variant::SmoltcpClient.is_client());
    assert!(!Variant::TcpServer.is_client());
    assert!(!Variant::KcpServer.is_client());
    assert!(!Variant::SmoltcpServer.is_client());
}

#[test]
fn default_figures_by_variant() {
    assert_eq!(Variant::TcpClient.default_bucket_size(), 1_048_576);
    assert_eq!(Variant::TcpServer.default_bucket_size(), 1_073_741_824);
    assert_eq!(Variant::KcpClient.default_bucket_size(), 32_768);
    assert_eq!(Variant::KcpServer.default_bucket_size(), 65_536);
    assert_eq!(Variant::TcpClient.default_repeat(), 10_000);
    assert_eq!(Variant::SmoltcpClient.default_repeat(), 100_000);
    assert_eq!(Variant::KcpServer.default_repeat(), 0);
}

#[test]
fn a_server_binds_port_zero() {
    assert_eq!(listen_address("0.0.0.0"), "0.0.0.0:0");
    assert_eq!(listen_address("192.168.1.7"), "192.168.1.7:0");
    assert_eq!(listen_address(""), ":0");
}

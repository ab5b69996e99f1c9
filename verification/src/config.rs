//! What a run is configured with, and the defaults of each variant.

use vstd::prelude::*;
use vstd::string::StringExecFns;

verus! {

/// The programs of the benchmark: which transport, and which end of it.
#[derive(Debug, Clone, Copy, PartialEq, Eq, Structural)]
pub enum Variant {
    TcpClient,
    TcpServer,
    KcpClient,
    KcpServer,
    SmoltcpClient,
    SmoltcpServer,
}

/// The configuration of one run.
#[derive(Debug, Clone, PartialEq, Eq)]
pub struct Config {
    /// The server's address with its port for a client; the address to listen
    /// on, without a port, for a server.
    pub address: String,
    /// Bytes per frame, and the capacity of the receive buffer.
    pub bucket_size: usize,
    /// Frames per stream.
    pub repeat: u64,
    /// Number of concurrent streams.
    pub nstreams: usize,
}

impl Variant {
    /// Whether this variant is the end that starts the exchange.
    pub open spec fn spec_is_client(self) -> bool {
        self is TcpClient || self is KcpClient || self is SmoltcpClient
    }

    /// Whether this variant is the end that starts the exchange.
    pub fn is_client(&self) -> (r: bool)
        ensures
            r == self.spec_is_client(),
    {
        match self {
            Variant::TcpClient | Variant::KcpClient | Variant::SmoltcpClient => true,
            _ => false,
        }
    }

    /// The bucket size of a variant unless another is asked for: one
    /// mebibyte for a TCP client and one gibibyte for a TCP server; 32
    /// kibibytes for a datagram client and 64 for a datagram server.
    pub open spec fn spec_default_bucket_size(self) -> usize {
        match self {
            Variant::TcpClient => 1_048_576,
            Variant::TcpServer => 1_073_741_824,
            Variant::KcpClient | Variant::SmoltcpClient => 32_768,
            Variant::KcpServer | Variant::SmoltcpServer => 65_536,
        }
    }

    /// The bucket size of a variant unless another is asked for.
    pub fn default_bucket_size(&self) -> (r: usize)
        ensures
            r == self.spec_default_bucket_size(),
    {
        match self {
            Variant::TcpClient => 1_048_576,
            Variant::TcpServer => 1_073_741_824,
            Variant::KcpClient | Variant::SmoltcpClient => 32_768,
            Variant::KcpServer | Variant::SmoltcpServer => 65_536,
        }
    }

    /// The number of frames that a variant sends on each stream unless
    /// another is asked for. A server sends none.
    pub open spec fn spec_default_repeat(self) -> u64 {
        match self {
            Variant::TcpClient => 10_000,
            Variant::KcpClient | Variant::SmoltcpClient => 100_000,
            _ => 0,
        }
    }

    /// The number of frames that a variant sends on each stream unless
    /// another is asked for.
    pub fn default_repeat(&self) -> (r: u64)
        ensures
            r == self.spec_default_repeat(),
    {
        match self {
            Variant::TcpClient => 10_000,
            Variant::KcpClient | Variant::SmoltcpClient => 100_000,
            _ => 0,
        }
    }

    /// The address of a variant unless another is asked for: the local
    /// server for a client, every local address for a server.
    pub open spec fn spec_default_address(self) -> Seq<char> {
        if self.spec_is_client() {
            "127.0.0.1:63590"@
        } else {
            "0.0.0.0"@
        }
    }

    /// The configuration of a variant where nothing is asked for: its
    /// default address, bucket size and repeat count, and one stream.
    pub fn default_config(&self) -> (r: Config)
        ensures
            r.address@ == self.spec_default_address(),
            r.bucket_size == self.spec_default_bucket_size(),
            r.repeat == self.spec_default_repeat(),
            r.nstreams == 1,
    {
        let address = if self.is_client() {
            String::from_str("127.0.0.1:63590")
        } else {
            String::from_str("0.0.0.0")
        };
        Config {
            address,
            bucket_size: self.default_bucket_size(),
            repeat: self.default_repeat(),
            nstreams: 1,
        }
    }
}

/// The address that a server binds: the address it is to listen on, with
/// port zero, so that the system picks a free port.
pub fn listen_address(address: &str) -> (r: String)
    ensures
        r@ == address@ + ":0"@,
{
    String::from_str(address).concat(":0")
}

} // verus!

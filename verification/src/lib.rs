//! Building blocks of a multi-stream throughput benchmark: length-prefixed
//! framing, a retry discipline for nonblocking sockets, the sender and receiver
//! sessions, aggregation over concurrent streams, the control logic of a
//! reliable channel on top of datagrams, the selection of network interfaces,
//! and the defaults of each program of the benchmark.
//!
//! Nothing here touches a socket. Each component decides, from plain values,
//! what the caller has to do next; the caller performs the I/O and reports back.

pub mod addr;
pub mod config;
pub mod proto;
pub mod framing;
pub mod driver;
pub mod session;
pub mod harness;
pub mod channel;
pub mod interfaces;

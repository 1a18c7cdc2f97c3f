//! A concurrent ICMP echo ("ping") client library.
//!
//! The core is a send/receive/correlate engine: a packet codec that builds
//! Echo Request and parses Echo Reply byte layouts (including the internet
//! checksum), a transport capability that makes raw-socket I/O testable, a
//! sender that transmits one request per target address per round, a receiver
//! that parses incoming replies, a correlation buffer that matches send
//! records to receive records and computes round-trip latency, and a session
//! lifecycle with an explicit state machine.
//!
//! All wire-format construction, correlation and lifecycle logic is verified;
//! the raw socket syscalls, worker threads and sleeps live outside the
//! library, behind the narrow [`socket::Socket`] capability.

pub mod addr;
pub mod icmpv4;
pub mod ping_error;
pub mod ping_output;
pub mod ping;
pub mod ping_data_buffer;
pub mod ping_receiver;
pub mod ping_sender;
pub mod ping_service;
pub mod records;
pub mod sequence_number;
pub mod session;
pub mod socket;
mod time;

pub use addr::Ipv4Addr;
pub use icmpv4::IcmpV4;
pub use ping_error::PingError;
pub use ping_error::PingResult;
pub use ping_output::PingOutput;
pub use ping::PingRs;
pub use ping_data_buffer::PingDataBuffer;
pub use ping_receiver::PingReceiver;
pub use ping_sender::PingSender;
pub use ping_service::PingService;
pub use ping_service::PingServiceConfig;
pub use records::PingReceiveRecord;
pub use records::PingSendRecord;
pub use records::PingSentToken;
pub use sequence_number::SequenceNumber;
pub use session::PingSession;
pub use socket::OnReceive;
pub use socket::OnSend;
pub use socket::RecvOutcome;
pub use socket::SocketMock;
pub use socket::Socket;

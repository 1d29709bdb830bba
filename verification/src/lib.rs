//! Client-side request dispatch and storage-side extensions of a
//! key-value store that can either ship data to the client or run
//! compute next to the data.
//!
//! * [`headers`]: the Ethernet, IPv4 and UDP headers put on every request.
//! * [`dispatch`]: the request generator ([`dispatch::Sender`]) and the
//!   response receiver ([`dispatch::Receiver`]).
//! * [`ycsbt`]: the YCSB-T extension, a read or a read-modify-write
//!   transaction run inside the database, as a resumable state machine.
//! * [`tao`]: the TAO extension's initialisation.

pub mod headers;
pub mod dispatch;
pub mod ycsbt;
pub mod tao;

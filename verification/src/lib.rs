//! Ancillary-data (kernel control-message) support for local inter-process
//! communication over Unix-domain-socket-class connections.
//!
//! The crate covers the algorithmic core of such a transport layer:
//!
//! - [`error`]: an ownership-preserving error container for fallible
//!   conversions that consume a live resource (chiefly a file descriptor).
//! - [`cmsg`]: the control-message machinery — composing and decoding
//!   variable-length ancillary buffers, the credentials wire shapes, and the
//!   context-collector hooks that disambiguate racy kernel tagging.
//! - [`stream`]: the pure decision logic of connection-level ancillary I/O —
//!   socket-address marshaling, classification of system-call results, and
//!   file-status-flag manipulation.
//!
//! The system calls themselves (connect, `recvmsg`, `sendmsg`, shutdown) are
//! simple pass-throughs with no algorithmic content; they are left to a thin
//! unverified shell that hands plain values to, and takes plain values from,
//! the functions here.

pub mod cmsg;
pub mod error;
pub mod stream;

//! Control-message (ancillary-data) machinery: the byte-level wire codec for
//! typed records, the credentials wire shapes, and the context-collector hooks
//! threaded around every ancillary-enabled I/O call.

pub mod buffer;
pub mod context;
pub mod credentials;

//! Framing and control logic of a local command server.
//!
//! A server of this kind listens on a Unix domain socket and takes one
//! message from each connection. A message has no length prefix: it ends at
//! the first byte at which the braces `{` and `}` seen so far balance. This
//! crate holds the parts of such a server that can be reasoned about without
//! a socket: the brace scanner, the per-connection framing decisions, and the
//! accept loop's state machine. The program around it performs the reads,
//! accepts and sleeps that these decisions ask for.

pub mod braces;
pub mod scan;
pub mod framer;
pub mod accept;
pub mod client;

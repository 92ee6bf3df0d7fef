//! Framing of one connection: what to do after each read.
//!
//! The program that owns the socket reads, and reports each read here as a
//! `ReadEvent`. The answer is a `FrameStep`: read again, or stop, with the
//! message or with the reason why there is none.

use vstd::prelude::*;
use vstd::utf8::{decode_utf8, valid_utf8};
use crate::scan::{FrameScanState, ScanModel, ScanStatus};

verus! {

/// Why a connection was given up without a message.
#[derive(Clone, Copy, Debug, PartialEq, Eq, Structural)]
pub enum FrameError {
    /// More bytes came than the buffer holds, and the braces never balanced.
    MessageTooLong,
    /// A read timed out or failed before the braces balanced.
    IncompleteOrTimedOut,
}

/// What one read on the connection brought.
#[derive(Debug, PartialEq, Eq)]
pub enum ReadEvent {
    /// The read returned these bytes. None at all means that the peer has
    /// closed the connection.
    Received(Vec<u8>),
    /// The read timed out or failed.
    Failed,
}

/// What the framer has decided after a read.
#[derive(Debug, PartialEq, Eq)]
pub enum FrameStep {
    /// No message yet: read again.
    ReadMore,
    /// The message is complete. It goes to the consumer, and the connection
    /// is closed.
    Message(String),
    /// The peer closed the connection before a message was complete.
    /// Nothing is forwarded.
    PeerClosed,
    /// The connection is given up. Nothing is forwarded.
    Rejected(FrameError),
}

/// The text that lossy UTF-8 decoding makes of `bytes`: each valid sequence
/// becomes its character, and what is not valid becomes U+FFFD.
pub uninterp spec fn lossy_text(bytes: Seq<u8>) -> Seq<char>;

/// Calls `String::from_utf8_lossy`. The result is named `lossy_text`; of
/// bytes that are valid UTF-8 it is their plain decoding, as the standard
/// library documents. Nothing more is claimed of invalid input than that
/// the call returns.
#[verifier::external_body]
fn decode_lossy(bytes: &[u8]) -> (text: String)
    ensures
        text@ == lossy_text(bytes@),
        valid_utf8(bytes@) ==> text@ == decode_utf8(bytes@),
{
    String::from_utf8_lossy(bytes).into_owned()
}

/// The step that belongs to the state `after` in which a read of at least
/// one byte has left the scanner.
pub open spec fn step_fits(step: FrameStep, after: ScanModel) -> bool {
    match after.status() {
        ScanStatus::Pending => step == FrameStep::ReadMore,
        ScanStatus::Complete => match step {
            FrameStep::Message(text) => text@ == lossy_text(after.bytes) && (valid_utf8(
                after.bytes,
            ) ==> text@ == decode_utf8(after.bytes)),
            _ => false,
        },
        ScanStatus::TooLong => step == FrameStep::Rejected(FrameError::MessageTooLong),
    }
}

impl FrameScanState {
    /// Decides what follows a read.
    ///
    /// A failed read gives the connection up as incomplete or timed out. A
    /// read of no bytes means that the peer is gone. Bytes are scanned, and
    /// the step goes by the scanner's status after them: read on while it
    /// is pending, hand out the decoded message once it is complete, reject
    /// the connection when it is too long. Only bytes change the scanner.
    pub fn on_read(&mut self, event: &ReadEvent) -> (step: FrameStep)
        requires
            old(self).wf(),
        ensures
            final(self).wf(),
            match *event {
                ReadEvent::Failed => {
                    &&& final(self)@ == old(self)@
                    &&& step == FrameStep::Rejected(FrameError::IncompleteOrTimedOut)
                },
                ReadEvent::Received(chunk) => if chunk@.len() == 0 {
                    &&& final(self)@ == old(self)@
                    &&& step == FrameStep::PeerClosed
                } else {
                    &&& final(self)@ == old(self)@.absorb(chunk@)
                    &&& step_fits(step, final(self)@)
                },
            },
    {
        match event {
            ReadEvent::Failed => FrameStep::Rejected(FrameError::IncompleteOrTimedOut),
            ReadEvent::Received(chunk) => {
                if chunk.len() == 0 {
                    FrameStep::PeerClosed
                } else {
                    match self.scan(chunk.as_slice()) {
                        ScanStatus::Pending => FrameStep::ReadMore,
                        ScanStatus::Complete => FrameStep::Message(decode_lossy(self.accumulated())),
                        ScanStatus::TooLong => FrameStep::Rejected(FrameError::MessageTooLong),
                    }
                }
            },
        }
    }
}

} // verus!

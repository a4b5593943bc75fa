//! Error taxonomy of the core.
//!
//! A malformed frame is a [`DecodeError`]; the dispatcher recovers from it
//! locally by discarding one byte and resynchronizing. A transport write
//! failure is reported as [`Error`] to the surrounding collaborator and is
//! never fatal: the device keeps running and serves the next request.

use vstd::prelude::*;

verus! {

/// Why a byte slice failed to decode as one protocol frame.
#[derive(Clone, Copy, Debug, PartialEq, Eq, Structural)]
pub enum DecodeError {
    /// The leading byte names no variant of the expected message.
    UnknownDiscriminant { byte: u8 },
    /// Fewer bytes available than the variant named by the leading byte
    /// requires.
    Truncated { needed: usize, got: usize },
    /// The discriminant and length are right but the payload breaks the
    /// variant's fixed-capacity layout.
    InvalidPayload,
}

/// A transport write failure, carrying the request whose answer could not
/// be written.
#[derive(Clone, Copy, Debug, PartialEq, Eq, Structural)]
pub enum Error {
    Msg { cfg: crate::sensor::Request },
}

} // verus!

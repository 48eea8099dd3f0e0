use vstd::prelude::*;

verus! {

/// The error kinds that the library surfaces to its callers.
#[derive(Clone, Copy, Debug, PartialEq, Eq, Structural)]
pub enum NodeError {
    /// A frame or value could not be written to or read from the transport.
    Transport,
    /// The stream ended cleanly where a reply was still owed.
    StreamEnded,
    /// A received frame did not hold a value of the expected shape.
    Decode,
    /// The reply variant did not match the request that was sent.
    UnexpectedReply,
    /// The daemon reported a failure for the requested node configuration.
    ConfigRejected,
    /// The output id is not in the declared output set.
    UnknownOutput,
    /// A shared-memory region could not be created.
    AllocationFailure,
    /// A payload writer handed back a buffer of the wrong length.
    WrongPayloadLength,
    /// The drop stream closed while drop tokens were still expected.
    DropStreamClosed,
}

} // verus!

use vstd::prelude::*;

verus! {

/// What the transport reported for a transfer that did not complete.
#[derive(Clone, Copy, Debug, PartialEq, Eq, Structural)]
pub struct TransferError {
    /// The transport's own status code, carried through unchanged.
    pub code: i32,
}

/// The ways in which an operation of this library is refused.
#[derive(Clone, Copy, Debug, PartialEq, Eq, Structural)]
pub enum Error {
    /// Run-length encoding was asked for an empty sequence.
    EmptyInput,
    /// A value that is neither 0 nor 1 was offered as a bit.
    InvalidBitValue,
    /// More bytes than one packet holds were offered to the assembler.
    PacketOverflow,
    /// The transport reported a failed transfer.
    Transfer(TransferError),
}

} // verus!

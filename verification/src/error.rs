use vstd::prelude::*;
use crate::hash::H256;

verus! {

/// Why a byte string could not be read as the RLP item that was expected.
#[derive(Clone, Copy, Debug, PartialEq, Eq, Structural)]
pub enum DecodeError {
    /// More bytes than the item may have.
    RlpIsTooBig,
    /// Fewer bytes than the item must have.
    RlpIsTooShort,
    /// A list was expected.
    RlpExpectedToBeList,
    /// A byte string was expected.
    RlpExpectedToBeData,
    /// The list has another number of items than expected.
    RlpIncorrectListLen,
    /// The length of a byte string starts with a zero byte.
    RlpDataLenWithZeroPrefix,
    /// The length of a list starts with a zero byte.
    RlpListLenWithZeroPrefix,
    /// An encoding longer than necessary.
    RlpInvalidIndirection,
    /// The declared length does not match the bytes that follow.
    RlpInconsistentLengthAndData,
    /// Any other failure.
    Custom,
}

/// Why a sink refused a chunk or a manifest, or a source had no chunk to give.
#[derive(Debug, PartialEq, Eq)]
pub struct IoFailure {
    pub reason: String,
}

/// Errors of snapshot creation and restoration.
#[derive(Debug, PartialEq, Eq)]
pub enum Error {
    /// The block to start the snapshot from is not in the chain.
    InvalidStartingBlock(H256),
    /// A block that the walk through the chain needed is missing.
    BlockNotFound(H256),
    /// The chain does not go back far enough.
    IncompleteChain,
    /// The state root that was asked for is not that of the state at hand.
    InvalidStateRoot(H256),
    /// Restoration ended with accounts whose code never arrived.
    MissingCode(Vec<H256>),
    /// An account's code marker is none of the three known ones.
    UnrecognizedCodeState(u64),
    /// A chunk, or an item in it, is malformed.
    Decoder(DecodeError),
    /// The consensus engine rejected a block.
    Verification(String),
    /// The data is too large to be compressed.
    TooBig,
    /// The data is no valid compressed stream, or not what its hash names.
    Corrupted,
    /// Restoration was to end before every chunk of the manifest was fed.
    MissingChunks,
    /// The operating system gave no random number.
    Random,
    /// The sink or the source failed.
    Io(IoFailure),
}

} // verus!

//! The error taxonomy of the engine.

use vstd::prelude::*;

verus! {

/// Everything that can go wrong inside the engine.
///
/// Faults of untrusted peers (`Crypto`, `Authority`, `Proposal`, `Vote`) are
/// dropped locally; host-level faults are reported; only a dead ingress
/// channel or a commit that cannot be recorded are fatal.
#[derive(Clone, Copy, Debug, PartialEq, Eq, Structural)]
pub enum ConsensusError {
    /// The ingress channel is dead; fatal to the engine.
    ChannelErr,
    /// A signature did not verify; the message is dropped.
    CryptoErr,
    /// The write-ahead log failed.
    StorageErr,
    /// A timeout was asked for a step that carries none.
    TimerErr,
    /// A bitmap does not fit the roster.
    AuthorityErr,
    /// A bitmap's voter weight does not exceed two thirds of the total.
    ThresholdBelow,
    /// A proposal broke a protocol rule.
    ProposalErr,
    /// A vote broke a protocol rule.
    VoteErr,
    /// The host rejected the block.
    BlockErr,
    /// Anything else.
    Other,
}

/// The result type used throughout the engine.
pub type ConsensusResult<T> = Result<T, ConsensusError>;

} // verus!

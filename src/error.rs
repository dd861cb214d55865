use vstd::prelude::*;

verus! {

/// Every way in which a call into the client can be refused.
#[derive(Clone, Copy, Debug, PartialEq, Eq, Structural)]
pub enum ContractError {
    /// The client was frozen after misbehaviour was found.
    ClientFrozen,
    /// The latest consensus state is older than the trusting period.
    ClientExpired,
    /// A header is malformed, or fails its consistency or time checks.
    InvalidHeader,
    /// A header is for a height below the latest trusted height.
    StaleHeader,
    /// A header conflicts with a consensus state already stored.
    MisbehaviourDetected,
    /// A header shows no misbehaviour where some was claimed.
    NoMisbehaviour,
    /// A proof is not well formed.
    InvalidProof,
    /// A well-formed proof does not lead to the trusted root.
    VerificationFailed,
    /// The proof is checked too soon after the consensus state was stored.
    DelayPeriodNotElapsed,
    /// No consensus state is stored at the requested height.
    ConsensusStateNotFound,
    /// The client state given at instantiation cannot be read.
    InvalidClientState,
    /// The consensus state given at instantiation cannot be read.
    InvalidConsensusState,
    /// The request has no defined behaviour in this client.
    Unsupported,
}

} // verus!

use vstd::prelude::*;

verus! {

/// A height of the source chain: a revision number, bumped on upgrades, and
/// a height within that revision.
#[derive(Clone, Copy, Debug, PartialEq, Eq, Structural)]
pub struct Height {
    /// the revision that the client is currently on
    pub revision_number: u64,
    /// the height of the source chain within the revision
    pub revision_height: u64,
}

impl Height {
    /// Heights are ordered by revision first, then by height within it.
    pub open spec fn lt(self, other: Height) -> bool {
        self.revision_number < other.revision_number || (self.revision_number
            == other.revision_number && self.revision_height < other.revision_height)
    }

    pub open spec fn le(self, other: Height) -> bool {
        self.lt(other) || self == other
    }

    pub fn is_below(&self, other: &Height) -> (r: bool)
        ensures
            r == self.lt(*other),
    {
        self.revision_number < other.revision_number || (self.revision_number
            == other.revision_number && self.revision_height < other.revision_height)
    }
}

/// What a host gives to create the client: its opaque client state (the
/// trusting period as eight big-endian bytes), the first consensus state,
/// and the checksum of the client's code.
#[derive(Clone, Debug)]
pub struct InstantiateMsg {
    pub client_state: Vec<u8>,
    pub consensus_state: Vec<u8>,
    pub checksum: Vec<u8>,
}

/// No request is executed directly on this client.
#[derive(Clone, Copy, Debug, PartialEq, Eq, Structural)]
pub struct ExecuteMsg {}

/// The ordered sequence of key segments that names a place in the source
/// chain's state.
#[derive(Clone, Debug)]
pub struct MerklePath {
    pub key_path: Vec<Vec<u8>>,
}

#[derive(Clone, Debug)]
pub struct VerifyMembershipMsg {
    pub height: Height,
    pub delay_time_period: u64,
    pub delay_block_period: u64,
    pub proof: Vec<u8>,
    pub merkle_path: MerklePath,
    pub value: Vec<u8>,
}

#[derive(Clone, Debug)]
pub struct VerifyNonMembershipMsg {
    pub height: Height,
    pub delay_time_period: u64,
    pub delay_block_period: u64,
    pub proof: Vec<u8>,
    pub merkle_path: MerklePath,
}

#[derive(Clone, Debug)]
pub struct UpdateStateMsg {
    pub client_message: Vec<u8>,
}

#[derive(Clone, Debug)]
pub struct UpdateStateOnMisbehaviourMsg {
    pub client_message: Vec<u8>,
}

#[derive(Clone, Debug)]
pub struct VerifyUpgradeAndUpdateStateMsg {
    pub upgrade_client_state: Vec<u8>,
    pub upgrade_consensus_state: Vec<u8>,
    pub proof_upgrade_client: Vec<u8>,
    pub proof_upgrade_consensus_state: Vec<u8>,
}

#[derive(Clone, Copy, Debug, PartialEq, Eq, Structural)]
pub struct MigrateClientStoreMsg {}

/// The requests that change the client, or check a proof against it.
#[derive(Clone, Debug)]
pub enum SudoMsg {
    VerifyMembership(VerifyMembershipMsg),
    VerifyNonMembership(VerifyNonMembershipMsg),
    UpdateState(UpdateStateMsg),
    UpdateStateOnMisbehaviour(UpdateStateOnMisbehaviourMsg),
    VerifyUpgradeAndUpdateState(VerifyUpgradeAndUpdateStateMsg),
    MigrateClientStore(MigrateClientStoreMsg),
}

#[derive(Clone, Debug)]
pub struct VerifyClientMessageMsg {
    pub client_message: Vec<u8>,
}

#[derive(Clone, Debug)]
pub struct CheckForMisbehaviourMsg {
    pub client_message: Vec<u8>,
}

#[derive(Clone, Copy, Debug, PartialEq, Eq, Structural)]
pub struct TimestampAtHeightMsg {
    pub height: Height,
}

#[derive(Clone, Copy, Debug, PartialEq, Eq, Structural)]
pub struct StatusMsg {}

#[derive(Clone, Copy, Debug, PartialEq, Eq, Structural)]
pub struct ExportMetadataMsg {}

/// The requests that only read the client.
#[derive(Clone, Debug)]
pub enum QueryMsg {
    VerifyClientMessage(VerifyClientMessageMsg),
    CheckForMisbehaviour(CheckForMisbehaviourMsg),
    TimestampAtHeight(TimestampAtHeightMsg),
    Status(StatusMsg),
    ExportMetadata(ExportMetadataMsg),
}

#[derive(Clone, Debug)]
pub struct UpdateStateResult {
    pub heights: Vec<Height>,
}

#[derive(Clone, Debug)]
pub struct StatusResult {
    pub status: String,
}

#[derive(Clone, Copy, Debug, PartialEq, Eq, Structural)]
pub struct CheckForMisbehaviourResult {
    pub found_misbehaviour: bool,
}

#[derive(Clone, Copy, Debug, PartialEq, Eq, Structural)]
pub struct TimestampAtHeightResult {
    pub timestamp: u64,
}

/// One stored record: its store key and its encoded value.
#[derive(Clone, Debug)]
pub struct GenesisMetadata {
    pub key: Vec<u8>,
    pub value: Vec<u8>,
}

#[derive(Clone, Debug)]
pub struct ExportMetadataResult {
    pub genesis_metadata: Vec<GenesisMetadata>,
}

} // verus!

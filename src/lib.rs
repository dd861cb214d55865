//! A light client for an Ethereum-family source chain: tracked consensus
//! states keyed by height, header updates with misbehaviour detection,
//! Merkle membership proofs, status and metadata export.

pub mod client;
mod codec;
pub mod contract;
pub mod error;
pub mod export;
pub mod msg;
pub mod merkle;
pub mod state;
pub mod update;

pub use error::ContractError;
pub use msg::{
    CheckForMisbehaviourMsg, CheckForMisbehaviourResult, ExecuteMsg, ExportMetadataMsg,
    ExportMetadataResult, GenesisMetadata, Height, InstantiateMsg, MerklePath, MigrateClientStoreMsg,
    QueryMsg, StatusMsg, StatusResult, SudoMsg, TimestampAtHeightMsg, TimestampAtHeightResult,
    UpdateStateMsg, UpdateStateOnMisbehaviourMsg, UpdateStateResult, VerifyClientMessageMsg,
    VerifyMembershipMsg, VerifyNonMembershipMsg, VerifyUpgradeAndUpdateStateMsg,
};
pub use state::consensus_db_key;
pub use client::{instantiate, ClientState, ClientStore, ConsensusState, Status};
pub use contract::{execute, query, status_string, sudo, QueryResult, SudoResult};
pub use update::{decode_client_message, Header};

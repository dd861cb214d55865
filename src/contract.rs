use vstd::prelude::*;

use crate::client::{ClientStore, Status, StoreView};
use crate::error::ContractError;
use crate::export::{export_records, record_view};
use crate::merkle::{absent_leaf, member_leaf, path_digest, proof_outcome};
use crate::msg::{
    ExecuteMsg, ExportMetadataResult, GenesisMetadata, Height, QueryMsg, StatusResult, SudoMsg,
    TimestampAtHeightResult, UpdateStateResult, CheckForMisbehaviourResult,
};
use crate::update::{freeze_outcome, misbehaviour_outcome, update_outcome, verify_outcome};

verus! {

/// What a request that may change the client answers.
#[derive(Debug)]
pub enum SudoResult {
    /// The proof was accepted.
    Verified,
    /// The update was accepted; the heights it persisted or confirmed.
    Updated(UpdateStateResult),
    /// The client is now frozen.
    Frozen,
}

/// What a read-only request answers.
#[derive(Debug)]
pub enum QueryResult {
    /// The client message would be accepted as an update.
    ClientMessageValid,
    Misbehaviour(CheckForMisbehaviourResult),
    Timestamp(TimestampAtHeightResult),
    Status(StatusResult),
    Metadata(ExportMetadataResult),
}

/// The name of a status as the host reads it.
pub open spec fn status_name(st: Status) -> Seq<char> {
    match st {
        Status::Active => "Active"@,
        Status::Frozen => "Frozen"@,
        Status::Expired => "Expired"@,
    }
}

/// The name of `st`: `Active`, `Frozen` or `Expired`.
pub fn status_string(st: Status) -> (r: String)
    ensures
        r@ == status_name(st),
{
    match st {
        Status::Active => "Active".to_owned(),
        Status::Frozen => "Frozen".to_owned(),
        Status::Expired => "Expired".to_owned(),
    }
}

/// Handles a request that may change the client, at time `now` and host
/// height `current_height`. Only an accepted update or report of
/// misbehaviour changes the store; upgrades and store migration are not
/// supported.
pub fn sudo(store: &mut ClientStore, msg: &SudoMsg, now: u64, current_height: u64) -> (r: Result<
    SudoResult,
    ContractError,
>)
    requires
        old(store)@.wf(),
    ensures
        final(store)@.wf(),
        match *msg {
            SudoMsg::VerifyMembership(m) => final(store)@ == old(store)@ && match r {
                Ok(v) => v is Verified && proof_outcome(
                    old(store)@,
                    m.height,
                    m.delay_time_period,
                    m.delay_block_period,
                    m.proof@,
                    member_leaf(m.merkle_path.key_path@, m.value@),
                    path_digest(m.merkle_path.key_path@),
                    now,
                    current_height,
                ) == Ok::<(), ContractError>(()),
                Err(e) => proof_outcome(
                    old(store)@,
                    m.height,
                    m.delay_time_period,
                    m.delay_block_period,
                    m.proof@,
                    member_leaf(m.merkle_path.key_path@, m.value@),
                    path_digest(m.merkle_path.key_path@),
                    now,
                    current_height,
                ) == Err::<(), ContractError>(e),
            },
            SudoMsg::VerifyNonMembership(m) => final(store)@ == old(store)@ && match r {
                Ok(v) => v is Verified && proof_outcome(
                    old(store)@,
                    m.height,
                    m.delay_time_period,
                    m.delay_block_period,
                    m.proof@,
                    absent_leaf(m.merkle_path.key_path@),
                    path_digest(m.merkle_path.key_path@),
                    now,
                    current_height,
                ) == Ok::<(), ContractError>(()),
                Err(e) => proof_outcome(
                    old(store)@,
                    m.height,
                    m.delay_time_period,
                    m.delay_block_period,
                    m.proof@,
                    absent_leaf(m.merkle_path.key_path@),
                    path_digest(m.merkle_path.key_path@),
                    now,
                    current_height,
                ) == Err::<(), ContractError>(e),
            },
            SudoMsg::UpdateState(m) => match r {
                Ok(SudoResult::Updated(res)) => update_outcome(
                    old(store)@,
                    m.client_message@,
                    now,
                ) == Ok::<(StoreView, Seq<Height>), ContractError>((final(store)@, res.heights@)),
                Ok(_) => false,
                Err(e) => update_outcome(old(store)@, m.client_message@, now) == Err::<
                    (StoreView, Seq<Height>),
                    ContractError,
                >(e) && final(store)@ == old(store)@,
            },
            SudoMsg::UpdateStateOnMisbehaviour(m) => match r {
                Ok(v) => v is Frozen && freeze_outcome(old(store)@, m.client_message@) == Ok::<
                    StoreView,
                    ContractError,
                >(final(store)@),
                Err(e) => freeze_outcome(old(store)@, m.client_message@) == Err::<
                    StoreView,
                    ContractError,
                >(e) && final(store)@ == old(store)@,
            },
            _ => r == Err::<SudoResult, ContractError>(ContractError::Unsupported) && final(store)@
                == old(store)@,
        },
{
    match msg {
        SudoMsg::VerifyMembership(m) => {
            store.verify_membership(m, now, current_height)?;
            Ok(SudoResult::Verified)
        },
        SudoMsg::VerifyNonMembership(m) => {
            store.verify_non_membership(m, now, current_height)?;
            Ok(SudoResult::Verified)
        },
        SudoMsg::UpdateState(m) => match store.update_state(m, now) {
            Ok(res) => Ok(SudoResult::Updated(res)),
            Err(e) => Err(e),
        },
        SudoMsg::UpdateStateOnMisbehaviour(m) => {
            store.update_state_on_misbehaviour(m)?;
            Ok(SudoResult::Frozen)
        },
        SudoMsg::VerifyUpgradeAndUpdateState(_) => Err(ContractError::Unsupported),
        SudoMsg::MigrateClientStore(_) => Err(ContractError::Unsupported),
    }
}

/// Handles a read-only request at time `now`.
pub fn query(store: &ClientStore, msg: &QueryMsg, now: u64) -> (r: Result<QueryResult, ContractError>)
    requires
        store@.wf(),
    ensures
        match *msg {
            QueryMsg::VerifyClientMessage(m) => match r {
                Ok(v) => v is ClientMessageValid && verify_outcome(store@, m.client_message@, now)
                    == Ok::<(), ContractError>(()),
                Err(e) => verify_outcome(store@, m.client_message@, now) == Err::<
                    (),
                    ContractError,
                >(e),
            },
            QueryMsg::CheckForMisbehaviour(m) => match r {
                Ok(QueryResult::Misbehaviour(res)) => misbehaviour_outcome(
                    store@,
                    m.client_message@,
                ) == Ok::<bool, ContractError>(res.found_misbehaviour),
                Ok(_) => false,
                Err(e) => misbehaviour_outcome(store@, m.client_message@) == Err::<
                    bool,
                    ContractError,
                >(e),
            },
            QueryMsg::TimestampAtHeight(m) => match r {
                Ok(QueryResult::Timestamp(res)) => store@.timestamp_at(m.height) == Ok::<
                    u64,
                    ContractError,
                >(res.timestamp),
                Ok(_) => false,
                Err(e) => store@.timestamp_at(m.height) == Err::<u64, ContractError>(e),
            },
            QueryMsg::Status(_) => match r {
                Ok(QueryResult::Status(res)) => store@.status(now) is Ok && res.status@
                    == status_name(store@.status(now)->Ok_0),
                Ok(_) => false,
                Err(e) => store@.status(now) == Err::<Status, ContractError>(e),
            },
            QueryMsg::ExportMetadata(_) => match r {
                Ok(QueryResult::Metadata(res)) => res.genesis_metadata@.map_values(
                    |g: GenesisMetadata| record_view(g),
                ) == export_records(store@),
                _ => false,
            },
        },
{
    match msg {
        QueryMsg::VerifyClientMessage(m) => {
            store.verify_client_message(m, now)?;
            Ok(QueryResult::ClientMessageValid)
        },
        QueryMsg::CheckForMisbehaviour(m) => match store.check_for_misbehaviour(m) {
            Ok(res) => Ok(QueryResult::Misbehaviour(res)),
            Err(e) => Err(e),
        },
        QueryMsg::TimestampAtHeight(m) => match store.timestamp_at_height(&m.height) {
            Ok(t) => Ok(QueryResult::Timestamp(TimestampAtHeightResult { timestamp: t })),
            Err(e) => Err(e),
        },
        QueryMsg::Status(_) => match store.status(now) {
            Ok(st) => Ok(QueryResult::Status(StatusResult { status: status_string(st) })),
            Err(e) => Err(e),
        },
        QueryMsg::ExportMetadata(_) => Ok(QueryResult::Metadata(store.export_metadata())),
    }
}

/// No request is executed directly on this client.
pub fn execute(msg: &ExecuteMsg) -> (r: Result<(), ContractError>)
    ensures
        r == Err::<(), ContractError>(ContractError::Unsupported),
{
    Err(ContractError::Unsupported)
}

} // verus!

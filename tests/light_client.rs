use ethereum_light_client::{
    consensus_db_key, execute, instantiate, query, sudo, CheckForMisbehaviourMsg, ClientStore,
    ContractError, ExecuteMsg, ExportMetadataMsg, Height, InstantiateMsg, MerklePath, QueryMsg,
    QueryResult, Status, StatusMsg, SudoMsg, SudoResult, TimestampAtHeightMsg,
    UpdateStateMsg, UpdateStateOnMisbehaviourMsg, VerifyClientMessageMsg, VerifyMembershipMsg,
    VerifyNonMembershipMsg, VerifyUpgradeAndUpdateStateMsg, MigrateClientStoreMsg,
};
use sha3::{Digest, Keccak256};

fn keccak(data: &[u8]) -> Vec<u8> {
    Keccak256::digest(data).to_vec()
}

fn be(x: u64) -> Vec<u8> {
    x.to_be_bytes().to_vec()
}

fn h(revision_number: u64, revision_height: u64) -> Height {
    Height { revision_number, revision_height }
}

fn header(height: Height, trusted: Height, timestamp: u64, root: &[u8]) -> Vec<u8> {
    let mut b = Vec::new();
    b.extend(be(height.revision_number));
    b.extend(be(height.revision_height));
    b.extend(be(trusted.revision_number));
    b.extend(be(trusted.revision_height));
    b.extend(be(timestamp));
    b.extend_from_slice(root);
    b
}

fn path_digest(path: &[Vec<u8>]) -> Vec<u8> {
    let mut segs = Vec::new();
    for s in path {
        segs.extend(keccak(s));
    }
    keccak(&segs)
}

fn member_leaf(path: &[Vec<u8>], value: &[u8]) -> Vec<u8> {
    let mut pre = vec![0u8];
    pre.extend(path_digest(path));
    pre.extend(keccak(value));
    keccak(&pre)
}

fn absent_leaf(path: &[Vec<u8>]) -> Vec<u8> {
    let mut pre = vec![1u8];
    pre.extend(path_digest(path));
    keccak(&pre)
}

fn node(left: &[u8], right: &[u8]) -> Vec<u8> {
    let mut pre = vec![2u8];
    pre.extend_from_slice(left);
    pre.extend_from_slice(right);
    keccak(&pre)
}

/// The root over `leaf`, placed by the digest of `path`, with `siblings`
/// from the leaf upwards.
fn fold(leaf: &[u8], path: &[Vec<u8>], siblings: &[Vec<u8>]) -> Vec<u8> {
    let key = path_digest(path);
    let n = siblings.len();
    let mut acc = leaf.to_vec();
    for (k, sibling) in siblings.iter().enumerate() {
        let j = n - 1 - k;
        if (key[j / 8] >> (7 - j % 8)) & 1 == 1 {
            acc = node(sibling, &acc);
        } else {
            acc = node(&acc, sibling);
        }
    }
    acc
}

const TRUSTING_PERIOD: u64 = 3600;
const T0: u64 = 1000;

fn store_with_root(root: &[u8]) -> ClientStore {
    let mut cs = be(T0);
    cs.extend_from_slice(root);
    instantiate(&InstantiateMsg {
        client_state: be(TRUSTING_PERIOD),
        consensus_state: cs,
        checksum: b"checksum".to_vec(),
    })
    .unwrap()
}

fn update(store: &mut ClientStore, msg: Vec<u8>, now: u64) -> Result<Vec<Height>, ContractError> {
    match sudo(store, &SudoMsg::UpdateState(UpdateStateMsg { client_message: msg }), now, 0) {
        Ok(SudoResult::Updated(res)) => Ok(res.heights),
        Ok(other) => panic!("unexpected answer {:?}", other),
        Err(e) => Err(e),
    }
}

fn status(store: &ClientStore, now: u64) -> String {
    match query(store, &QueryMsg::Status(StatusMsg {}), now).unwrap() {
        QueryResult::Status(s) => s.status,
        other => panic!("unexpected answer {:?}", other),
    }
}

fn misbehaviour(store: &ClientStore, msg: Vec<u8>) -> Result<bool, ContractError> {
    match query(
        store,
        &QueryMsg::CheckForMisbehaviour(CheckForMisbehaviourMsg { client_message: msg }),
        0,
    ) {
        Ok(QueryResult::Misbehaviour(r)) => Ok(r.found_misbehaviour),
        Ok(other) => panic!("unexpected answer {:?}", other),
        Err(e) => Err(e),
    }
}

fn export(store: &ClientStore) -> Vec<(Vec<u8>, Vec<u8>)> {
    match query(store, &QueryMsg::ExportMetadata(ExportMetadataMsg {}), 0).unwrap() {
        QueryResult::Metadata(m) => {
            m.genesis_metadata.into_iter().map(|g| (g.key, g.value)).collect()
        }
        other => panic!("unexpected answer {:?}", other),
    }
}

fn membership(
    store: &ClientStore,
    proof: Vec<u8>,
    path: Vec<Vec<u8>>,
    value: Vec<u8>,
    now: u64,
) -> Result<(), ContractError> {
    let msg = SudoMsg::VerifyMembership(VerifyMembershipMsg {
        height: h(0, 1),
        delay_time_period: 0,
        delay_block_period: 0,
        proof,
        merkle_path: MerklePath { key_path: path },
        value,
    });
    let mut s = store_clone(store);
    sudo(&mut s, &msg, now, 1).map(|_| ())
}

fn store_clone(store: &ClientStore) -> ClientStore {
    ClientStore {
        client_state: store.client_state.clone(),
        consensus_states: store.consensus_states.clone(),
    }
}

#[test]
fn test_instantiate() {
    let msg = InstantiateMsg {
        client_state: "does not matter yet".as_bytes().into(),
        consensus_state: "also does not matter yet".as_bytes().into(),
        checksum: "yet another that does not matter yet".as_bytes().into(),
    };
    let store = instantiate(&msg).unwrap();
    assert_eq!(store.client_state.latest_height, h(0, 1));
    assert_eq!(store.client_state.frozen_height, None);
    assert_eq!(store.client_state.data, b"does not matter yet".to_vec());
    assert_eq!(store.client_state.checksum, b"yet another that does not matter yet".to_vec());
    assert_eq!(store.consensus_states.len(), 1);
    assert_eq!(store.consensus_states[0].0, h(0, 1));
    assert_eq!(store.consensus_states[0].1, b"also does not matter yet".to_vec());
}

#[test]
fn unreadable_states_fail_where_they_are_read() {
    let msg = InstantiateMsg {
        client_state: "does not matter yet".as_bytes().into(),
        consensus_state: "also does not matter yet".as_bytes().into(),
        checksum: "yet another that does not matter yet".as_bytes().into(),
    };
    let mut store = instantiate(&msg).unwrap();
    assert_eq!(store.status(T0), Err(ContractError::InvalidClientState));
    let next = header(h(0, 5), h(0, 1), T0 + 50, &[5u8; 32]);
    assert_eq!(update(&mut store, next, T0), Err(ContractError::InvalidClientState));
    assert_eq!(store.timestamp_at_height(&h(0, 1)), Err(ContractError::InvalidConsensusState));

    let mut store = instantiate(&InstantiateMsg {
        client_state: be(TRUSTING_PERIOD),
        consensus_state: "also does not matter yet".as_bytes().into(),
        checksum: vec![],
    })
    .unwrap();
    assert_eq!(store.status(T0), Err(ContractError::InvalidConsensusState));
    let next = header(h(0, 5), h(0, 1), T0 + 50, &[5u8; 32]);
    assert_eq!(update(&mut store, next, T0), Err(ContractError::InvalidConsensusState));
    assert_eq!(membership(&store, vec![], vec![], vec![], T0), Err(ContractError::InvalidConsensusState));
    assert_eq!(store.consensus_states.len(), 1);
}

#[test]
fn test_verify_membership() {
    let store = store_with_root(&member_leaf(&[], &[]));
    assert_eq!(membership(&store, vec![], vec![], vec![], T0), Ok(()));
}

#[test]
fn test_verify_non_membership() {
    let mut store = store_with_root(&absent_leaf(&[]));
    let msg = SudoMsg::VerifyNonMembership(VerifyNonMembershipMsg {
        height: h(0, 1),
        delay_time_period: 0,
        delay_block_period: 0,
        proof: vec![],
        merkle_path: MerklePath { key_path: vec![] },
    });
    assert!(matches!(sudo(&mut store, &msg, T0, 1), Ok(SudoResult::Verified)));
}

#[test]
fn test_update_state() {
    let mut store = store_with_root(&[7u8; 32]);
    assert_eq!(update(&mut store, vec![], T0), Err(ContractError::InvalidHeader));
    assert_eq!(store.consensus_states.len(), 1);
}

#[test]
fn test_verify_client_message() {
    let store = store_with_root(&[7u8; 32]);
    let empty = QueryMsg::VerifyClientMessage(VerifyClientMessageMsg { client_message: vec![] });
    assert_eq!(query(&store, &empty, T0).err(), Some(ContractError::InvalidHeader));
    let good = header(h(0, 5), h(0, 1), T0 + 50, &[5u8; 32]);
    let msg = QueryMsg::VerifyClientMessage(VerifyClientMessageMsg { client_message: good });
    assert!(matches!(query(&store, &msg, T0 + 100), Ok(QueryResult::ClientMessageValid)));
    assert_eq!(store.consensus_states.len(), 1);
}

#[test]
fn test_check_for_misbehaviour() {
    let store = store_with_root(&[7u8; 32]);
    let msg = header(h(0, 5), h(0, 1), T0 + 50, &[5u8; 32]);
    assert_eq!(misbehaviour(&store, msg), Ok(false));
}

#[test]
fn test_timestamp_at_height() {
    let store = store_with_root(&[7u8; 32]);
    let res = query(&store, &QueryMsg::TimestampAtHeight(TimestampAtHeightMsg { height: h(0, 1) }), 0);
    assert!(matches!(res, Ok(QueryResult::Timestamp(t)) if t.timestamp == T0));
    let res = query(&store, &QueryMsg::TimestampAtHeight(TimestampAtHeightMsg { height: h(0, 2) }), 0);
    assert_eq!(res.err(), Some(ContractError::ConsensusStateNotFound));
}

#[test]
fn test_status() {
    let store = store_with_root(&[7u8; 32]);
    assert_eq!("Active", status(&store, T0));
    assert_eq!(store.status(T0 + TRUSTING_PERIOD), Ok(Status::Active));
    assert_eq!("Expired", status(&store, T0 + TRUSTING_PERIOD + 1));
}

#[test]
fn test_export_metadata() {
    let store = store_with_root(&[7u8; 32]);
    let records = export(&store);
    assert_eq!(2, records.len());
    assert_eq!(records[0].0, b"clientState".to_vec());
    let mut client = Vec::new();
    client.extend(be(0));
    client.extend(be(1));
    client.push(0);
    client.extend(be(0));
    client.extend(be(0));
    client.extend(be(8));
    client.extend(be(TRUSTING_PERIOD));
    client.extend_from_slice(b"checksum");
    assert_eq!(records[0].1, client);
    assert_eq!(records[1].0, b"consensusStates/0-1".to_vec());
    let mut cs = Vec::new();
    cs.extend(be(0));
    cs.extend(be(1));
    cs.extend(be(T0));
    cs.extend_from_slice(&[7u8; 32]);
    assert_eq!(records[1].1, cs);
}

#[test]
fn consensus_keys_are_decimal() {
    assert_eq!(consensus_db_key(&h(0, 1)), "consensusStates/0-1");
    assert_eq!(consensus_db_key(&h(3, 1234567)), "consensusStates/3-1234567");
    assert_eq!(
        consensus_db_key(&h(u64::MAX, 10)),
        "consensusStates/18446744073709551615-10"
    );
}

#[test]
fn scenario_update_then_fork_freezes() {
    let mut store = store_with_root(&[1u8; 32]);
    let first = header(h(0, 5), h(0, 1), T0 + 50, &[5u8; 32]);
    assert_eq!(update(&mut store, first, T0 + 100), Ok(vec![h(0, 5)]));
    assert_eq!(store.client_state.latest_height, h(0, 5));
    assert_eq!(status(&store, T0 + 100), "Active");
    let fork = header(h(0, 5), h(0, 1), T0 + 50, &[6u8; 32]);
    assert_eq!(misbehaviour(&store, fork.clone()), Ok(true));
    assert_eq!(update(&mut store, fork.clone(), T0 + 100), Err(ContractError::MisbehaviourDetected));
    let msg = SudoMsg::UpdateStateOnMisbehaviour(UpdateStateOnMisbehaviourMsg { client_message: fork });
    assert!(matches!(sudo(&mut store, &msg, T0 + 100, 0), Ok(SudoResult::Frozen)));
    assert_eq!(store.client_state.frozen_height, Some(h(0, 5)));
    assert_eq!(status(&store, T0 + 100), "Frozen");
}

#[test]
fn accepted_updates_are_monotone() {
    let mut store = store_with_root(&[1u8; 32]);
    update(&mut store, header(h(0, 5), h(0, 1), T0 + 50, &[5u8; 32]), T0 + 100).unwrap();
    update(&mut store, header(h(1, 2), h(0, 5), T0 + 80, &[9u8; 32]), T0 + 100).unwrap();
    let heights: Vec<Height> = store.consensus_states.iter().map(|e| e.0).collect();
    assert_eq!(heights, vec![h(0, 1), h(0, 5), h(1, 2)]);
    let mut stored = be(T0 + 50);
    stored.extend_from_slice(&[5u8; 32]);
    assert_eq!(store.consensus_states[1].1, stored);
    assert_eq!(store.client_state.latest_height, h(1, 2));
    let stale = header(h(0, 7), h(0, 1), T0 + 60, &[7u8; 32]);
    assert_eq!(update(&mut store, stale, T0 + 100), Err(ContractError::StaleHeader));
    assert_eq!(store.consensus_states.len(), 3);
}

#[test]
fn header_checks() {
    let mut store = store_with_root(&[1u8; 32]);
    let untrusted = header(h(0, 5), h(0, 2), T0 + 50, &[5u8; 32]);
    assert_eq!(update(&mut store, untrusted, T0 + 100), Err(ContractError::InvalidHeader));
    let old_time = header(h(0, 5), h(0, 1), T0, &[5u8; 32]);
    assert_eq!(update(&mut store, old_time, T0 + 100), Err(ContractError::InvalidHeader));
    let too_late = header(h(0, 5), h(0, 1), T0 + TRUSTING_PERIOD + 1, &[5u8; 32]);
    assert_eq!(update(&mut store, too_late, T0 + 100), Err(ContractError::InvalidHeader));
    let below_trusted = header(h(0, 1), h(0, 1), T0 + 50, &[5u8; 32]);
    assert_eq!(update(&mut store, below_trusted, T0 + 100), Err(ContractError::InvalidHeader));
    let expired = header(h(0, 5), h(0, 1), T0 + 50, &[5u8; 32]);
    assert_eq!(
        update(&mut store, expired, T0 + TRUSTING_PERIOD + 1),
        Err(ContractError::ClientExpired)
    );
    assert_eq!(store.consensus_states.len(), 1);
}

#[test]
fn repeated_update_is_idempotent() {
    let mut store = store_with_root(&[1u8; 32]);
    let msg = header(h(0, 5), h(0, 1), T0 + 50, &[5u8; 32]);
    let first = update(&mut store, msg.clone(), T0 + 100).unwrap();
    let before = export(&store);
    let second = update(&mut store, msg, T0 + 100).unwrap();
    assert_eq!(first, second);
    assert_eq!(before, export(&store));
}

#[test]
fn frozen_client_refuses_everything() {
    let mut store = store_with_root(&member_leaf(&[], &[]));
    update(&mut store, header(h(0, 5), h(0, 1), T0 + 50, &[5u8; 32]), T0 + 100).unwrap();
    let fork = header(h(0, 5), h(0, 1), T0 + 50, &[6u8; 32]);
    let msg = SudoMsg::UpdateStateOnMisbehaviour(UpdateStateOnMisbehaviourMsg {
        client_message: fork.clone(),
    });
    sudo(&mut store, &msg, T0 + 100, 0).unwrap();
    let next = header(h(0, 9), h(0, 5), T0 + 90, &[9u8; 32]);
    assert_eq!(update(&mut store, next, T0 + 100), Err(ContractError::ClientFrozen));
    assert_eq!(membership(&store, vec![], vec![], vec![], T0 + 100), Err(ContractError::ClientFrozen));
    assert_eq!(sudo(&mut store, &msg, T0 + 100, 0).err(), Some(ContractError::ClientFrozen));
}

#[test]
fn misbehaviour_without_conflict_is_refused() {
    let mut store = store_with_root(&[1u8; 32]);
    let honest = header(h(0, 5), h(0, 1), T0 + 50, &[5u8; 32]);
    let msg = SudoMsg::UpdateStateOnMisbehaviour(UpdateStateOnMisbehaviourMsg { client_message: honest });
    assert_eq!(sudo(&mut store, &msg, T0 + 100, 0).err(), Some(ContractError::NoMisbehaviour));
    let time_travel = header(h(0, 5), h(0, 1), T0, &[5u8; 32]);
    assert_eq!(misbehaviour(&store, time_travel), Ok(true));
}

#[test]
fn proofs_follow_the_tree() {
    let path = vec![b"ibc".to_vec(), b"commitments/1".to_vec()];
    let value = b"packet".to_vec();
    let siblings = vec![vec![3u8; 32], vec![4u8; 32]];
    let leaf = member_leaf(&path, &value);
    let root = fold(&leaf, &path, &siblings);
    let proof = siblings.concat();
    let store = store_with_root(&root);
    assert_eq!(membership(&store, proof.clone(), path.clone(), value.clone(), T0), Ok(()));

    let mut other_value = value.clone();
    other_value[0] ^= 1;
    assert_eq!(
        membership(&store, proof.clone(), path.clone(), other_value, T0),
        Err(ContractError::VerificationFailed)
    );
    let mut other_proof = proof.clone();
    other_proof[5] ^= 1;
    assert_eq!(
        membership(&store, other_proof, path.clone(), value.clone(), T0),
        Err(ContractError::VerificationFailed)
    );
    let other_path = vec![b"ibc".to_vec(), b"commitments/2".to_vec()];
    assert_eq!(
        membership(&store, proof.clone(), other_path, value.clone(), T0),
        Err(ContractError::VerificationFailed)
    );
    let other_root_store = store_with_root(&node(&leaf, &siblings[1]));
    assert_eq!(
        membership(&other_root_store, proof.clone(), path.clone(), value.clone(), T0),
        Err(ContractError::VerificationFailed)
    );
    assert_eq!(
        membership(&store, proof[..37].to_vec(), path.clone(), value.clone(), T0),
        Err(ContractError::InvalidProof)
    );
    assert_eq!(
        membership(&store, vec![0u8; 32 * 257], path, value, T0),
        Err(ContractError::InvalidProof)
    );
}

#[test]
fn absence_is_refused_where_a_value_is_stored() {
    let path = vec![b"ibc".to_vec(), b"receipts/7".to_vec()];
    let siblings = vec![vec![3u8; 32]];
    let root = fold(&member_leaf(&path, b"1"), &path, &siblings);
    let mut store = store_with_root(&root);
    let msg = SudoMsg::VerifyNonMembership(VerifyNonMembershipMsg {
        height: h(0, 1),
        delay_time_period: 0,
        delay_block_period: 0,
        proof: siblings.concat(),
        merkle_path: MerklePath { key_path: path.clone() },
    });
    assert_eq!(sudo(&mut store, &msg, T0, 1).err(), Some(ContractError::VerificationFailed));

    let absent_root = fold(&absent_leaf(&path), &path, &siblings);
    let mut store = store_with_root(&absent_root);
    assert!(matches!(sudo(&mut store, &msg, T0, 1), Ok(SudoResult::Verified)));
}

#[test]
fn proofs_wait_for_the_delay() {
    let mut store = store_with_root(&member_leaf(&[], &[]));
    let msg = |delay_time_period, delay_block_period| {
        SudoMsg::VerifyMembership(VerifyMembershipMsg {
            height: h(0, 1),
            delay_time_period,
            delay_block_period,
            proof: vec![],
            merkle_path: MerklePath { key_path: vec![] },
            value: vec![],
        })
    };
    assert_eq!(sudo(&mut store, &msg(10, 0), T0 + 9, 1).err(), Some(ContractError::DelayPeriodNotElapsed));
    assert!(sudo(&mut store, &msg(10, 0), T0 + 10, 1).is_ok());
    assert_eq!(sudo(&mut store, &msg(0, 5), T0, 5).err(), Some(ContractError::DelayPeriodNotElapsed));
    assert!(sudo(&mut store, &msg(0, 5), T0, 6).is_ok());
    let missing = SudoMsg::VerifyNonMembership(VerifyNonMembershipMsg {
        height: h(0, 2),
        delay_time_period: 0,
        delay_block_period: 0,
        proof: vec![],
        merkle_path: MerklePath { key_path: vec![] },
    });
    assert_eq!(sudo(&mut store, &missing, T0, 5).err(), Some(ContractError::ConsensusStateNotFound));
}

#[test]
fn unsupported_requests() {
    let mut store = store_with_root(&[1u8; 32]);
    let upgrade = SudoMsg::VerifyUpgradeAndUpdateState(VerifyUpgradeAndUpdateStateMsg {
        upgrade_client_state: vec![],
        upgrade_consensus_state: vec![],
        proof_upgrade_client: vec![],
        proof_upgrade_consensus_state: vec![],
    });
    assert_eq!(sudo(&mut store, &upgrade, T0, 0).err(), Some(ContractError::Unsupported));
    let migrate = SudoMsg::MigrateClientStore(MigrateClientStoreMsg {});
    assert_eq!(sudo(&mut store, &migrate, T0, 0).err(), Some(ContractError::Unsupported));
    assert_eq!(execute(&ExecuteMsg {}), Err(ContractError::Unsupported));
}

#[test]
fn export_then_import_gives_back_the_store() {
    let mut store = store_with_root(&[1u8; 32]);
    update(&mut store, header(h(0, 5), h(0, 1), T0 + 50, &[5u8; 32]), T0 + 100).unwrap();
    update(&mut store, header(h(2, 3), h(0, 5), T0 + 70, &[8u8; 32]), T0 + 100).unwrap();
    let records = match query(&store, &QueryMsg::ExportMetadata(ExportMetadataMsg {}), 0).unwrap() {
        QueryResult::Metadata(m) => m.genesis_metadata,
        other => panic!("unexpected answer {:?}", other),
    };
    let rebuilt = ClientStore::from_metadata(&records).unwrap();
    assert_eq!(export(&rebuilt), export(&store));
    assert_eq!(rebuilt.client_state.latest_height, h(2, 3));
    assert_eq!(rebuilt.consensus_states.len(), 3);

    let mut swapped = records.clone();
    swapped.swap(1, 2);
    assert_eq!(ClientStore::from_metadata(&swapped).err(), Some(ContractError::InvalidConsensusState));
    let mut wrong_key = records.clone();
    wrong_key[2].key = b"consensusStates/0-6".to_vec();
    assert_eq!(ClientStore::from_metadata(&wrong_key).err(), Some(ContractError::InvalidConsensusState));
    assert_eq!(
        ClientStore::from_metadata(&records[..1].to_vec()).err(),
        Some(ContractError::InvalidClientState)
    );
}

use vstd::prelude::*;

use sha3::Digest;

use crate::client::{
    decode_consensus_state, read_consensus_state, ClientStore, ConsensusView, StoreView,
};
use crate::codec::{bytes_eq, extend_bytes};
use crate::error::ContractError;
use crate::msg::{Height, VerifyMembershipMsg, VerifyNonMembershipMsg};
use crate::update::{freeze_outcome, update_outcome};

verus! {

/// The Keccak-256 digest of `data`.
pub uninterp spec fn keccak256_of(data: Seq<u8>) -> Seq<u8>;

/// Relies on sha3::Keccak256::digest: the Keccak-256 digest of the data,
/// which depends on the data alone.
#[verifier::external_body]
fn keccak256(data: &Vec<u8>) -> (r: Vec<u8>)
    ensures
        r@ == keccak256_of(data@),
        r@.len() == 32,
{
    sha3::Keccak256::digest(data.as_slice()).to_vec()
}

/// The digests of the first segments of a path, one after the other.
pub open spec fn segment_digests(path: Seq<Vec<u8>>) -> Seq<u8>
    decreases path.len(),
{
    if path.len() == 0 {
        Seq::empty()
    } else {
        segment_digests(path.drop_last()) + keccak256_of(path.last()@)
    }
}

pub open spec fn path_digest(path: Seq<Vec<u8>>) -> Seq<u8> {
    keccak256_of(segment_digests(path))
}

/// The leaf that holds `value` under `path`.
pub open spec fn member_leaf(path: Seq<Vec<u8>>, value: Seq<u8>) -> Seq<u8> {
    keccak256_of(seq![0u8] + path_digest(path) + keccak256_of(value))
}

/// The leaf that marks `path` as holding nothing.
pub open spec fn absent_leaf(path: Seq<Vec<u8>>) -> Seq<u8> {
    keccak256_of(seq![1u8] + path_digest(path))
}

/// The number of steps in a proof: each is a 32-byte sibling.
pub open spec fn step_count(p: Seq<u8>) -> nat {
    p.len() / 32
}

pub open spec fn sibling_at(p: Seq<u8>, k: int) -> Seq<u8> {
    p.subrange(32 * k, 32 * k + 32)
}

/// Bit `j` of `key`, the most significant bit of its first byte first.
pub open spec fn key_bit(key: Seq<u8>, j: int) -> bool {
    (key[j / 8] >> ((7 - j % 8) as u8)) & 1u8 == 1u8
}

/// A proof is a whole number of siblings, at most one for each bit of a
/// path digest.
pub open spec fn proof_well_formed(p: Seq<u8>) -> bool {
    p.len() % 32 == 0 && step_count(p) <= 256
}

/// The node over `left` and `right`.
pub open spec fn node(left: Seq<u8>, right: Seq<u8>) -> Seq<u8> {
    keccak256_of(seq![2u8] + left + right)
}

/// The node reached from `leaf` after the first `k` steps of proof `p`.
/// The leaf sits at the place that `key` names: from the root down, bit `j`
/// of `key` tells whether the way goes right, so the step at depth `j`
/// puts the sibling on the left exactly when that bit is set.
pub open spec fn fold_root(leaf: Seq<u8>, key: Seq<u8>, p: Seq<u8>, k: nat) -> Seq<u8>
    decreases k,
{
    if k == 0 {
        leaf
    } else {
        let acc = fold_root(leaf, key, p, (k - 1) as nat);
        let j = k - 1;
        if key_bit(key, step_count(p) - 1 - j) {
            node(sibling_at(p, j), acc)
        } else {
            node(acc, sibling_at(p, j))
        }
    }
}

/// The root that proof `p` leads to from `leaf`, placed by `key`.
pub open spec fn proof_root(leaf: Seq<u8>, key: Seq<u8>, p: Seq<u8>) -> Seq<u8> {
    fold_root(leaf, key, p, step_count(p))
}

/// The delay periods have passed since the consensus state `cs_time` at
/// `height` was stored, at time `now` and host height `current_height`.
pub open spec fn delay_elapsed(
    height: Height,
    cs_time: u64,
    delay_time: u64,
    delay_block: u64,
    now: u64,
    current_height: u64,
) -> bool {
    now as int - cs_time as int >= delay_time as int && current_height as int
        - height.revision_height as int >= delay_block as int
}

/// The consensus state stored at `h`, where it is stored and can be read.
pub open spec fn state_at(s: StoreView, h: Height) -> Option<ConsensusView> {
    match s.lookup(h) {
        Some(b) => decode_consensus_state(b),
        None => None,
    }
}

/// The verdict on a proof that `leaf` stands under the root stored at
/// `height`.
pub open spec fn proof_outcome(
    s: StoreView,
    height: Height,
    delay_time: u64,
    delay_block: u64,
    proof: Seq<u8>,
    leaf: Seq<u8>,
    key: Seq<u8>,
    now: u64,
    current_height: u64,
) -> Result<(), ContractError> {
    if s.is_frozen() {
        Err(ContractError::ClientFrozen)
    } else if s.anchor(now) is Err {
        Err(s.anchor(now)->Err_0)
    } else if s.lookup(height) is None {
        Err(ContractError::ConsensusStateNotFound)
    } else {
        match state_at(s, height) {
            None => Err(ContractError::InvalidConsensusState),
            Some(cs) => if !delay_elapsed(
                height,
                cs.timestamp,
                delay_time,
                delay_block,
                now,
                current_height,
            ) {
                Err(ContractError::DelayPeriodNotElapsed)
            } else if !proof_well_formed(proof) {
                Err(ContractError::InvalidProof)
            } else if proof_root(leaf, key, proof) != cs.root {
                Err(ContractError::VerificationFailed)
            } else {
                Ok(())
            },
        }
    }
}

/// Once frozen, a client refuses every update, every further report of
/// misbehaviour and every proof, of membership or not, with `ClientFrozen`,
/// whatever the inputs.
pub proof fn lemma_frozen_is_final(
    s: StoreView,
    m: Seq<u8>,
    now: u64,
    height: Height,
    delay_time: u64,
    delay_block: u64,
    proof: Seq<u8>,
    leaf: Seq<u8>,
    key: Seq<u8>,
    current_height: u64,
)
    requires
        s.is_frozen(),
    ensures
        update_outcome(s, m, now) == Err::<(StoreView, Seq<Height>), ContractError>(
            ContractError::ClientFrozen,
        ),
        freeze_outcome(s, m) == Err::<StoreView, ContractError>(ContractError::ClientFrozen),
        proof_outcome(s, height, delay_time, delay_block, proof, leaf, key, now, current_height)
            == Err::<
            (),
            ContractError,
        >(ContractError::ClientFrozen),
{
}

/// A well-formed proof that leads from the claimed value to a root other
/// than the one stored at `height` is never accepted; once the client and
/// delay checks pass, it is refused with `VerificationFailed`.
pub proof fn lemma_proof_for_other_root_fails(
    s: StoreView,
    height: Height,
    delay_time: u64,
    delay_block: u64,
    proof: Seq<u8>,
    path: Seq<Vec<u8>>,
    value: Seq<u8>,
    now: u64,
    current_height: u64,
    other_root: Seq<u8>,
)
    requires
        proof_well_formed(proof),
        proof_root(member_leaf(path, value), path_digest(path), proof) == other_root,
        state_at(s, height) is Some ==> state_at(s, height)->Some_0.root != other_root,
    ensures
        proof_outcome(
            s,
            height,
            delay_time,
            delay_block,
            proof,
            member_leaf(path, value),
            path_digest(path),
            now,
            current_height,
        ) is Err,
        !s.is_frozen() && s.anchor(now) is Ok && state_at(s, height) is Some && delay_elapsed(
            height,
            state_at(s, height)->Some_0.timestamp,
            delay_time,
            delay_block,
            now,
            current_height,
        ) ==> proof_outcome(
            s,
            height,
            delay_time,
            delay_block,
            proof,
            member_leaf(path, value),
            path_digest(path),
            now,
            current_height,
        ) == Err::<(), ContractError>(ContractError::VerificationFailed),
{
}

/// A well-formed proof that leads from the value under the path to the root
/// stored at `height` is accepted, once the client and delay checks pass.
pub proof fn lemma_honest_proof_accepted(
    s: StoreView,
    height: Height,
    delay_time: u64,
    delay_block: u64,
    proof: Seq<u8>,
    path: Seq<Vec<u8>>,
    value: Seq<u8>,
    now: u64,
    current_height: u64,
)
    requires
        !s.is_frozen(),
        s.anchor(now) is Ok,
        state_at(s, height) is Some,
        delay_elapsed(
            height,
            state_at(s, height)->Some_0.timestamp,
            delay_time,
            delay_block,
            now,
            current_height,
        ),
        proof_well_formed(proof),
        proof_root(member_leaf(path, value), path_digest(path), proof) == state_at(s, height)->Some_0.root,
    ensures
        proof_outcome(
            s,
            height,
            delay_time,
            delay_block,
            proof,
            member_leaf(path, value),
            path_digest(path),
            now,
            current_height,
        ) == Ok::<(), ContractError>(()),
{
}

fn path_digest_of(path: &Vec<Vec<u8>>) -> (r: Vec<u8>)
    ensures
        r@ == path_digest(path@),
        r@.len() == 32,
{
    let mut acc: Vec<u8> = Vec::new();
    let mut i: usize = 0;
    proof {
        assert(path@.subrange(0, 0) =~= Seq::<Vec<u8>>::empty());
    }
    while i < path.len()
        invariant
            i <= path@.len(),
            acc@ == segment_digests(path@.subrange(0, i as int)),
        decreases path@.len() - i,
    {
        let d = keccak256(&path[i]);
        extend_bytes(&mut acc, &d);
        proof {
            let next = path@.subrange(0, i + 1);
            assert(next.drop_last() =~= path@.subrange(0, i as int));
            assert(next.last() == path@[i as int]);
        }
        i = i + 1;
    }
    proof {
        assert(path@.subrange(0, path@.len() as int) =~= path@);
    }
    keccak256(&acc)
}

fn member_leaf_of(path: &Vec<Vec<u8>>, pd: &Vec<u8>, value: &Vec<u8>) -> (r: Vec<u8>)
    requires
        pd@ == path_digest(path@),
    ensures
        r@ == member_leaf(path@, value@),
{
    let mut pre: Vec<u8> = vec![0u8];
    let vd = keccak256(value);
    extend_bytes(&mut pre, pd);
    extend_bytes(&mut pre, &vd);
    proof {
        assert(pre@ =~= seq![0u8] + path_digest(path@) + keccak256_of(value@));
    }
    keccak256(&pre)
}

fn absent_leaf_of(path: &Vec<Vec<u8>>, pd: &Vec<u8>) -> (r: Vec<u8>)
    requires
        pd@ == path_digest(path@),
    ensures
        r@ == absent_leaf(path@),
{
    let mut pre: Vec<u8> = vec![1u8];
    extend_bytes(&mut pre, pd);
    proof {
        assert(pre@ =~= seq![1u8] + path_digest(path@));
    }
    keccak256(&pre)
}

fn node_of(left: &Vec<u8>, right: &Vec<u8>) -> (r: Vec<u8>)
    ensures
        r@ == node(left@, right@),
{
    let mut pre: Vec<u8> = vec![2u8];
    extend_bytes(&mut pre, left);
    extend_bytes(&mut pre, right);
    proof {
        assert(pre@ =~= seq![2u8] + left@ + right@);
    }
    keccak256(&pre)
}

/// Whether `p` is a well-formed proof.
pub fn is_well_formed(p: &Vec<u8>) -> (r: bool)
    ensures
        r == proof_well_formed(p@),
{
    p.len() % 32 == 0 && p.len() / 32 <= 256
}

/// Follows the siblings of a well-formed proof `p` up from `leaf`, placed
/// by the 32-byte `key`.
pub fn fold_proof(leaf: &Vec<u8>, key: &Vec<u8>, p: &Vec<u8>) -> (r: Vec<u8>)
    requires
        proof_well_formed(p@),
        key@.len() == 32,
    ensures
        r@ == proof_root(leaf@, key@, p@),
{
    let n: usize = p.len() / 32;
    let mut acc = crate::codec::copy_bytes(leaf);
    let mut k: usize = 0;
    assert(p@.len() == 32 * n);
    while k < n
        invariant
            k <= n,
            n == step_count(p@),
            n <= 256,
            key@.len() == 32,
            p@.len() == 32 * n,
            acc@ == fold_root(leaf@, key@, p@, k as nat),
        decreases n - k,
    {
        assert(32 * k + 32 <= p.len());
        let off: usize = 32 * k;
        let sibling = crate::client::sub_bytes(p, off, off + 32);
        let j: usize = n - 1 - k;
        let bit = (key[j / 8] >> ((7 - j % 8) as u8)) & 1u8 == 1u8;
        assert(bit == key_bit(key@, j as int));
        if bit {
            acc = node_of(&sibling, &acc);
        } else {
            acc = node_of(&acc, &sibling);
        }
        k = k + 1;
    }
    acc
}

impl ClientStore {
    fn check_proof(
        &self,
        height: &Height,
        delay_time: u64,
        delay_block: u64,
        proof: &Vec<u8>,
        leaf: &Vec<u8>,
        key: &Vec<u8>,
        now: u64,
        current_height: u64,
    ) -> (r: Result<(), ContractError>)
        requires
            self@.wf(),
            key@.len() == 32,
        ensures
            r == proof_outcome(
                self@,
                *height,
                delay_time,
                delay_block,
                proof@,
                leaf@,
                key@,
                now,
                current_height,
            ),
    {
        if self.client_state.frozen_height.is_some() {
            return Err(ContractError::ClientFrozen);
        }
        self.anchor(now)?;
        let i = match self.find(height) {
            None => return Err(ContractError::ConsensusStateNotFound),
            Some(i) => i,
        };
        let cs = match read_consensus_state(&self.consensus_states[i].1) {
            None => return Err(ContractError::InvalidConsensusState),
            Some(cs) => cs,
        };
        if now < cs.timestamp || now - cs.timestamp < delay_time || current_height
            < height.revision_height || current_height - height.revision_height < delay_block {
            return Err(ContractError::DelayPeriodNotElapsed);
        }
        if !is_well_formed(proof) {
            return Err(ContractError::InvalidProof);
        }
        let root = fold_proof(leaf, key, proof);
        if !bytes_eq(&root, &cs.root) {
            return Err(ContractError::VerificationFailed);
        }
        Ok(())
    }

    /// Checks that `msg.value` is stored under `msg.merkle_path` in the
    /// source chain's state committed by the root stored at `msg.height`,
    /// at time `now` and host height `current_height`.
    pub fn verify_membership(&self, msg: &VerifyMembershipMsg, now: u64, current_height: u64) -> (r:
        Result<(), ContractError>)
        requires
            self@.wf(),
        ensures
            r == proof_outcome(
                self@,
                msg.height,
                msg.delay_time_period,
                msg.delay_block_period,
                msg.proof@,
                member_leaf(msg.merkle_path.key_path@, msg.value@),
                path_digest(msg.merkle_path.key_path@),
                now,
                current_height,
            ),
    {
        let key = path_digest_of(&msg.merkle_path.key_path);
        let leaf = member_leaf_of(&msg.merkle_path.key_path, &key, &msg.value);
        self.check_proof(
            &msg.height,
            msg.delay_time_period,
            msg.delay_block_period,
            &msg.proof,
            &leaf,
            &key,
            now,
            current_height,
        )
    }

    /// Checks that nothing is stored under `msg.merkle_path` in the source
    /// chain's state committed by the root stored at `msg.height`, at time
    /// `now` and host height `current_height`.
    pub fn verify_non_membership(
        &self,
        msg: &VerifyNonMembershipMsg,
        now: u64,
        current_height: u64,
    ) -> (r: Result<(), ContractError>)
        requires
            self@.wf(),
        ensures
            r == proof_outcome(
                self@,
                msg.height,
                msg.delay_time_period,
                msg.delay_block_period,
                msg.proof@,
                absent_leaf(msg.merkle_path.key_path@),
                path_digest(msg.merkle_path.key_path@),
                now,
                current_height,
            ),
    {
        let key = path_digest_of(&msg.merkle_path.key_path);
        let leaf = absent_leaf_of(&msg.merkle_path.key_path, &key);
        self.check_proof(
            &msg.height,
            msg.delay_time_period,
            msg.delay_block_period,
            &msg.proof,
            &leaf,
            &key,
            now,
            current_height,
        )
    }
}

} // verus!

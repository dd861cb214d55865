use vstd::prelude::*;

use crate::codec::{be8, be_value, copy_bytes, lemma_be8, read_u64};
use crate::error::ContractError;
use crate::msg::{Height, InstantiateMsg};

verus! {

/// What is known of the source chain at one height, once read from the
/// bytes stored for it.
#[derive(Clone, Debug)]
pub struct ConsensusState {
    /// source-chain time at that height, in seconds
    pub timestamp: u64,
    /// the state root that proofs are checked against
    pub root: Vec<u8>,
}

pub struct ConsensusView {
    pub timestamp: u64,
    pub root: Seq<u8>,
}

impl View for ConsensusState {
    type V = ConsensusView;

    open spec fn view(&self) -> ConsensusView {
        ConsensusView { timestamp: self.timestamp, root: self.root@ }
    }
}

/// The client's configuration and trust metadata.
#[derive(Clone, Debug)]
pub struct ClientState {
    pub latest_height: Height,
    pub frozen_height: Option<Height>,
    /// the client state bytes given at instantiation: the trusting period,
    /// in seconds, as eight big-endian bytes
    pub data: Vec<u8>,
    /// identifies the verification logic in effect
    pub checksum: Vec<u8>,
}

pub struct ClientView {
    pub latest_height: Height,
    pub frozen_height: Option<Height>,
    pub data: Seq<u8>,
    pub checksum: Seq<u8>,
}

impl View for ClientState {
    type V = ClientView;

    open spec fn view(&self) -> ClientView {
        ClientView {
            latest_height: self.latest_height,
            frozen_height: self.frozen_height,
            data: self.data@,
            checksum: self.checksum@,
        }
    }
}

/// Everything the client persists: its client state, and the bytes of its
/// consensus states in order of height.
pub struct ClientStore {
    pub client_state: ClientState,
    pub consensus_states: Vec<(Height, Vec<u8>)>,
}

pub struct StoreView {
    pub client: ClientView,
    pub states: Seq<(Height, Seq<u8>)>,
}

impl View for ClientStore {
    type V = StoreView;

    open spec fn view(&self) -> StoreView {
        StoreView {
            client: self.client_state@,
            states: self.consensus_states@.map_values(|e: (Height, Vec<u8>)| (e.0, e.1@)),
        }
    }
}

/// The status of a client at a given time.
#[derive(Clone, Copy, Debug, PartialEq, Eq, Structural)]
pub enum Status {
    Active,
    Frozen,
    Expired,
}

/// The trusting period, when the client state bytes are its eight
/// big-endian bytes.
pub open spec fn decode_trusting_period(b: Seq<u8>) -> Option<u64> {
    if b.len() == 8 {
        Some(be_value(b) as u64)
    } else {
        None
    }
}

/// A consensus state as the eight big-endian bytes of its timestamp
/// followed by its 32-byte root.
pub open spec fn decode_consensus_state(b: Seq<u8>) -> Option<ConsensusView> {
    if b.len() == 40 {
        Some(ConsensusView { timestamp: be_value(b.subrange(0, 8)) as u64, root: b.subrange(8, 40) })
    } else {
        None
    }
}

/// The bytes that `decode_consensus_state` reads back.
pub open spec fn encode_consensus_state(timestamp: u64, root: Seq<u8>) -> Seq<u8> {
    be8(timestamp) + root
}

pub proof fn lemma_consensus_state_round_trip(timestamp: u64, root: Seq<u8>)
    requires
        root.len() == 32,
    ensures
        decode_consensus_state(encode_consensus_state(timestamp, root)) == Some(
            ConsensusView { timestamp, root },
        ),
{
    let b = encode_consensus_state(timestamp, root);
    lemma_be8(timestamp);
    assert(b.subrange(0, 8) =~= be8(timestamp));
    assert(b.subrange(8, 40) =~= root);
}

/// The latest consensus state is more than the trusting period old.
pub open spec fn expired_at(now: u64, timestamp: u64, trusting_period: u64) -> bool {
    now as int - timestamp as int > trusting_period as int
}

impl StoreView {
    /// At least one consensus state is stored; heights rise strictly along
    /// the store and the last is the latest height; every state after the
    /// first one, which the host gave, can be read; timestamps rise
    /// strictly among the states that can be read.
    pub open spec fn wf(self) -> bool {
        &&& self.states.len() >= 1
        &&& forall|i: int, j: int|
            0 <= i < j < self.states.len() ==> (#[trigger] self.states[i]).0.lt(
                (#[trigger] self.states[j]).0,
            )
        &&& forall|i: int|
            1 <= i < self.states.len() ==> decode_consensus_state((#[trigger] self.states[i]).1) is Some
        &&& forall|i: int, j: int|
            0 <= i < j < self.states.len() && decode_consensus_state(
                (#[trigger] self.states[i]).1,
            ) is Some && decode_consensus_state((#[trigger] self.states[j]).1) is Some
                ==> decode_consensus_state(self.states[i].1)->Some_0.timestamp
                < decode_consensus_state(self.states[j].1)->Some_0.timestamp
        &&& self.client.latest_height == self.states.last().0
    }

    pub open spec fn trusting_period(self) -> Option<u64> {
        decode_trusting_period(self.client.data)
    }

    /// The latest consensus state, when its bytes can be read.
    pub open spec fn latest(self) -> Option<ConsensusView> {
        decode_consensus_state(self.states.last().1)
    }

    pub open spec fn is_frozen(self) -> bool {
        self.client.frozen_height is Some
    }

    pub open spec fn has(self, h: Height) -> bool {
        exists|i: int| 0 <= i < self.states.len() && (#[trigger] self.states[i]).0 == h
    }

    /// The bytes of the consensus state stored at `h`, if any.
    pub open spec fn lookup(self, h: Height) -> Option<Seq<u8>> {
        if self.has(h) {
            Some(
                self.states[choose|i: int|
                    0 <= i < self.states.len() && (#[trigger] self.states[i]).0 == h].1,
            )
        } else {
            None
        }
    }

    /// The trusting period and the latest consensus state of a client that
    /// has not expired at time `now`.
    pub open spec fn anchor(self, now: u64) -> Result<(u64, ConsensusView), ContractError> {
        match self.trusting_period() {
            None => Err(ContractError::InvalidClientState),
            Some(tp) => match self.latest() {
                None => Err(ContractError::InvalidConsensusState),
                Some(cs) => if expired_at(now, cs.timestamp, tp) {
                    Err(ContractError::ClientExpired)
                } else {
                    Ok((tp, cs))
                },
            },
        }
    }

    /// Frozen once misbehaviour was found, else expired when the latest
    /// consensus state is older than the trusting period, else active.
    pub open spec fn status(self, now: u64) -> Result<Status, ContractError> {
        if self.is_frozen() {
            Ok(Status::Frozen)
        } else {
            match self.anchor(now) {
                Ok(_) => Ok(Status::Active),
                Err(ContractError::ClientExpired) => Ok(Status::Expired),
                Err(e) => Err(e),
            }
        }
    }

    pub open spec fn timestamp_at(self, h: Height) -> Result<u64, ContractError> {
        match self.lookup(h) {
            None => Err(ContractError::ConsensusStateNotFound),
            Some(b) => match decode_consensus_state(b) {
                None => Err(ContractError::InvalidConsensusState),
                Some(cs) => Ok(cs.timestamp),
            },
        }
    }
}

/// In a well-formed store, the entry at index `i` is the one found for its
/// height.
pub proof fn lemma_lookup_index(s: StoreView, i: int)
    requires
        s.wf(),
        0 <= i < s.states.len(),
    ensures
        s.has(s.states[i].0),
        s.lookup(s.states[i].0) == Some(s.states[i].1),
{
    let h = s.states[i].0;
    assert(s.has(h));
    let j = choose|j: int| 0 <= j < s.states.len() && (#[trigger] s.states[j]).0 == h;
    if j < i {
        assert(s.states[j].0.lt(s.states[i].0));
    } else if i < j {
        assert(s.states[i].0.lt(s.states[j].0));
    }
}

pub open spec fn first_height() -> Height {
    Height { revision_number: 0, revision_height: 1 }
}

/// The store that instantiation creates: the given bytes kept as they are,
/// the consensus state at height `(0, 1)`, which is the latest.
pub open spec fn initial_store(client_state: Seq<u8>, consensus_state: Seq<u8>, checksum: Seq<u8>) -> StoreView {
    StoreView {
        client: ClientView {
            latest_height: first_height(),
            frozen_height: None,
            data: client_state,
            checksum,
        },
        states: seq![(first_height(), consensus_state)],
    }
}

pub(crate) fn sub_bytes(b: &Vec<u8>, start: usize, end: usize) -> (r: Vec<u8>)
    requires
        start <= end <= b@.len(),
    ensures
        r@ == b@.subrange(start as int, end as int),
{
    let mut r: Vec<u8> = Vec::new();
    let mut i: usize = start;
    while i < end
        invariant
            start <= i <= end <= b@.len(),
            r@ == b@.subrange(start as int, i as int),
        decreases end - i,
    {
        r.push(b[i]);
        i = i + 1;
        proof {
            assert(r@ =~= b@.subrange(start as int, i as int));
        }
    }
    r
}

/// Creates the client: its client state at height `(0, 1)` and the given
/// consensus state stored at that height. The bytes are kept as given and
/// read only where they are needed.
pub fn instantiate(msg: &InstantiateMsg) -> (r: Result<ClientStore, ContractError>)
    ensures
        r is Ok,
        match r {
            Ok(s) => s@ == initial_store(msg.client_state@, msg.consensus_state@, msg.checksum@)
                && s@.wf(),
            Err(_) => false,
        },
{
    let height = Height { revision_number: 0, revision_height: 1 };
    let store = ClientStore {
        client_state: ClientState {
            latest_height: height,
            frozen_height: None,
            data: copy_bytes(&msg.client_state),
            checksum: copy_bytes(&msg.checksum),
        },
        consensus_states: vec![(height, copy_bytes(&msg.consensus_state))],
    };
    proof {
        assert(store@.states =~= seq![(first_height(), msg.consensus_state@)]);
    }
    Ok(store)
}

/// Reads a consensus state from its bytes.
pub fn read_consensus_state(b: &Vec<u8>) -> (r: Option<ConsensusState>)
    ensures
        match r {
            Some(c) => decode_consensus_state(b@) == Some(c@),
            None => decode_consensus_state(b@) is None,
        },
{
    if b.len() != 40 {
        return None;
    }
    Some(ConsensusState { timestamp: read_u64(b, 0), root: sub_bytes(b, 8, 40) })
}

impl ClientStore {
    /// The index of the consensus state stored at `h`, if any.
    pub fn find(&self, h: &Height) -> (r: Option<usize>)
        requires
            self@.wf(),
        ensures
            match r {
                Some(i) => i < self@.states.len() && self@.states[i as int].0 == *h
                    && self@.lookup(*h) == Some(self@.states[i as int].1),
                None => !self@.has(*h) && self@.lookup(*h) is None,
            },
    {
        let mut i: usize = 0;
        while i < self.consensus_states.len()
            invariant
                self@.wf(),
                i <= self@.states.len(),
                self@.states.len() == self.consensus_states@.len(),
                forall|j: int| 0 <= j < i ==> (#[trigger] self@.states[j]).0 != *h,
            decreases self.consensus_states@.len() - i,
        {
            if self.consensus_states[i].0 == *h {
                proof {
                    lemma_lookup_index(self@, i as int);
                }
                return Some(i);
            }
            i = i + 1;
        }
        None
    }

    /// The trusting period and the latest consensus state, where the
    /// client has not expired at time `now`.
    pub fn anchor(&self, now: u64) -> (r: Result<(u64, ConsensusState), ContractError>)
        requires
            self@.wf(),
        ensures
            match r {
                Ok((tp, cs)) => self@.anchor(now) == Ok::<(u64, ConsensusView), ContractError>(
                    (tp, cs@),
                ),
                Err(e) => self@.anchor(now) == Err::<(u64, ConsensusView), ContractError>(e),
            },
    {
        if self.client_state.data.len() != 8 {
            return Err(ContractError::InvalidClientState);
        }
        let tp = read_u64(&self.client_state.data, 0);
        proof {
            assert(self.client_state.data@.subrange(0, 8) =~= self.client_state.data@);
        }
        let cs = match read_consensus_state(&self.consensus_states[self.consensus_states.len() - 1].1) {
            None => return Err(ContractError::InvalidConsensusState),
            Some(cs) => cs,
        };
        if now > cs.timestamp && now - cs.timestamp > tp {
            return Err(ContractError::ClientExpired);
        }
        Ok((tp, cs))
    }

    /// The status of the client at time `now`.
    pub fn status(&self, now: u64) -> (r: Result<Status, ContractError>)
        requires
            self@.wf(),
        ensures
            r == self@.status(now),
    {
        if self.client_state.frozen_height.is_some() {
            return Ok(Status::Frozen);
        }
        match self.anchor(now) {
            Ok(_) => Ok(Status::Active),
            Err(ContractError::ClientExpired) => Ok(Status::Expired),
            Err(e) => Err(e),
        }
    }

    /// The timestamp of the consensus state stored at `height`.
    pub fn timestamp_at_height(&self, height: &Height) -> (r: Result<u64, ContractError>)
        requires
            self@.wf(),
        ensures
            r == self@.timestamp_at(*height),
    {
        match self.find(height) {
            None => Err(ContractError::ConsensusStateNotFound),
            Some(i) => match read_consensus_state(&self.consensus_states[i].1) {
                None => Err(ContractError::InvalidConsensusState),
                Some(cs) => Ok(cs.timestamp),
            },
        }
    }
}

} // verus!

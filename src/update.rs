use vstd::prelude::*;

use crate::client::{
    decode_consensus_state, encode_consensus_state, lemma_consensus_state_round_trip,
    lemma_lookup_index, read_consensus_state, sub_bytes, ClientStore, ClientView, ConsensusState,
    ConsensusView, StoreView,
};
use crate::codec::{be_value, bytes_eq, extend_bytes, push_u64, read_u64};
use crate::error::ContractError;
use crate::msg::{
    CheckForMisbehaviourMsg, CheckForMisbehaviourResult, Height, UpdateStateMsg,
    UpdateStateOnMisbehaviourMsg, UpdateStateResult, VerifyClientMessageMsg,
};

verus! {

/// A header of the source chain, as a client message carries it: the
/// height it claims, the stored height whose consensus state it chains
/// from, its timestamp and its 32-byte state root.
#[derive(Clone, Debug)]
pub struct Header {
    pub height: Height,
    pub trusted_height: Height,
    pub timestamp: u64,
    pub root: Vec<u8>,
}

pub struct HeaderView {
    pub height: Height,
    pub trusted_height: Height,
    pub timestamp: u64,
    pub root: Seq<u8>,
}

impl View for Header {
    type V = HeaderView;

    open spec fn view(&self) -> HeaderView {
        HeaderView {
            height: self.height,
            trusted_height: self.trusted_height,
            timestamp: self.timestamp,
            root: self.root@,
        }
    }
}

pub open spec fn u64_at(b: Seq<u8>, k: int) -> u64 {
    be_value(b.subrange(k, k + 8)) as u64
}

/// A client message is a header in 72 bytes: the height's revision number
/// and height, the trusted height's revision number and height, the
/// timestamp (each eight big-endian bytes), then the root.
pub open spec fn decode_header(b: Seq<u8>) -> Option<HeaderView> {
    if b.len() == 72 {
        Some(
            HeaderView {
                height: Height { revision_number: u64_at(b, 0), revision_height: u64_at(b, 8) },
                trusted_height: Height {
                    revision_number: u64_at(b, 16),
                    revision_height: u64_at(b, 24),
                },
                timestamp: u64_at(b, 32),
                root: b.subrange(40, 72),
            },
        )
    } else {
        None
    }
}

/// Whether a header is accepted by a store that is neither frozen nor
/// expired, whose trusting period is `tp` and latest consensus state is
/// `latest`: `Ok(true)` when its height is new and is to be stored,
/// `Ok(false)` when the same consensus state is already stored there.
pub open spec fn header_verdict(s: StoreView, h: HeaderView, tp: u64, latest: ConsensusView) -> Result<
    bool,
    ContractError,
> {
    match s.lookup(h.trusted_height) {
        None => Err(ContractError::InvalidHeader),
        Some(tb) => if !h.trusted_height.lt(h.height) {
            Err(ContractError::InvalidHeader)
        } else if h.height.lt(s.client.latest_height) {
            Err(ContractError::StaleHeader)
        } else if h.height == s.client.latest_height {
            if latest.timestamp == h.timestamp && latest.root == h.root {
                Ok(false)
            } else {
                Err(ContractError::MisbehaviourDetected)
            }
        } else {
            match decode_consensus_state(tb) {
                None => Err(ContractError::InvalidConsensusState),
                Some(t) => if h.timestamp <= latest.timestamp || h.timestamp as int
                    - t.timestamp as int > tp as int {
                    Err(ContractError::InvalidHeader)
                } else {
                    Ok(true)
                },
            }
        },
    }
}

/// The store with the header's consensus state added as the latest.
pub open spec fn with_header(s: StoreView, h: HeaderView) -> StoreView {
    StoreView {
        client: ClientView { latest_height: h.height, ..s.client },
        states: s.states.push((h.height, encode_consensus_state(h.timestamp, h.root))),
    }
}

/// What an update with client message `m` at time `now` does: the new
/// store and the heights it reports, or the error.
pub open spec fn update_outcome(s: StoreView, m: Seq<u8>, now: u64) -> Result<
    (StoreView, Seq<Height>),
    ContractError,
> {
    if s.is_frozen() {
        Err(ContractError::ClientFrozen)
    } else {
        match s.anchor(now) {
            Err(e) => Err(e),
            Ok((tp, latest)) => match decode_header(m) {
                None => Err(ContractError::InvalidHeader),
                Some(h) => match header_verdict(s, h, tp, latest) {
                    Err(e) => Err(e),
                    Ok(true) => Ok((with_header(s, h), seq![h.height])),
                    Ok(false) => Ok((s, seq![h.height])),
                },
            },
        }
    }
}

/// A stored consensus state and a header that cannot both be true of one
/// chain: two states at one height, or timestamps that do not rise with
/// the height.
pub open spec fn conflicts(e: (Height, ConsensusView), h: HeaderView) -> bool {
    ||| e.0 == h.height && (e.1.timestamp != h.timestamp || e.1.root != h.root)
    ||| e.0.lt(h.height) && e.1.timestamp >= h.timestamp
    ||| h.height.lt(e.0) && e.1.timestamp <= h.timestamp
}

/// The header chains from a stored height below its own.
pub open spec fn header_consistent(s: StoreView, h: HeaderView) -> bool {
    s.has(h.trusted_height) && h.trusted_height.lt(h.height)
}

/// Some stored consensus state that can be read conflicts with the header.
pub open spec fn misbehaviour_in(s: StoreView, h: HeaderView) -> bool {
    exists|i: int|
        0 <= i < s.states.len() && decode_consensus_state((#[trigger] s.states[i]).1) is Some
            && conflicts((s.states[i].0, decode_consensus_state(s.states[i].1)->Some_0), h)
}

/// Whether client message `m` shows misbehaviour against the store.
pub open spec fn misbehaviour_outcome(s: StoreView, m: Seq<u8>) -> Result<bool, ContractError> {
    match decode_header(m) {
        None => Err(ContractError::InvalidHeader),
        Some(h) => if !header_consistent(s, h) {
            Err(ContractError::InvalidHeader)
        } else {
            Ok(misbehaviour_in(s, h))
        },
    }
}

/// The store after client message `m` was submitted as misbehaviour: frozen
/// at the header's height, its consensus states untouched.
pub open spec fn freeze_outcome(s: StoreView, m: Seq<u8>) -> Result<StoreView, ContractError> {
    if s.is_frozen() {
        Err(ContractError::ClientFrozen)
    } else {
        match misbehaviour_outcome(s, m) {
            Err(e) => Err(e),
            Ok(false) => Err(ContractError::NoMisbehaviour),
            Ok(true) => Ok(
                StoreView {
                    client: ClientView {
                        frozen_height: Some(decode_header(m)->Some_0.height),
                        ..s.client
                    },
                    states: s.states,
                },
            ),
        }
    }
}

pub open spec fn verify_outcome(s: StoreView, m: Seq<u8>, now: u64) -> Result<(), ContractError> {
    match update_outcome(s, m, now) {
        Ok(_) => Ok(()),
        Err(e) => Err(e),
    }
}

/// Adding a header that the store accepts as new keeps the store well
/// formed and keeps what was stored.
pub proof fn lemma_with_header(s: StoreView, h: HeaderView, tp: u64, latest: ConsensusView)
    requires
        s.wf(),
        s.latest() == Some(latest),
        h.root.len() == 32,
        header_verdict(s, h, tp, latest) == Ok::<bool, ContractError>(true),
    ensures
        with_header(s, h).wf(),
        with_header(s, h).latest() == Some(ConsensusView { timestamp: h.timestamp, root: h.root }),
        s.client.latest_height.lt(h.height),
        latest.timestamp < h.timestamp,
        forall|i: int| 0 <= i < s.states.len() ==> with_header(s, h).states[i] == s.states[i],
{
    let s1 = with_header(s, h);
    let n = s.states.len() - 1;
    lemma_consensus_state_round_trip(h.timestamp, h.root);
    assert(s1.states[n + 1].1 == encode_consensus_state(h.timestamp, h.root));
    assert forall|i: int, j: int| 0 <= i < j < s1.states.len() implies (
    #[trigger] s1.states[i]).0.lt((#[trigger] s1.states[j]).0) by {
        if j == s1.states.len() - 1 {
            if i < n {
                assert(s.states[i].0.lt(s.states[n].0));
            }
        } else {
            assert(s1.states[i] == s.states[i]);
            assert(s1.states[j] == s.states[j]);
        }
    }
    assert forall|i: int| 1 <= i < s1.states.len() implies decode_consensus_state(
        (#[trigger] s1.states[i]).1,
    ) is Some by {
        if i < s1.states.len() - 1 {
            assert(s1.states[i] == s.states[i]);
        }
    }
    assert forall|i: int, j: int|
        0 <= i < j < s1.states.len() && decode_consensus_state((#[trigger] s1.states[i]).1) is Some
            && decode_consensus_state((#[trigger] s1.states[j]).1) is Some implies decode_consensus_state(
        s1.states[i].1,
    )->Some_0.timestamp < decode_consensus_state(s1.states[j].1)->Some_0.timestamp by {
        assert(s1.states[i] == s.states[i]);
        if j == s1.states.len() - 1 {
            if i < n {
                assert(s.states[n] == s1.states[n]);
                assert(decode_consensus_state(s.states[n].1) is Some);
            }
        } else {
            assert(s1.states[j] == s.states[j]);
        }
    }
}

/// An accepted update keeps the store well formed, never lowers the latest
/// height, reports that height, and leaves every consensus state stored
/// before in its place and unchanged.
pub proof fn lemma_update_monotone(s: StoreView, m: Seq<u8>, now: u64)
    requires
        s.wf(),
        update_outcome(s, m, now) is Ok,
    ensures
        ({
            let (s1, hs) = update_outcome(s, m, now)->Ok_0;
            &&& s1.wf()
            &&& s.client.latest_height.le(s1.client.latest_height)
            &&& hs == seq![s1.client.latest_height]
            &&& s.states.len() <= s1.states.len()
            &&& forall|i: int| 0 <= i < s.states.len() ==> s1.states[i] == s.states[i]
            &&& forall|h: Height| s.has(h) ==> s1.lookup(h) == s.lookup(h)
        }),
{
    let h = decode_header(m)->Some_0;
    let (tp, latest) = s.anchor(now)->Ok_0;
    let s1 = update_outcome(s, m, now)->Ok_0.0;
    if header_verdict(s, h, tp, latest) == Ok::<bool, ContractError>(true) {
        lemma_with_header(s, h, tp, latest);
        assert forall|g: Height| s.has(g) implies s1.lookup(g) == s.lookup(g) by {
            let i = choose|i: int| 0 <= i < s.states.len() && (#[trigger] s.states[i]).0 == g;
            lemma_lookup_index(s, i);
            lemma_lookup_index(s1, i);
        }
    }
}

/// Submitting an accepted client message a second time reports the same
/// heights and leaves the store as the first call left it.
pub proof fn lemma_update_idempotent(s: StoreView, m: Seq<u8>, now: u64)
    requires
        s.wf(),
        update_outcome(s, m, now) is Ok,
    ensures
        update_outcome(update_outcome(s, m, now)->Ok_0.0, m, now) == update_outcome(s, m, now),
{
    let h = decode_header(m)->Some_0;
    let (tp, latest) = s.anchor(now)->Ok_0;
    if header_verdict(s, h, tp, latest) == Ok::<bool, ContractError>(true) {
        let s1 = with_header(s, h);
        let l1 = ConsensusView { timestamp: h.timestamp, root: h.root };
        lemma_with_header(s, h, tp, latest);
        lemma_update_monotone(s, m, now);
        assert(s1.trusting_period() == s.trusting_period());
        assert(s1.anchor(now) == Ok::<(u64, ConsensusView), ContractError>((tp, l1)));
        assert(s1.lookup(h.trusted_height) == s.lookup(h.trusted_height));
        assert(header_verdict(s1, h, tp, l1) == Ok::<bool, ContractError>(false));
    }
}

/// Reads a header from a client message.
pub fn decode_client_message(b: &Vec<u8>) -> (r: Option<Header>)
    ensures
        match r {
            Some(h) => decode_header(b@) == Some(h@),
            None => decode_header(b@) is None,
        },
{
    if b.len() != 72 {
        return None;
    }
    let h = Header {
        height: Height { revision_number: read_u64(b, 0), revision_height: read_u64(b, 8) },
        trusted_height: Height {
            revision_number: read_u64(b, 16),
            revision_height: read_u64(b, 24),
        },
        timestamp: read_u64(b, 32),
        root: sub_bytes(b, 40, 72),
    };
    Some(h)
}

impl ClientStore {
    fn header_verdict(&self, h: &Header, tp: u64, latest: &ConsensusState) -> (r: Result<
        bool,
        ContractError,
    >)
        requires
            self@.wf(),
        ensures
            r == header_verdict(self@, h@, tp, latest@),
    {
        let t = match self.find(&h.trusted_height) {
            None => return Err(ContractError::InvalidHeader),
            Some(i) => i,
        };
        if !h.trusted_height.is_below(&h.height) {
            return Err(ContractError::InvalidHeader);
        }
        let latest_height = self.client_state.latest_height;
        if h.height.is_below(&latest_height) {
            return Err(ContractError::StaleHeader);
        }
        if h.height == latest_height {
            if latest.timestamp == h.timestamp && bytes_eq(&latest.root, &h.root) {
                return Ok(false);
            } else {
                return Err(ContractError::MisbehaviourDetected);
            }
        }
        let trusted = match read_consensus_state(&self.consensus_states[t].1) {
            None => return Err(ContractError::InvalidConsensusState),
            Some(c) => c,
        };
        if h.timestamp <= latest.timestamp || (h.timestamp > trusted.timestamp && h.timestamp
            - trusted.timestamp > tp) {
            return Err(ContractError::InvalidHeader);
        }
        Ok(true)
    }

    /// Updates the client with the header in `msg`, at time `now`. On
    /// success the header's height is reported, and its consensus state is
    /// stored as the latest unless the same one is already stored there. On
    /// failure the store is left as it was.
    pub fn update_state(&mut self, msg: &UpdateStateMsg, now: u64) -> (r: Result<
        UpdateStateResult,
        ContractError,
    >)
        requires
            old(self)@.wf(),
        ensures
            final(self)@.wf(),
            match r {
                Ok(res) => update_outcome(old(self)@, msg.client_message@, now) == Ok::<
                    (StoreView, Seq<Height>),
                    ContractError,
                >((final(self)@, res.heights@)),
                Err(e) => update_outcome(old(self)@, msg.client_message@, now) == Err::<
                    (StoreView, Seq<Height>),
                    ContractError,
                >(e) && final(self)@ == old(self)@,
            },
    {
        if self.client_state.frozen_height.is_some() {
            return Err(ContractError::ClientFrozen);
        }
        let (tp, latest) = self.anchor(now)?;
        let h = match decode_client_message(&msg.client_message) {
            None => return Err(ContractError::InvalidHeader),
            Some(h) => h,
        };
        let fresh = match self.header_verdict(&h, tp, &latest) {
            Err(e) => return Err(e),
            Ok(f) => f,
        };
        let height = h.height;
        let heights = vec![height];
        if fresh {
            let ghost hv = h@;
            let mut bytes: Vec<u8> = Vec::new();
            push_u64(&mut bytes, h.timestamp);
            extend_bytes(&mut bytes, &h.root);
            self.consensus_states.push((height, bytes));
            self.client_state.latest_height = height;
            proof {
                let s0 = old(self)@;
                lemma_with_header(s0, hv, tp, latest@);
                assert(self@.states =~= with_header(s0, hv).states);
                assert(self@.client == with_header(s0, hv).client);
            }
        }
        proof {
            assert(heights@ =~= seq![height]);
        }
        Ok(UpdateStateResult { heights })
    }

    /// Checks the header in `msg` as an update at time `now` would, without
    /// changing the store.
    pub fn verify_client_message(&self, msg: &VerifyClientMessageMsg, now: u64) -> (r: Result<
        (),
        ContractError,
    >)
        requires
            self@.wf(),
        ensures
            r == verify_outcome(self@, msg.client_message@, now),
    {
        if self.client_state.frozen_height.is_some() {
            return Err(ContractError::ClientFrozen);
        }
        let (tp, latest) = self.anchor(now)?;
        let h = match decode_client_message(&msg.client_message) {
            None => return Err(ContractError::InvalidHeader),
            Some(h) => h,
        };
        match self.header_verdict(&h, tp, &latest) {
            Err(e) => Err(e),
            Ok(_) => Ok(()),
        }
    }

    fn conflict_found(&self, h: &Header) -> (r: bool)
        requires
            self@.wf(),
        ensures
            r == misbehaviour_in(self@, h@),
    {
        let mut i: usize = 0;
        while i < self.consensus_states.len()
            invariant
                i <= self@.states.len(),
                self@.states.len() == self.consensus_states@.len(),
                forall|j: int|
                    0 <= j < i && decode_consensus_state((#[trigger] self@.states[j]).1) is Some
                        ==> !conflicts(
                        (self@.states[j].0, decode_consensus_state(self@.states[j].1)->Some_0),
                        h@,
                    ),
            decreases self.consensus_states@.len() - i,
        {
            let height = self.consensus_states[i].0;
            match read_consensus_state(&self.consensus_states[i].1) {
                None => {},
                Some(cs) => {
                    let same = height == h.height;
                    let differs = cs.timestamp != h.timestamp || !bytes_eq(&cs.root, &h.root);
                    let found = (same && differs) || (height.is_below(&h.height) && cs.timestamp
                        >= h.timestamp) || (h.height.is_below(&height) && cs.timestamp
                        <= h.timestamp);
                    if found {
                        assert(self@.states[i as int].0 == height);
                        assert(decode_consensus_state(self@.states[i as int].1) == Some(cs@));
                        assert(conflicts((height, cs@), h@));
                        return true;
                    }
                },
            }
            i = i + 1;
        }
        false
    }

    fn consistent_header(&self, b: &Vec<u8>) -> (r: Result<Header, ContractError>)
        requires
            self@.wf(),
        ensures
            match r {
                Ok(h) => decode_header(b@) == Some(h@) && header_consistent(self@, h@),
                Err(e) => e == ContractError::InvalidHeader && match decode_header(b@) {
                    None => true,
                    Some(h) => !header_consistent(self@, h),
                },
            },
    {
        let h = match decode_client_message(b) {
            None => return Err(ContractError::InvalidHeader),
            Some(h) => h,
        };
        if self.find(&h.trusted_height).is_none() || !h.trusted_height.is_below(&h.height) {
            return Err(ContractError::InvalidHeader);
        }
        Ok(h)
    }

    /// Whether the header in `msg` conflicts with a stored consensus state.
    pub fn check_for_misbehaviour(&self, msg: &CheckForMisbehaviourMsg) -> (r: Result<
        CheckForMisbehaviourResult,
        ContractError,
    >)
        requires
            self@.wf(),
        ensures
            match r {
                Ok(res) => misbehaviour_outcome(self@, msg.client_message@) == Ok::<
                    bool,
                    ContractError,
                >(res.found_misbehaviour),
                Err(e) => misbehaviour_outcome(self@, msg.client_message@) == Err::<
                    bool,
                    ContractError,
                >(e),
            },
    {
        let h = match self.consistent_header(&msg.client_message) {
            Err(e) => return Err(e),
            Ok(h) => h,
        };
        Ok(CheckForMisbehaviourResult { found_misbehaviour: self.conflict_found(&h) })
    }

    /// Freezes the client at the height of the header in `msg`, where that
    /// header shows misbehaviour; the consensus states are left as they are.
    pub fn update_state_on_misbehaviour(&mut self, msg: &UpdateStateOnMisbehaviourMsg) -> (r:
        Result<(), ContractError>)
        requires
            old(self)@.wf(),
        ensures
            final(self)@.wf(),
            match r {
                Ok(_) => freeze_outcome(old(self)@, msg.client_message@) == Ok::<
                    StoreView,
                    ContractError,
                >(final(self)@),
                Err(e) => freeze_outcome(old(self)@, msg.client_message@) == Err::<
                    StoreView,
                    ContractError,
                >(e) && final(self)@ == old(self)@,
            },
    {
        if self.client_state.frozen_height.is_some() {
            return Err(ContractError::ClientFrozen);
        }
        let h = match self.consistent_header(&msg.client_message) {
            Err(e) => return Err(e),
            Ok(h) => h,
        };
        if !self.conflict_found(&h) {
            return Err(ContractError::NoMisbehaviour);
        }
        self.client_state.frozen_height = Some(h.height);
        Ok(())
    }
}

} // verus!

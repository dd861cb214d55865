use vstd::prelude::*;

use crate::client::{
    decode_consensus_state as consensus_state_of, read_consensus_state, sub_bytes, ClientState,
    ClientStore, ClientView, StoreView,
};
use crate::codec::{be8, be_value, bytes_eq, extend_bytes, lemma_be8, push_u64, read_u64};
use crate::error::ContractError;
use crate::update::u64_at;
use crate::msg::{ExportMetadataResult, GenesisMetadata, Height};
use crate::state::{consensus_key, consensus_key_bytes};

verus! {

/// The bytes of `clientState`, the client state's store key.
pub open spec fn client_key() -> Seq<u8> {
    seq![99u8, 108, 105, 101, 110, 116, 83, 116, 97, 116, 101]
}

/// The client state as bytes: the latest height, a byte that tells whether
/// the client is frozen, the frozen height (zero when it is not), the
/// length of the host's client state bytes, those bytes, then the checksum.
pub open spec fn encode_client(c: ClientView) -> Seq<u8> {
    let frozen = match c.frozen_height {
        None => seq![0u8] + be8(0) + be8(0),
        Some(f) => seq![1u8] + be8(f.revision_number) + be8(f.revision_height),
    };
    be8(c.latest_height.revision_number) + be8(c.latest_height.revision_height) + frozen + be8(
        c.data.len() as u64,
    ) + c.data + c.checksum
}

/// A consensus state record's value: its height, then its stored bytes.
pub open spec fn encode_consensus(h: Height, cs: Seq<u8>) -> Seq<u8> {
    be8(h.revision_number) + be8(h.revision_height) + cs
}

pub open spec fn consensus_record(e: (Height, Seq<u8>)) -> (Seq<u8>, Seq<u8>) {
    (consensus_key(e.0), encode_consensus(e.0, e.1))
}

/// Every stored record as (key, value): the client state first, then the
/// consensus states in rising order of height.
pub open spec fn export_records(s: StoreView) -> Seq<(Seq<u8>, Seq<u8>)> {
    seq![(client_key(), encode_client(s.client))] + s.states.map_values(
        |e: (Height, Seq<u8>)| consensus_record(e),
    )
}

pub open spec fn record_view(g: GenesisMetadata) -> (Seq<u8>, Seq<u8>) {
    (g.key@, g.value@)
}

/// Reads a client state written by `encode_client`.
pub open spec fn decode_client(v: Seq<u8>) -> Option<ClientView> {
    if v.len() >= 41 && v[16] <= 1 && 41 + u64_at(v, 33) <= v.len() {
        Some(
            ClientView {
                latest_height: Height { revision_number: u64_at(v, 0), revision_height: u64_at(v, 8) },
                frozen_height: if v[16] == 1 {
                    Some(Height { revision_number: u64_at(v, 17), revision_height: u64_at(v, 25) })
                } else {
                    None
                },
                data: v.subrange(41, 41 + u64_at(v, 33)),
                checksum: v.subrange(41 + u64_at(v, 33), v.len() as int),
            },
        )
    } else {
        None
    }
}

/// Reads a consensus-state record's value written by `encode_consensus`.
pub open spec fn decode_consensus(v: Seq<u8>) -> Option<(Height, Seq<u8>)> {
    if v.len() >= 16 {
        Some(
            (
                Height { revision_number: u64_at(v, 0), revision_height: u64_at(v, 8) },
                v.subrange(16, v.len() as int),
            ),
        )
    } else {
        None
    }
}

/// A consensus-state record that can be read, stored under its own key.
pub open spec fn record_ok(r: (Seq<u8>, Seq<u8>)) -> bool {
    decode_consensus(r.1) is Some && r.0 == consensus_key(decode_consensus(r.1)->Some_0.0)
}

pub open spec fn imported_store(rs: Seq<(Seq<u8>, Seq<u8>)>) -> StoreView {
    StoreView {
        client: decode_client(rs[0].1)->Some_0,
        states: rs.drop_first().map_values(
            |r: (Seq<u8>, Seq<u8>)| decode_consensus(r.1)->Some_0,
        ),
    }
}

/// The store that exported records describe: the client state record
/// first, then one record for each consensus state, which together form a
/// well-formed store.
pub open spec fn import_outcome(rs: Seq<(Seq<u8>, Seq<u8>)>) -> Result<StoreView, ContractError> {
    if rs.len() < 2 || rs[0].0 != client_key() || decode_client(rs[0].1) is None {
        Err(ContractError::InvalidClientState)
    } else if exists|i: int| 1 <= i < rs.len() && !record_ok(#[trigger] rs[i]) {
        Err(ContractError::InvalidConsensusState)
    } else if !imported_store(rs).wf() {
        Err(ContractError::InvalidConsensusState)
    } else {
        Ok(imported_store(rs))
    }
}

fn decode_client_state(v: &Vec<u8>) -> (r: Option<ClientState>)
    ensures
        match r {
            Some(c) => decode_client(v@) == Some(c@),
            None => decode_client(v@) is None,
        },
{
    if v.len() < 41 || v[16] > 1 {
        return None;
    }
    let data_len = read_u64(v, 33);
    if data_len > (v.len() - 41) as u64 {
        return None;
    }
    let data_end = 41 + data_len as usize;
    let frozen_height = if v[16] == 1 {
        Some(Height { revision_number: read_u64(v, 17), revision_height: read_u64(v, 25) })
    } else {
        None
    };
    Some(
        ClientState {
            latest_height: Height { revision_number: read_u64(v, 0), revision_height: read_u64(v, 8) },
            frozen_height,
            data: sub_bytes(v, 41, data_end),
            checksum: sub_bytes(v, data_end, v.len()),
        },
    )
}

fn decode_consensus_state(v: &Vec<u8>) -> (r: Option<(Height, Vec<u8>)>)
    ensures
        match r {
            Some(e) => decode_consensus(v@) == Some((e.0, e.1@)),
            None => decode_consensus(v@) is None,
        },
{
    if v.len() < 16 {
        return None;
    }
    Some(
        (
            Height { revision_number: read_u64(v, 0), revision_height: read_u64(v, 8) },
            sub_bytes(v, 16, v.len()),
        ),
    )
}

impl ClientStore {
    /// Rebuilds a store from its exported records.
    pub fn from_metadata(records: &Vec<GenesisMetadata>) -> (r: Result<ClientStore, ContractError>)
        ensures
            match r {
                Ok(st) => import_outcome(records@.map_values(|g: GenesisMetadata| record_view(g)))
                    == Ok::<StoreView, ContractError>(st@) && st@.wf(),
                Err(e) => import_outcome(records@.map_values(|g: GenesisMetadata| record_view(g)))
                    == Err::<StoreView, ContractError>(e),
            },
    {
        let ghost rv = records@.map_values(|g: GenesisMetadata| record_view(g));
        if records.len() < 2 {
            return Err(ContractError::InvalidClientState);
        }
        let ck: Vec<u8> = vec![99u8, 108, 105, 101, 110, 116, 83, 116, 97, 116, 101];
        if !bytes_eq(&records[0].key, &ck) {
            return Err(ContractError::InvalidClientState);
        }
        let client_state = match decode_client_state(&records[0].value) {
            None => return Err(ContractError::InvalidClientState),
            Some(c) => c,
        };
        proof {
            assert(ck@ == client_key());
            assert(rv[0] == record_view(records@[0]));
        }
        let mut states: Vec<(Height, Vec<u8>)> = Vec::new();
        let mut i: usize = 1;
        while i < records.len()
            invariant
                1 <= i <= records@.len(),
                rv == records@.map_values(|g: GenesisMetadata| record_view(g)),
                rv.len() == records@.len(),
                rv.len() >= 2,
                rv[0].0 == client_key(),
                decode_client(rv[0].1) == Some(client_state@),
                states@.len() == i - 1,
                forall|j: int| 1 <= j < i ==> record_ok(#[trigger] rv[j]),
                forall|j: int|
                    0 <= j < i - 1 ==> (#[trigger] states@[j].0, states@[j].1@) == decode_consensus(
                        rv[j + 1].1,
                    )->Some_0,
                forall|a: int, b: int|
                    0 <= a < b < i - 1 ==> (#[trigger] states@[a]).0.lt((#[trigger] states@[b]).0),
                forall|a: int|
                    1 <= a < i - 1 ==> consensus_state_of((#[trigger] states@[a]).1@) is Some,
                forall|a: int, b: int|
                    0 <= a < b < i - 1 && consensus_state_of((#[trigger] states@[a]).1@) is Some
                        && consensus_state_of((#[trigger] states@[b]).1@) is Some
                        ==> consensus_state_of(states@[a].1@)->Some_0.timestamp
                        < consensus_state_of(states@[b].1@)->Some_0.timestamp,
            decreases records@.len() - i,
        {
            let e = match decode_consensus_state(&records[i].value) {
                None => {
                    assert(!record_ok(rv[i as int]));
                    return Err(ContractError::InvalidConsensusState);
                },
                Some(e) => e,
            };
            let key = crate::state::consensus_key_bytes(&e.0);
            if !bytes_eq(&key, &records[i].key) {
                assert(!record_ok(rv[i as int]));
                return Err(ContractError::InvalidConsensusState);
            }
            if states.len() > 0 {
                let n = states.len();
                let ok = match read_consensus_state(&e.1) {
                    None => false,
                    Some(cs) => {
                        if !states[n - 1].0.is_below(&e.0) {
                            false
                        } else {
                            match read_consensus_state(&states[n - 1].1) {
                                None => true,
                                Some(last) => last.timestamp < cs.timestamp,
                            }
                        }
                    },
                };
                if !ok {
                    proof {
                        if forall|j: int| 1 <= j < rv.len() ==> record_ok(#[trigger] rv[j]) {
                            let s = imported_store(rv);
                            let k = n - 1;
                            assert(s.states[k] == decode_consensus(rv[k + 1].1)->Some_0);
                            assert(s.states[k + 1] == decode_consensus(rv[k + 2].1)->Some_0);
                            assert(s.states[k] == (states@[k].0, states@[k].1@));
                            assert(s.states[k + 1] == (e.0, e.1@));
                            assert(!s.wf());
                        }
                    }
                    return Err(ContractError::InvalidConsensusState);
                }
            }
            proof {
                let n = states@.len() as int;
                assert forall|a: int| 0 <= a < n && consensus_state_of(states@[a].1@) is Some
                    && consensus_state_of(e.1@) is Some implies consensus_state_of(
                    states@[a].1@,
                )->Some_0.timestamp < consensus_state_of(e.1@)->Some_0.timestamp by {
                    if a < n - 1 {
                        assert(consensus_state_of(states@[n - 1].1@) is Some);
                    }
                }
            }
            states.push(e);
            i = i + 1;
        }
        let last_height = states[states.len() - 1].0;
        let store = ClientStore { client_state, consensus_states: states };
        proof {
            let s = imported_store(rv);
            assert(store@.states =~= s.states) by {
                assert forall|j: int| 0 <= j < s.states.len() implies store@.states[j]
                    == s.states[j] by {
                    assert((states@[j].0, states@[j].1@) == decode_consensus(rv[j + 1].1)->Some_0);
                }
            }
        }
        if !(store.client_state.latest_height == last_height) {
            return Err(ContractError::InvalidConsensusState);
        }
        Ok(store)
    }

    fn encode_client_state(&self) -> (r: Vec<u8>)
        ensures
            r@ == encode_client(self@.client),
    {
        let c = &self.client_state;
        let mut out: Vec<u8> = Vec::new();
        push_u64(&mut out, c.latest_height.revision_number);
        push_u64(&mut out, c.latest_height.revision_height);
        match c.frozen_height {
            None => {
                out.push(0u8);
                push_u64(&mut out, 0);
                push_u64(&mut out, 0);
            },
            Some(f) => {
                out.push(1u8);
                push_u64(&mut out, f.revision_number);
                push_u64(&mut out, f.revision_height);
            },
        }
        push_u64(&mut out, c.data.len() as u64);
        extend_bytes(&mut out, &c.data);
        extend_bytes(&mut out, &c.checksum);
        proof {
            assert(out@ =~= encode_client(self@.client));
        }
        out
    }

    /// A snapshot of everything the client stores, as (key, value) records:
    /// the client state under `clientState`, then each consensus state under
    /// its key, in rising order of height. Equal stores export equal bytes.
    pub fn export_metadata(&self) -> (r: ExportMetadataResult)
        requires
            self@.wf(),
        ensures
            r.genesis_metadata@.map_values(|g: GenesisMetadata| record_view(g)) == export_records(
                self@,
            ),
    {
        let mut out: Vec<GenesisMetadata> = Vec::new();
        out.push(
            GenesisMetadata {
                key: vec![99u8, 108, 105, 101, 110, 116, 83, 116, 97, 116, 101],
                value: self.encode_client_state(),
            },
        );
        let mut i: usize = 0;
        while i < self.consensus_states.len()
            invariant
                i <= self@.states.len(),
                self@.states.len() == self.consensus_states@.len(),
                out@.len() == i + 1,
                record_view(out@[0]) == (client_key(), encode_client(self@.client)),
                forall|j: int|
                    0 <= j < i ==> record_view(#[trigger] out@[j + 1]) == consensus_record(
                        self@.states[j],
                    ),
            decreases self.consensus_states@.len() - i,
        {
            let e = &self.consensus_states[i];
            let mut value: Vec<u8> = Vec::new();
            push_u64(&mut value, e.0.revision_number);
            push_u64(&mut value, e.0.revision_height);
            extend_bytes(&mut value, &e.1);
            let key = consensus_key_bytes(&e.0);
            proof {
                assert(value@ =~= encode_consensus(self@.states[i as int].0, self@.states[i as int].1));
            }
            out.push(GenesisMetadata { key, value });
            i = i + 1;
        }
        proof {
            let v = out@.map_values(|g: GenesisMetadata| record_view(g));
            let w = export_records(self@);
            assert(v.len() == w.len());
            assert forall|j: int| 0 <= j < v.len() implies v[j] == w[j] by {
                if j > 0 {
                    assert(record_view(out@[(j - 1) + 1]) == consensus_record(self@.states[j - 1]));
                }
            }
            assert(v =~= w);
        }
        ExportMetadataResult { genesis_metadata: out }
    }
}

proof fn lemma_client_round_trip(c: ClientView)
    requires
        c.data.len() < 0x1_0000_0000_0000_0000,
    ensures
        decode_client(encode_client(c)) == Some(c),
{
    let v = encode_client(c);
    let (f, a, b) = match c.frozen_height {
        None => (0u8, 0u64, 0u64),
        Some(h) => (1u8, h.revision_number, h.revision_height),
    };
    let dl = c.data.len() as u64;
    lemma_be8(c.latest_height.revision_number);
    lemma_be8(c.latest_height.revision_height);
    lemma_be8(a);
    lemma_be8(b);
    lemma_be8(dl);
    assert(v =~= be8(c.latest_height.revision_number) + be8(c.latest_height.revision_height) + seq![
        f,
    ] + be8(a) + be8(b) + be8(dl) + c.data + c.checksum);
    assert(v.subrange(0, 8) =~= be8(c.latest_height.revision_number));
    assert(v.subrange(8, 16) =~= be8(c.latest_height.revision_height));
    assert(v[16] == f);
    assert(v.subrange(17, 25) =~= be8(a));
    assert(v.subrange(25, 33) =~= be8(b));
    assert(v.subrange(33, 41) =~= be8(dl));
    assert(u64_at(v, 33) == c.data.len());
    assert(v.subrange(41, 41 + c.data.len() as int) =~= c.data);
    assert(v.subrange(41 + c.data.len() as int, v.len() as int) =~= c.checksum);
    let d = decode_client(v)->Some_0;
    assert(d.frozen_height == c.frozen_height);
    assert(d == c);
}

proof fn lemma_consensus_round_trip(e: (Height, Seq<u8>))
    ensures
        decode_consensus(encode_consensus(e.0, e.1)) == Some(e),
{
    let v = encode_consensus(e.0, e.1);
    lemma_be8(e.0.revision_number);
    lemma_be8(e.0.revision_height);
    assert(v.subrange(0, 8) =~= be8(e.0.revision_number));
    assert(v.subrange(8, 16) =~= be8(e.0.revision_height));
    assert(v.subrange(16, v.len() as int) =~= e.1);
}

/// Rebuilding a store from its export gives back the same store: the same
/// client state and the same consensus states, in the same order.
pub proof fn lemma_export_round_trip(s: StoreView)
    requires
        s.wf(),
        s.client.data.len() < 0x1_0000_0000_0000_0000,
    ensures
        import_outcome(export_records(s)) == Ok::<StoreView, ContractError>(s),
{
    let rs = export_records(s);
    lemma_client_round_trip(s.client);
    assert(rs[0] == (client_key(), encode_client(s.client)));
    assert forall|i: int| 1 <= i < rs.len() implies record_ok(#[trigger] rs[i]) by {
        assert(rs[i] == consensus_record(s.states[i - 1]));
        lemma_consensus_round_trip(s.states[i - 1]);
    }
    let t = imported_store(rs);
    assert forall|j: int| 0 <= j < s.states.len() implies t.states[j] == s.states[j] by {
        assert(rs[j + 1] == consensus_record(s.states[j]));
        lemma_consensus_round_trip(s.states[j]);
    }
    assert(t.states =~= s.states);
}

} // verus!

use vstd::prelude::*;

use crate::codec::{ascii_string, decimal, lemma_decimal_ascii, push_decimal};
use crate::msg::Height;

verus! {

/// The store key of the client state.
pub const HOST_CLIENT_STATE_KEY: &'static str = "clientState";

/// The namespace of the consensus states' store keys.
pub const HOST_CONSENSUS_STATES_KEY: &'static str = "consensusStates";

/// The bytes of `consensusStates/`.
pub open spec fn consensus_key_prefix() -> Seq<u8> {
    seq![99u8, 111, 110, 115, 101, 110, 115, 117, 115, 83, 116, 97, 116, 101, 115, 47]
}

/// The store key of the consensus state at `h`:
/// `consensusStates/<revision_number>-<revision_height>`.
pub open spec fn consensus_key(h: Height) -> Seq<u8> {
    consensus_key_prefix() + decimal(h.revision_number as nat) + seq![45u8] + decimal(
        h.revision_height as nat,
    )
}

/// The store key of the consensus state at `height`, as bytes.
pub fn consensus_key_bytes(height: &Height) -> (r: Vec<u8>)
    ensures
        r@ == consensus_key(*height),
{
    let mut out: Vec<u8> = vec![99u8, 111, 110, 115, 101, 110, 115, 117, 115, 83, 116, 97, 116, 101, 115, 47];
    push_decimal(&mut out, height.revision_number);
    out.push(45u8);
    push_decimal(&mut out, height.revision_height);
    proof {
        assert(out@ =~= consensus_key(*height));
    }
    out
}

/// The store key of the consensus state at `height`.
pub fn consensus_db_key(height: &Height) -> (r: String)
    ensures
        r@ == consensus_key(*height).map_values(|c: u8| c as char),
{
    let key = consensus_key_bytes(height);
    proof {
        lemma_decimal_ascii(height.revision_number as nat);
        lemma_decimal_ascii(height.revision_height as nat);
        let p = consensus_key_prefix();
        let a = decimal(height.revision_number as nat);
        let b = decimal(height.revision_height as nat);
        assert forall|i: int| 0 <= i < key@.len() implies #[trigger] key@[i] < 128 by {
            if i < p.len() {
            } else if i < p.len() + a.len() {
                assert(key@[i] == a[i - p.len()]);
            } else if i == p.len() + a.len() {
            } else {
                assert(key@[i] == b[i - p.len() - a.len() - 1]);
            }
        }
    }
    ascii_string(key)
}

} // verus!

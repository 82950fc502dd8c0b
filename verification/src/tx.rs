//! Transactions as the pool stores them, and the keys it finds them by.

use std::collections::HashMap;

use sha2::{Digest, Sha256};
use vstd::prelude::*;

verus! {

broadcast use vstd::std_specs::hash::group_hash_axioms;

/// The key of a transaction: its SHA-256 digest.
pub type TxKeyHash = [u8; 32];

/// A peer that a transaction can come from.
#[derive(Clone, Copy, Debug, PartialEq, Eq, Hash, Structural)]
pub struct PeerId(pub u16);

/// A transaction in the pool.
#[derive(Debug)]
pub struct MempoolTx {
    /// Height at which the transaction was validated.
    pub height: i64,
    /// Gas that the transaction asks for.
    pub gas_wanted: i64,
    /// The raw transaction.
    pub tx: Vec<u8>,
    /// The peers that sent the transaction, by the number in their `PeerId`.
    pub senders: HashMap<u16, bool>,
}

/// What a [`MempoolTx`] holds.
#[verifier::ext_equal]
pub struct TxRecord {
    pub height: i64,
    pub gas_wanted: i64,
    pub tx: Seq<u8>,
    pub senders: Map<u16, bool>,
}

impl View for MempoolTx {
    type V = TxRecord;

    open spec fn view(&self) -> TxRecord {
        TxRecord {
            height: self.height,
            gas_wanted: self.gas_wanted,
            tx: self.tx@,
            senders: self.senders@,
        }
    }
}

impl Clone for MempoolTx {
    fn clone(&self) -> (res: Self)
        ensures
            res@ == self@,
    {
        MempoolTx {
            height: self.height,
            gas_wanted: self.gas_wanted,
            tx: self.tx.clone(),
            senders: self.senders.clone(),
        }
    }
}

/// The senders of a transaction that came from `peer` alone.
pub(crate) fn sent_by(peer: PeerId) -> (senders: HashMap<u16, bool>)
    ensures
        senders@ == Map::<u16, bool>::empty().insert(peer.0, true),
{
    let mut senders: HashMap<u16, bool> = HashMap::new();
    senders.insert(peer.0, true);
    senders
}

/// Whether two slices hold the same bytes.
pub(crate) fn same_bytes(a: &[u8], b: &[u8]) -> (same: bool)
    ensures
        same == (a@ == b@),
{
    if a.len() != b.len() {
        return false;
    }
    let mut i: usize = 0;
    while i < a.len()
        invariant
            0 <= i <= a.len(),
            a@.len() == b@.len(),
            forall|j: int| 0 <= j < i ==> a@[j] == b@[j],
        decreases a.len() - i,
    {
        if a[i] != b[i] {
            return false;
        }
        i = i + 1;
    }
    assert(a@ =~= b@);
    true
}

/// The SHA-256 digest of `data`.
pub uninterp spec fn sha256(data: Seq<u8>) -> Seq<u8>;

/// The key of `tx`, from `sha2::Sha256`: `new`, one `update` with the whole of `tx`, `finalize`.
/// The digest is a function of the bytes alone, and is called `sha256(tx@)` here. Nothing is
/// claimed of it but its length, which the type gives; two transactions may share a key.
#[verifier::external_body]
pub fn hash_tx(tx: &[u8]) -> (key: TxKeyHash)
    ensures
        key@ == sha256(tx@),
{
    let mut hasher = Sha256::new();
    hasher.update(tx);
    hasher.finalize().into()
}

} // verus!

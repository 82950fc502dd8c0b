//! Tests of whether an operation of the pool can be called.

use vstd::prelude::*;

use crate::mempool::{bytes_of, CListMempool};
use crate::model::{
    fits_i64, keyed_by, lemma_leaving_more, lemma_leaving_rest, lemma_no_entry_left,
    lemma_total_without_key, total_bytes, without_keys,
};
use crate::store::{map_contains_key, map_get, map_iter, map_len};
use crate::tx::{hash_tx, same_bytes, sha256, TxKeyHash};

verus! {

/// Whether a sum is a value of `i64`.
fn sum_fits(sum: i128) -> (fits: bool)
    ensures
        fits == fits_i64(sum as int),
{
    i64::MIN as i128 <= sum && sum <= i64::MAX as i128
}

/// The keys of some transactions.
fn keys_of(raw_txs: &[&[u8]]) -> (keys: Vec<TxKeyHash>)
    ensures
        keys@.len() == raw_txs@.len(),
        forall|i: int|
            0 <= i < keys@.len() ==> (#[trigger] keys@[i])@ == sha256(bytes_of(raw_txs@)[i]),
{
    let mut keys: Vec<TxKeyHash> = Vec::new();
    let mut i: usize = 0;
    while i < raw_txs.len()
        invariant
            0 <= i <= raw_txs.len(),
            keys@.len() == i,
            forall|j: int| 0 <= j < i ==> (#[trigger] keys@[j])@ == sha256(bytes_of(raw_txs@)[j]),
        decreases raw_txs.len() - i,
    {
        keys.push(hash_tx(raw_txs[i]));
        i = i + 1;
    }
    keys
}

/// Whether `key` is among the keys of some transactions.
fn is_among(
    key: &TxKeyHash,
    keys: &Vec<TxKeyHash>,
    Ghost(txs): Ghost<Seq<Seq<u8>>>,
) -> (among: bool)
    requires
        keys@.len() == txs.len(),
        forall|i: int| 0 <= i < keys@.len() ==> (#[trigger] keys@[i])@ == sha256(txs[i]),
    ensures
        among == keyed_by(key@, txs),
{
    let mut i: usize = 0;
    while i < keys.len()
        invariant
            0 <= i <= keys.len(),
            keys@.len() == txs.len(),
            forall|j: int| 0 <= j < keys@.len() ==> (#[trigger] keys@[j])@ == sha256(txs[j]),
            forall|j: int| 0 <= j < i ==> key@ != sha256(#[trigger] txs[j]),
        decreases keys.len() - i,
    {
        if same_bytes(key.as_slice(), keys[i].as_slice()) {
            assert(key@ == sha256(txs[i as int]));
            return true;
        }
        i = i + 1;
    }
    false
}

impl CListMempool {
    /// Whether [`Self::add_tx`] can be called with the transaction `tx`.
    pub fn can_add(&self, tx: &[u8]) -> (can: bool)
        ensures
            can == self@.add_in_range(tx@),
    {
        let tx_hash = hash_tx(tx);
        map_contains_key(&self.txs, tx_hash.as_slice()) || sum_fits(
            self.txs_bytes as i128 + tx.len() as i128,
        )
    }

    /// Whether [`Self::remove_tx`] can be called with `tx`.
    pub fn can_remove(&self, tx: &[u8]) -> (can: bool)
        ensures
            can == self@.remove_in_range(tx@),
    {
        let tx_hash = hash_tx(tx);
        let found = map_get(&self.txs, tx_hash.as_slice());
        proof {
            lemma_total_without_key(self@.entries, tx_hash@);
        }
        match found {
            Some(mem_tx) => sum_fits(self.txs_bytes as i128 - mem_tx.tx.len() as i128),
            None => true,
        }
    }

    /// Whether [`Self::remove_tx_by_key`] can be called with `tx_hash`.
    pub fn can_remove_by_key(&self, tx_hash: &[u8]) -> (can: bool)
        ensures
            can == self@.remove_by_key_in_range(tx_hash@),
    {
        match map_get(&self.txs, tx_hash) {
            Some(mem_tx) => self.can_remove(mem_tx.tx.as_slice()),
            None => true,
        }
    }

    /// Whether [`Self::is_full`] can be called with `tx_size`.
    pub fn can_test_full(&self, tx_size: i64) -> (can: bool)
        ensures
            can == self@.full_in_range(tx_size as int),
    {
        self.can_add_up(tx_size as i128)
    }

    /// Whether there can be a test of the room for the transaction `tx`.
    pub fn can_test_room(&self, tx: &[u8]) -> (can: bool)
        ensures
            can == self@.full_in_range(tx@.len() as int),
    {
        self.can_add_up(tx.len() as i128)
    }

    /// Whether the byte count and `tx_size` can be added up, where the sum is looked at.
    fn can_add_up(&self, tx_size: i128) -> (can: bool)
        requires
            i64::MIN <= tx_size <= u64::MAX,
        ensures
            can == self@.full_in_range(tx_size as int),
    {
        self.config.size <= 0 || map_len(&self.txs) as u64 >= self.config.size as u64 || sum_fits(
            self.txs_bytes as i128 + tx_size,
        )
    }

    /// Whether the byte count stays in range when all of `raw_txs` are removed.
    pub fn can_remove_all(&self, raw_txs: &[&[u8]]) -> (can: bool)
        ensures
            can == self@.purge_in_range(bytes_of(raw_txs@)),
    {
        let ghost txs = bytes_of(raw_txs@);
        let ghost all = self@.entries;
        let keys = keys_of(raw_txs);
        let items = map_iter(&self.txs);
        let mut bytes: i64 = self.txs_bytes;
        let mut i: usize = 0;
        assert(without_keys(all.take(0), txs).len() == 0) by {
            lemma_no_entry_left(all.take(0), txs);
        }
        while i < items.len()
            invariant
                0 <= i <= items.len(),
                items@.len() == all.len(),
                all == self@.entries,
                forall|j: int|
                    0 <= j < items@.len() ==> {
                        &&& (#[trigger] items@[j]).0@ == all[j].key
                        &&& items@[j].1@ == all[j].tx
                    },
                keys@.len() == txs.len(),
                forall|j: int| 0 <= j < keys@.len() ==> (#[trigger] keys@[j])@ == sha256(txs[j]),
                txs == bytes_of(raw_txs@),
                bytes == self.txs_bytes - (total_bytes(all.take(i as int)) - total_bytes(
                    without_keys(all.take(i as int), txs),
                )),
            decreases items.len() - i,
        {
            let (key, mem_tx) = items[i];
            proof {
                lemma_leaving_more(all, txs, i as int);
                lemma_leaving_rest(all, txs, i + 1);
            }
            if is_among(key, &keys, Ghost(txs)) {
                let rest: i128 = bytes as i128 - mem_tx.tx.len() as i128;
                if !sum_fits(rest) {
                    return false;
                }
                bytes = rest as i64;
            }
            i = i + 1;
        }
        assert(all.take(i as int) == all);
        true
    }

    /// Whether some transaction stays when all of `raw_txs` are removed.
    pub fn any_stays(&self, raw_txs: &[&[u8]]) -> (any: bool)
        ensures
            any == (self@.purged(bytes_of(raw_txs@)).size() > 0),
    {
        let ghost txs = bytes_of(raw_txs@);
        let ghost all = self@.entries;
        let keys = keys_of(raw_txs);
        proof {
            lemma_no_entry_left(all, txs);
        }
        let items = map_iter(&self.txs);
        let mut i: usize = 0;
        while i < items.len()
            invariant
                0 <= i <= items.len(),
                items@.len() == all.len(),
                all == self@.entries,
                forall|j: int| 0 <= j < items@.len() ==> (#[trigger] items@[j]).0@ == all[j].key,
                keys@.len() == txs.len(),
                forall|j: int| 0 <= j < keys@.len() ==> (#[trigger] keys@[j])@ == sha256(txs[j]),
                forall|j: int| 0 <= j < i ==> keyed_by((#[trigger] all[j]).key, txs),
                txs == bytes_of(raw_txs@),
                self@.purged(txs).size() == 0 <==> (forall|j: int|
                    0 <= j < all.len() ==> keyed_by((#[trigger] all[j]).key, txs)),
            decreases items.len() - i,
        {
            if !is_among(items[i].0, &keys, Ghost(txs)) {
                return true;
            }
            i = i + 1;
        }
        false
    }
}

} // verus!

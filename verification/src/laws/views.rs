//! What the values of the library stand for.

use vstd::prelude::*;
use vstd::std_specs::convert::FromSpec;

use crate::action::{effects, Action, Effect};
use crate::ffi::state;
use crate::mempool::{bytes_of, records, CListMempool, MempoolConfig};
use crate::model::{total_bytes, MempoolState};
use crate::raw::{GoRawSlices, RawMempoolTx, RawSlice, RustRawSlices};
use crate::reap::reaped;
use crate::store::{entries, has_key, tx_under, Entry};
use crate::tx::{sha256, MempoolTx, TxRecord};

verus! {

/// The state of a pool is what its fields hold, each as it is.
pub proof fn law_state_of_a_pool(pool: CListMempool)
    ensures
        pool@.config == pool.config,
        pool@.height == pool.height,
        pool@.entries == entries(pool.txs),
        pool@.txs_bytes == pool.txs_bytes,
        pool@.notified_txs_available == pool.notified_txs_available,
        pool@.recheck_txs.len() == pool.recheck_txs@.len(),
        forall|i: int|
            0 <= i < pool.recheck_txs@.len() ==> #[trigger] pool@.recheck_txs[i]
                == pool.recheck_txs@[i]@,
        state(Some(pool)) == Some(pool@),
        state(None) == None::<MempoolState>,
{
}

/// The record of a transaction is what its fields hold, each as it is.
pub proof fn law_record_of_a_transaction(tx: MempoolTx)
    ensures
        tx@.height == tx.height,
        tx@.gas_wanted == tx.gas_wanted,
        tx@.tx == tx.tx@,
        tx@.senders == tx.senders@,
{
}

/// Two actions say the same exactly where they are of one kind and carry the same values; the
/// values are carried as they are.
pub proof fn law_effect_of_an_action(action: Action)
    ensures
        action is CloseTxsWaitChan <==> action@ == Effect::CloseTxsWaitChan,
        action is MakeTxsWaitChan <==> action@ == Effect::MakeTxsWaitChan,
        action is AskTxsAvailableEnabled <==> action@ == Effect::AskTxsAvailableEnabled,
        action is NotifyTxsAvailable <==> action@ == Effect::NotifyTxsAvailable,
        action is AskPreCheck <==> action@ == Effect::AskPreCheck,
        action is AskConnError <==> action@ == Effect::AskConnError,
        action is FlushAsync <==> action@ == Effect::FlushAsync,
        action is ReportRecheckMismatch <==> action@ == Effect::ReportRecheckMismatch,
        action is AskPostCheck <==> action@ is AskPostCheck,
        action matches Action::AskPostCheck { check_tx_code: code, tx: asked } ==> action@
            == (Effect::AskPostCheck { check_tx_code: code, tx: asked@ }),
        action is CheckTxAsync <==> action@ is CheckTxAsync,
        action matches Action::CheckTxAsync { tx: handed, set_callback: set } ==> action@
            == (Effect::CheckTxAsync { tx: handed@, set_callback: set }),
{
}

/// A batch says what its actions say, one for one and in their order.
pub proof fn law_effects_of_a_batch(actions: Seq<Action>)
    ensures
        effects(actions).len() == actions.len(),
        forall|i: int| 0 <= i < actions.len() ==> #[trigger] effects(actions)[i] == actions[i]@,
{
}

/// What sequences of transactions hold is what each of them holds, in their order.
pub proof fn law_sequences_of_transactions(
    txs: Seq<MempoolTx>,
    refs: Seq<&MempoolTx>,
    slices: Seq<&[u8]>,
)
    ensures
        records(txs).len() == txs.len(),
        forall|i: int| 0 <= i < txs.len() ==> #[trigger] records(txs)[i] == txs[i]@,
        reaped(refs).len() == refs.len(),
        forall|i: int| 0 <= i < refs.len() ==> #[trigger] reaped(refs)[i] == refs[i]@,
        bytes_of(slices).len() == slices.len(),
        forall|i: int| 0 <= i < slices.len() ==> #[trigger] bytes_of(slices)[i] == slices[i]@,
{
}

/// What a pool is seen to contain are its entries: as many, in their order, found by their keys.
pub proof fn law_contents(pool: MempoolState, tx: Seq<u8>)
    ensures
        pool.size() == pool.entries.len(),
        pool.txs().len() == pool.entries.len(),
        pool.raw_txs().len() == pool.entries.len(),
        pool.gas_wanted().len() == pool.entries.len(),
        forall|i: int|
            0 <= i < pool.entries.len() ==> {
                &&& pool.txs()[i] == (#[trigger] pool.entries[i]).tx
                &&& pool.raw_txs()[i] == pool.entries[i].tx.tx
                &&& pool.gas_wanted()[i] == pool.entries[i].tx.gas_wanted
            },
        pool.has_tx(tx) <==> pool.entries.map_values(|e: Entry| e.key).contains(sha256(tx)),
{
    law_key_of_an_entry(pool.entries, sha256(tx), 0);
}

/// A key is there exactly where some entry has it, and where one entry alone has it, its
/// transaction is the one under the key.
pub proof fn law_key_of_an_entry(s: Seq<Entry>, key: Seq<u8>, i: int)
    ensures
        s.map_values(|e: Entry| e.key).contains(key) <==> has_key(s, key),
        0 <= i < s.len() && s[i].key == key && (forall|j: int|
            0 <= j < s.len() && j != i ==> (#[trigger] s[j]).key != key) ==> tx_under(s, key)
            == s[i].tx,
{
    let keys = s.map_values(|e: Entry| e.key);
    if has_key(s, key) {
        let j = choose|j: int| 0 <= j < s.len() && (#[trigger] s[j]).key == key;
        assert(keys[j] == key);
    }
    if keys.contains(key) {
        let j = choose|j: int| 0 <= j < keys.len() && keys[j] == key;
        assert(s[j].key == key);
    }
}

/// The total size of entries is the sum of the lengths of their transactions: nothing for none,
/// and each adds its own.
pub proof fn law_total_size(s: Seq<Entry>, e: Entry)
    ensures
        total_bytes(Seq::<Entry>::empty()) == 0,
        total_bytes(s.push(e)) == total_bytes(s) + e.tx.tx.len(),
{
    assert(s.push(e).drop_last() == s);
}

/// A pool starts with the limits and at the height that are asked for, without transactions, with
/// nothing to recheck and nothing announced.
pub proof fn law_new_pool(config: MempoolConfig, height: i64)
    ensures
        ({
            let pool = MempoolState::fresh(config, height);
            &&& pool.config == config
            &&& pool.height == height
            &&& pool.entries.len() == 0
            &&& pool.txs_bytes == 0
            &&& !pool.notified_txs_available
            &&& pool.recheck_txs.len() == 0
        }),
{
}

/// A slice that crosses the boundary is null exactly where there is no pointer, and else holds all
/// the bytes that are pointed to.
pub proof fn law_slice(slice: RawSlice)
    ensures
        slice.is_null() <==> slice.ptr is None,
        slice.ptr is None ==> slice@.len() == 0,
        slice.ptr matches Some(bytes) ==> slice@ == bytes@,
{
}

/// What is made of a slice points to all of it.
pub proof fn law_slice_of_bytes<'a>(bytes: &'a [u8])
    ensures
        <RawSlice<'a> as FromSpec<&'a [u8]>>::from_spec(bytes).ptr == Some(bytes),
{
}

/// Slices that cross the boundary hold what each of them holds, in their order; a null pointer
/// holds none.
pub proof fn law_slices(given: GoRawSlices, handed: RustRawSlices)
    ensures
        given.ptr is None ==> given@.len() == 0 && given.no_null_inside(),
        given.ptr matches Some(slices) ==> {
            &&& given@.len() == slices@.len()
            &&& forall|i: int| 0 <= i < slices@.len() ==> #[trigger] given@[i] == slices@[i]@
            &&& given.no_null_inside() <==> forall|i: int|
                0 <= i < slices@.len() ==> (#[trigger] slices@[i]).ptr is Some
        },
        handed@.len() == handed.slices@.len(),
        forall|i: int|
            0 <= i < handed.slices@.len() ==> #[trigger] handed@[i] == handed.slices@[i]@,
        handed.no_null_inside() <==> forall|i: int|
            0 <= i < handed.slices@.len() ==> (#[trigger] handed.slices@[i]).ptr is Some,
{
    if let Some(slices) = given.ptr {
        assert forall|i: int| 0 <= i < slices@.len() implies #[trigger] given@[i]
            == slices@[i]@ by {}
        if given.no_null_inside() {
            assert forall|i: int| 0 <= i < slices@.len() implies (
            #[trigger] slices@[i]).ptr is Some by {
                assert(!slices@[i].is_null());
            }
        }
        if forall|i: int| 0 <= i < slices@.len() ==> (#[trigger] slices@[i]).ptr is Some {
            assert forall|i: int| 0 <= i < slices@.len() implies !(
            #[trigger] slices@[i]).is_null() by {}
        }
    }
    let slices = handed.slices@;
    assert forall|i: int| 0 <= i < slices.len() implies #[trigger] handed@[i] == slices[i]@ by {}
}

/// What is handed out for a transaction has its height, its gas, all its bytes, and each of its
/// senders once; so it settles which transaction it stands for, but for what is noted with the
/// senders.
pub proof fn law_handed_out_transaction(handed: RawMempoolTx, tx: TxRecord, other: TxRecord)
    requires
        handed.stands_for(tx),
    ensures
        handed.height == tx.height,
        handed.gas_wanted == tx.gas_wanted,
        handed.raw_tx.ptr matches Some(bytes) && bytes@ == tx.tx,
        handed.senders matches Some(senders) && {
            &&& senders@.no_duplicates()
            &&& forall|peer: u16| #[trigger]
                senders@.contains(peer) <==> tx.senders.dom().contains(peer)
        },
        handed.stands_for(other) <==> {
            &&& other.height == tx.height
            &&& other.gas_wanted == tx.gas_wanted
            &&& other.tx == tx.tx
            &&& other.senders.dom() == tx.senders.dom()
        },
{
    if let Some(senders) = handed.senders {
        assert forall|peer: u16| #[trigger] senders@.contains(peer) <==> tx.senders.dom().contains(
            peer,
        ) by {
            assert(senders@.to_set().contains(peer) <==> senders@.contains(peer));
        }
    }
}

/// What is handed out for no transaction is null throughout, and stands for none.
pub proof fn law_null_transaction(handed: RawMempoolTx, tx: TxRecord)
    ensures
        handed.is_null() <==> {
            &&& handed.height == 0
            &&& handed.gas_wanted == 0
            &&& handed.raw_tx.ptr is None
            &&& handed.senders is None
        },
        handed.is_null() ==> !handed.stands_for(tx),
{
}

} // verus!

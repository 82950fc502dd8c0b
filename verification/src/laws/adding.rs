//! How a transaction gets into the pool.

use vstd::prelude::*;

use crate::action::Effect;
use crate::model::MempoolState;
use crate::store::{has_key, Entry};
use crate::tx::{sha256, TxRecord};

verus! {

/// A transaction that is added comes behind all others, as it is and under its own key, and its
/// length is added to the byte count; one whose key is there changes nothing. Nothing else of the
/// pool changes. The first transaction of an empty pool, and no other, ends the waiting.
pub proof fn law_addition(pool: MempoolState, tx: TxRecord)
    ensures
        ({
            let next = pool.added(tx);
            let there = exists|i: int|
                0 <= i < pool.entries.len() && (#[trigger] pool.entries[i]).key == sha256(tx.tx);
            &&& there ==> next == pool
            &&& !there ==> {
                &&& next.entries == pool.entries.push(Entry { key: sha256(tx.tx), tx })
                &&& next.txs_bytes == pool.txs_bytes + tx.tx.len()
            }
            &&& next.config == pool.config
            &&& next.height == pool.height
            &&& next.notified_txs_available == pool.notified_txs_available
            &&& next.recheck_txs == pool.recheck_txs
        }),
        pool.entries.len() == 0 ==> pool.add_effects() == seq![Effect::CloseTxsWaitChan],
        pool.entries.len() > 0 ==> pool.add_effects().len() == 0,
{
    law_addition_under_a_key(pool, sha256(tx.tx), tx);
}

/// The same of a transaction that is added under a given key.
pub proof fn law_addition_under_a_key(pool: MempoolState, key: Seq<u8>, tx: TxRecord)
    ensures
        ({
            let next = pool.added_under(key, tx);
            let there = exists|i: int|
                0 <= i < pool.entries.len() && (#[trigger] pool.entries[i]).key == key;
            &&& there ==> next == pool
            &&& !there ==> {
                &&& next.entries == pool.entries.push(Entry { key, tx })
                &&& next.txs_bytes == pool.txs_bytes + tx.tx.len()
            }
            &&& next.config == pool.config
            &&& next.height == pool.height
            &&& next.notified_txs_available == pool.notified_txs_available
            &&& next.recheck_txs == pool.recheck_txs
        }),
{
    assert(has_key(pool.entries, key) <==> exists|i: int|
        0 <= i < pool.entries.len() && (#[trigger] pool.entries[i]).key == key);
}

/// A first response with any code but zero, or after which the node's check fails, or for which
/// there is no room by number or by bytes, changes nothing and asks for nothing. Any other puts
/// the transaction behind all others, with the height of the pool, the gas of the response and the
/// one peer as its sender, unless its key is there; and the pool is announced.
pub proof fn law_first_response(
    pool: MempoolState,
    code: u32,
    has_post_check_err: bool,
    tx: Seq<u8>,
    gas_wanted: i64,
    peer_id: u16,
)
    ensures
        ({
            let next = pool.first_checked(code, has_post_check_err, tx, gas_wanted, peer_id);
            let emitted = pool.first_response_effects(code, has_post_check_err, tx);
            let left_out = {
                ||| code != 0
                ||| has_post_check_err
                ||| pool.entries.len() >= pool.config.size
                ||| pool.txs_bytes + tx.len() > pool.config.max_txs_bytes
            };
            let there = exists|i: int|
                0 <= i < pool.entries.len() && (#[trigger] pool.entries[i]).key == sha256(tx);
            &&& left_out ==> next == pool && emitted.len() == 0
            &&& !left_out && there ==> next == pool
            &&& !left_out && !there ==> {
                &&& next.entries.len() == pool.entries.len() + 1
                &&& next.entries.drop_last() == pool.entries
                &&& next.entries.last().key == sha256(tx)
                &&& next.entries.last().tx.height == pool.height
                &&& next.entries.last().tx.gas_wanted == gas_wanted
                &&& next.entries.last().tx.tx == tx
                &&& next.entries.last().tx.senders == Map::<u16, bool>::empty().insert(
                    peer_id,
                    true,
                )
                &&& next.txs_bytes == pool.txs_bytes + tx.len()
            }
            &&& !left_out && pool.entries.len() == 0 ==> emitted == seq![
                Effect::CloseTxsWaitChan,
                Effect::AskTxsAvailableEnabled,
            ]
            &&& !left_out && pool.entries.len() > 0 ==> emitted == seq![
                Effect::AskTxsAvailableEnabled,
            ]
            &&& next.config == pool.config
            &&& next.height == pool.height
            &&& next.notified_txs_available == pool.notified_txs_available
            &&& next.recheck_txs == pool.recheck_txs
        }),
{
    let record = TxRecord {
        height: pool.height,
        gas_wanted,
        tx,
        senders: Map::<u16, bool>::empty().insert(peer_id, true),
    };
    law_addition(pool, record);
    assert(pool.entries.push(Entry { key: sha256(tx), tx: record }).drop_last() == pool.entries);
}

} // verus!
